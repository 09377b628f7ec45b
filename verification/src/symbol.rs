//! Symbols: the canonical text of constants.

use vstd::prelude::*;

use crate::text::spec_is_var_start_char;
use crate::text::is_var_start_char;

verus! {

/// Whether `s` is valid symbol text: nonempty, and not beginning with an
/// ASCII capital letter or an underscore.
pub open spec fn spec_symbol_valid(s: Seq<char>) -> bool {
    s.len() > 0 && !spec_is_var_start_char(s[0])
}

/// A symbol, for example `foo`, `42`, or the contents of a quoted string.
#[derive(Debug)]
pub struct Symbol(String);

impl View for Symbol {
    type V = Seq<char>;

    closed spec fn view(&self) -> Seq<char> {
        self.0@
    }
}

impl DeepView for Symbol {
    type V = Seq<char>;

    open spec fn deep_view(&self) -> Seq<char> {
        self@
    }
}

impl Clone for Symbol {
    fn clone(&self) -> (r: Self)
        ensures
            r == *self,
    {
        Symbol(self.0.clone())
    }
}

impl Symbol {
    /// Tries to convert a `String` to a `Symbol`, returning the `Symbol` if
    /// the string is a valid symbol and passing the `String` back if it is
    /// not.
    pub fn new(ident: String) -> (r: Result<Symbol, String>)
        ensures
            spec_symbol_valid(ident@) ==> (r matches Ok(s) && s@ == ident@),
            !spec_symbol_valid(ident@) ==> (r matches Err(s) && s@ == ident@),
    {
        if Symbol::is_valid(ident.as_str()) {
            Ok(Symbol(ident))
        } else {
            Err(ident)
        }
    }

    /// Returns whether the string is a valid symbol.
    pub fn is_valid(s: &str) -> (r: bool)
        ensures
            r == spec_symbol_valid(s@),
    {
        if s.unicode_len() == 0 {
            false
        } else {
            !is_var_start_char(s.get_char(0))
        }
    }

    /// The text of the symbol.
    pub fn as_text(&self) -> (r: &String)
        ensures
            r@ == self@,
    {
        &self.0
    }

    /// Builds a symbol directly from its text, which callers must have
    /// checked for validity.
    pub(crate) fn from_text(text: String) -> (r: Symbol)
        requires
            spec_symbol_valid(text@),
        ensures
            r@ == text@,
    {
        Symbol(text)
    }
}

impl PartialEq for Symbol {
    fn eq(&self, other: &Symbol) -> (r: bool) {
        self.0 == other.0
    }
}

impl vstd::std_specs::cmp::PartialEqSpecImpl for Symbol {
    open spec fn obeys_eq_spec() -> bool {
        true
    }

    open spec fn eq_spec(&self, other: &Symbol) -> bool {
        self@ == other@
    }
}

} // verus!
