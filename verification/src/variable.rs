//! Variables: named placeholders scoped to one clause instance.

use vstd::prelude::*;

use crate::text::spec_is_var_start_char;
use crate::text::spec_is_var_char;
use crate::text::is_var_start_char;
use crate::text::is_var_char;
use crate::text::chars_of;

verus! {

/// Whether `s` is valid variable text: nonempty, beginning with an ASCII
/// capital letter or an underscore, with every later character a letter, a
/// digit, or an underscore.
pub open spec fn spec_variable_valid(s: Seq<char>) -> bool {
    s.len() > 0 && spec_is_var_start_char(s[0]) && (forall|i: int|
        1 <= i < s.len() ==> spec_is_var_char(#[trigger] s[i]))
}

/// A variable, for example `X`, `Foo`, or `A123`.
#[derive(Debug)]
pub struct Variable(String);

impl View for Variable {
    type V = Seq<char>;

    closed spec fn view(&self) -> Seq<char> {
        self.0@
    }
}

impl DeepView for Variable {
    type V = Seq<char>;

    open spec fn deep_view(&self) -> Seq<char> {
        self@
    }
}

impl Clone for Variable {
    fn clone(&self) -> (r: Self)
        ensures
            r == *self,
    {
        Variable(self.0.clone())
    }
}

impl Variable {
    /// Tries to convert a string to a `Variable`.
    pub fn new(var: &str) -> (r: Option<Variable>)
        ensures
            spec_variable_valid(var@) ==> (r matches Some(v) && v@ == var@),
            !spec_variable_valid(var@) ==> r is None,
    {
        if Variable::is_valid(var) {
            Some(Variable(var.to_owned()))
        } else {
            None
        }
    }

    /// Returns whether the string is a valid variable.
    pub fn is_valid(s: &str) -> (r: bool)
        ensures
            r == spec_variable_valid(s@),
    {
        let chars = chars_of(s);
        if chars.len() == 0 {
            return false;
        }
        if !is_var_start_char(chars[0]) {
            return false;
        }
        let mut i: usize = 1;
        while i < chars.len()
            invariant
                chars@ == s@,
                1 <= i <= chars@.len(),
                forall|j: int| 1 <= j < i ==> spec_is_var_char(#[trigger] chars@[j]),
            decreases chars@.len() - i,
        {
            if !is_var_char(chars[i]) {
                return false;
            }
            i = i + 1;
        }
        true
    }

    /// The text of the variable.
    pub fn as_text(&self) -> (r: &String)
        ensures
            r@ == self@,
    {
        &self.0
    }

    /// Builds a variable directly from its text, which callers must have
    /// checked for validity.
    pub(crate) fn from_text(text: String) -> (r: Variable)
        requires
            spec_variable_valid(text@),
        ensures
            r@ == text@,
    {
        Variable(text)
    }
}

impl PartialEq for Variable {
    fn eq(&self, other: &Variable) -> (r: bool) {
        self.0 == other.0
    }
}

impl vstd::std_specs::cmp::PartialEqSpecImpl for Variable {
    open spec fn obeys_eq_spec() -> bool {
        true
    }

    open spec fn eq_spec(&self, other: &Variable) -> bool {
        self@ == other@
    }
}

} // verus!
