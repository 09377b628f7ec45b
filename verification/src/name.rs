//! Names: ground, atomic constant values.

use vstd::prelude::*;

use crate::symbol::Symbol;
use crate::symbol::spec_symbol_valid;
use crate::text::spec_is_ident_char;
use crate::text::is_ident_char;
use crate::text::chars_of;
use crate::text::string_of;

verus! {

/// Whether `s` is valid name text: the same condition as for a symbol.
pub open spec fn spec_name_valid(s: Seq<char>) -> bool {
    spec_symbol_valid(s)
}

/// The canonical display form of name text `s`: the text itself when every
/// character is a bare identifier character, and otherwise the text in
/// quoted-string syntax with control characters, quotes, and backslashes
/// escaped.
pub open spec fn spec_display_name(s: Seq<char>) -> Seq<char> {
    if forall|i: int| 0 <= i < s.len() ==> spec_is_ident_char(s[i]) {
        s
    } else {
        seq!['"'] + spec_escape_chars(s) + seq!['"']
    }
}

/// The concatenation of the escaped forms of the characters of `s`.
pub open spec fn spec_escape_chars(s: Seq<char>) -> Seq<char>
    decreases s.len(),
{
    if s.len() == 0 {
        Seq::empty()
    } else {
        spec_escape_char(s[0]) + spec_escape_chars(s.skip(1))
    }
}

/// The escaped form of one character inside a quoted string: quotes and
/// backslashes get a backslash, the common control characters use their
/// short escapes, any other control character uses a two-digit hex escape,
/// and every other character stands for itself.
pub open spec fn spec_escape_char(c: char) -> Seq<char> {
    if c == '"' {
        seq!['\\', '"']
    } else if c == '\\' {
        seq!['\\', '\\']
    } else if c == '\n' {
        seq!['\\', 'n']
    } else if c == '\r' {
        seq!['\\', 'r']
    } else if c == '\t' {
        seq!['\\', 't']
    } else if (c as u32) < 32 {
        seq!['\\', 'x', spec_hex_digit_char((c as u32) as int / 16), spec_hex_digit_char(
            (c as u32) as int % 16,
        )]
    } else {
        seq![c]
    }
}

/// The lower-case hexadecimal digit character for `d`.
pub open spec fn spec_hex_digit_char(d: int) -> char
    recommends
        0 <= d < 16,
{
    if d < 10 {
        ((48 + d) as u8) as char
    } else {
        ((87 + d) as u8) as char
    }
}

/// A name, for example `foo`, `42`, or `"qwerty\nasdf"`.
#[derive(Debug)]
pub struct Name(Symbol);

impl View for Name {
    type V = Seq<char>;

    closed spec fn view(&self) -> Seq<char> {
        self.0@
    }
}

impl DeepView for Name {
    type V = Seq<char>;

    open spec fn deep_view(&self) -> Seq<char> {
        self@
    }
}

impl Clone for Name {
    fn clone(&self) -> (r: Self)
        ensures
            r == *self,
    {
        Name(self.0.clone())
    }
}

impl Name {
    /// Tries to convert a string to a `Name`.
    pub fn new(ident: &str) -> (r: Option<Name>)
        ensures
            spec_name_valid(ident@) ==> (r matches Some(n) && n@ == ident@),
            !spec_name_valid(ident@) ==> r is None,
    {
        if Name::is_valid(ident) {
            match Symbol::new(ident.to_owned()) {
                Ok(sym) => Some(Name(sym)),
                Err(_) => None,
            }
        } else {
            None
        }
    }

    /// Returns whether the string is a valid name.
    pub fn is_valid(s: &str) -> (r: bool)
        ensures
            r == spec_name_valid(s@),
    {
        Symbol::is_valid(s)
    }

    /// The text of the name.
    pub fn as_text(&self) -> (r: &String)
        ensures
            r@ == self@,
    {
        self.0.as_text()
    }

    /// Builds a name directly from a symbol.
    pub fn from_symbol(sym: Symbol) -> (r: Name)
        ensures
            r@ == sym@,
    {
        Name(sym)
    }

    /// The canonical display form of the name: bare identifiers print as
    /// themselves, and any other name prints in quoted-string syntax rather
    /// than failing to print.
    pub fn to_display_string(&self) -> (r: String)
        ensures
            r@ == spec_display_name(self@),
    {
        let chars = chars_of(self.as_text().as_str());
        let mut all_ident = true;
        let mut i: usize = 0;
        while i < chars.len()
            invariant
                chars@ == self@,
                i <= chars@.len(),
                all_ident == forall|j: int| 0 <= j < i ==> spec_is_ident_char(chars@[j]),
            decreases chars@.len() - i,
        {
            if !is_ident_char(chars[i]) {
                all_ident = false;
            }
            i = i + 1;
        }
        if all_ident {
            string_of(&chars)
        } else {
            let mut out: Vec<char> = Vec::new();
            out.push('"');
            let mut i: usize = 0;
            while i < chars.len()
                invariant
                    chars@ == self@,
                    i <= chars@.len(),
                    out@ == seq!['"'] + spec_escape_chars(chars@.take(i as int)),
                decreases chars@.len() - i,
            {
                let c = chars[i];
                proof {
                    lemma_escape_chars_snoc(chars@, i as int);
                }
                if c == '"' {
                    out.push('\\');
                    out.push('"');
                } else if c == '\\' {
                    out.push('\\');
                    out.push('\\');
                } else if c == '\n' {
                    out.push('\\');
                    out.push('n');
                } else if c == '\r' {
                    out.push('\\');
                    out.push('r');
                } else if c == '\t' {
                    out.push('\\');
                    out.push('t');
                } else if (c as u32) < 32 {
                    out.push('\\');
                    out.push('x');
                    out.push(hex_digit_char(((c as u32) / 16) as u8));
                    out.push(hex_digit_char(((c as u32) % 16) as u8));
                } else {
                    out.push(c);
                }
                i = i + 1;
                proof {
                    assert(out@ =~= seq!['"'] + spec_escape_chars(chars@.take(i as int)));
                }
            }
            out.push('"');
            proof {
                assert(chars@.take(chars@.len() as int) =~= chars@);
                assert(out@ =~= spec_display_name(self@));
            }
            string_of(&out)
        }
    }
}

/// The lower-case hexadecimal digit character for `d`.
fn hex_digit_char(d: u8) -> (r: char)
    requires
        d < 16,
    ensures
        r == spec_hex_digit_char(d as int),
{
    if d < 10 {
        (48 + d) as char
    } else {
        (87 + d) as char
    }
}

/// Escaping a prefix one character longer appends that character's escape.
proof fn lemma_escape_chars_snoc(s: Seq<char>, i: int)
    requires
        0 <= i < s.len(),
    ensures
        spec_escape_chars(s.take(i + 1)) == spec_escape_chars(s.take(i)) + spec_escape_char(s[i]),
    decreases i,
{
    let a = s.take(i + 1);
    let b = s.take(i);
    if i == 0 {
        assert(a[0] == s[0]);
        assert(a.skip(1) =~= Seq::<char>::empty());
        assert(spec_escape_chars(Seq::<char>::empty()) =~= Seq::<char>::empty());
        assert(spec_escape_chars(a) =~= spec_escape_char(s[0]) + Seq::empty());
        assert(spec_escape_chars(b) =~= Seq::<char>::empty());
        assert(spec_escape_chars(a) =~= spec_escape_chars(b) + spec_escape_char(s[i]));
    } else {
        lemma_escape_chars_snoc(s.skip(1), i - 1);
        assert(a[0] == s[0]);
        assert(a.skip(1) =~= s.skip(1).take(i));
        assert(b.skip(1) =~= s.skip(1).take(i - 1));
        assert(s.skip(1)[i - 1] == s[i]);
        assert(spec_escape_chars(a) == spec_escape_char(s[0]) + spec_escape_chars(s.skip(1).take(i)));
        assert(spec_escape_chars(s.skip(1).take(i)) == spec_escape_chars(s.skip(1).take(i - 1))
            + spec_escape_char(s[i]));
        assert(spec_escape_chars(a) =~= spec_escape_chars(b) + spec_escape_char(s[i]));
    }
}

impl PartialEq for Name {
    fn eq(&self, other: &Name) -> (r: bool) {
        self.0 == other.0
    }
}

impl vstd::std_specs::cmp::PartialEqSpecImpl for Name {
    open spec fn obeys_eq_spec() -> bool {
        true
    }

    open spec fn eq_spec(&self, other: &Name) -> bool {
        self@ == other@
    }
}

} // verus!
