//! The parser: a recursive-descent reader for the Datalog surface syntax,
//! from source text to the term model.
//!
//! A program is a sequence of statements; a statement is a clause followed
//! by `.` (assertion) or `~` (retraction), or a literal followed by `?`
//! (query); a clause is a head literal, optionally followed by `:-` and a
//! comma-separated body; a literal is a name with an optional parenthesised
//! argument list; a term is a name or a variable; a name is a bare
//! identifier or a quoted string with escapes; whitespace and `%` line
//! comments may separate tokens.

use vstd::prelude::*;

use crate::ast::Clause;
use crate::ast::ClauseV;
use crate::ast::Literal;
use crate::ast::LiteralV;
use crate::ast::Program;
use crate::ast::Statement;
use crate::ast::StatementV;
use crate::ast::Term;
use crate::ast::TermV;
use crate::errors::Error;
use crate::name::Name;
use crate::name::spec_name_valid;
use crate::symbol::Symbol;
use crate::text::chars_of;
use crate::text::string_of;
use crate::text::spec_is_ident_char;
use crate::text::spec_is_var_char;
use crate::text::spec_is_var_start_char;
use crate::text::is_ident_char;
use crate::text::is_var_char;
use crate::text::is_var_start_char;
use crate::variable::Variable;
use crate::variable::spec_variable_valid;

verus! {

/// Relies on `char::from_u32` from std: the result is the character with
/// the given code point, and there is one exactly when the value is a
/// Unicode scalar value (not a surrogate and at most the largest code
/// point).
pub assume_specification[ char::from_u32 ](i: u32) -> (r: Option<char>)
    ensures
        r is Some <==> (i < 0xD800 || (0xE000 <= i && i <= 0x10FFFF)),
        r matches Some(c) ==> c as u32 == i,
;

/// Whether `n` is a Unicode scalar value.
pub open spec fn spec_valid_scalar(n: int) -> bool {
    (0 <= n < 0xD800) || (0xE000 <= n <= 0x10FFFF)
}

/// The character with code point `n`.
pub open spec fn spec_char_of(n: int) -> char {
    n as char
}

/// Whether `c` is horizontal or vertical whitespace.
pub open spec fn spec_is_ws(c: char) -> bool {
    c == ' ' || c == '\t' || c == '\r' || c == '\n'
}

/// The position after the whitespace and `%` line comments at `pos`.
pub open spec fn spec_skip_ws(s: Seq<char>, pos: int) -> int
    decreases s.len() - pos, 0int,
{
    if pos < 0 || pos >= s.len() {
        pos
    } else if spec_is_ws(s[pos]) {
        spec_skip_ws(s, pos + 1)
    } else if s[pos] == '%' {
        spec_skip_comment(s, pos + 1)
    } else {
        pos
    }
}

/// The position after the rest of a `%` comment line.
pub open spec fn spec_skip_comment(s: Seq<char>, pos: int) -> int
    decreases s.len() - pos, 1int,
{
    if pos < 0 || pos >= s.len() {
        pos
    } else if s[pos] == '\n' {
        spec_skip_ws(s, pos + 1)
    } else {
        spec_skip_comment(s, pos + 1)
    }
}

/// The end of the run of identifier characters starting at `pos`.
pub open spec fn spec_ident_end(s: Seq<char>, pos: int) -> int
    decreases s.len() - pos,
{
    if pos < 0 || pos >= s.len() {
        pos
    } else if spec_is_ident_char(s[pos]) {
        spec_ident_end(s, pos + 1)
    } else {
        pos
    }
}

/// The bare identifier starting at `pos`: its text and end position, owed
/// exactly when at least one identifier character stands there.
pub open spec fn spec_scan_ident(s: Seq<char>, pos: int) -> Option<(Seq<char>, int)> {
    let end = spec_ident_end(s, pos);
    if end > pos {
        Some((s.subrange(pos, end), end))
    } else {
        None
    }
}

/// The end of the run of variable characters starting at `pos`.
pub open spec fn spec_var_end(s: Seq<char>, pos: int) -> int
    decreases s.len() - pos,
{
    if pos < 0 || pos >= s.len() {
        pos
    } else if spec_is_var_char(s[pos]) {
        spec_var_end(s, pos + 1)
    } else {
        pos
    }
}

/// The variable starting at `pos`: its text and end position, owed exactly
/// when a variable-start character stands there.
pub open spec fn spec_scan_variable(s: Seq<char>, pos: int) -> Option<(Seq<char>, int)> {
    if 0 <= pos < s.len() && spec_is_var_start_char(s[pos]) {
        let end = spec_var_end(s, pos + 1);
        Some((s.subrange(pos, end), end))
    } else {
        None
    }
}

/// The value of a hexadecimal digit character, or a negative number for
/// any other character.
pub open spec fn spec_hex_val(c: char) -> int {
    let n = c as u32;
    if 48 <= n <= 57 {
        n - 48
    } else if 97 <= n <= 102 {
        n - 87
    } else if 65 <= n <= 70 {
        n - 55
    } else {
        -1
    }
}

/// The code point read from `count` hexadecimal digits at `pos`, or a
/// negative number if any of them is not a digit.
pub open spec fn spec_hex_run(s: Seq<char>, pos: int, count: int) -> int
    decreases count,
{
    if count <= 0 {
        0
    } else if pos < 0 || pos >= s.len() || spec_hex_val(s[pos]) < 0 || spec_hex_run(
        s,
        pos + 1,
        count - 1,
    ) < 0 {
        -1
    } else {
        spec_hex_val(s[pos]) * crate::parser::spec_pow16(count - 1) + spec_hex_run(
            s,
            pos + 1,
            count - 1,
        )
    }
}

/// Sixteen to the power `n`.
pub open spec fn spec_pow16(n: int) -> int
    decreases n,
{
    if n <= 0 {
        1
    } else {
        16 * spec_pow16(n - 1)
    }
}

/// The escape starting just after a backslash: the character it denotes
/// and the position after it. A short escape denotes its character; `\x`
/// takes two hexadecimal digits and `\u` four and `\U` eight, each
/// denoting the character with that code point when it is a valid scalar
/// value.
pub open spec fn spec_scan_escape(s: Seq<char>, pos: int) -> Option<(char, int)> {
    if pos < 0 || pos >= s.len() {
        None
    } else if s[pos] == 'n' {
        Some(('\n', pos + 1))
    } else if s[pos] == 'r' {
        Some(('\r', pos + 1))
    } else if s[pos] == 't' {
        Some(('\t', pos + 1))
    } else if s[pos] == '\\' {
        Some(('\\', pos + 1))
    } else if s[pos] == '"' {
        Some(('"', pos + 1))
    } else if s[pos] == '\'' {
        Some(('\'', pos + 1))
    } else if s[pos] == 'x' {
        let n = spec_hex_run(s, pos + 1, 2);
        if n >= 0 && spec_valid_scalar(n) {
            Some((spec_char_of(n), pos + 3))
        } else {
            None
        }
    } else if s[pos] == 'u' {
        let n = spec_hex_run(s, pos + 1, 4);
        if n >= 0 && spec_valid_scalar(n) {
            Some((spec_char_of(n), pos + 5))
        } else {
            None
        }
    } else if s[pos] == 'U' {
        let n = spec_hex_run(s, pos + 1, 8);
        if n >= 0 && spec_valid_scalar(n) {
            Some((spec_char_of(n), pos + 9))
        } else {
            None
        }
    } else {
        None
    }
}

/// The rest of a quoted string from `pos`: its unescaped contents and the
/// position after the closing quote.
pub open spec fn spec_scan_string_body(s: Seq<char>, pos: int) -> Option<(Seq<char>, int)>
    decreases s.len() - pos,
{
    if pos < 0 || pos >= s.len() {
        None
    } else if s[pos] == '"' {
        Some((Seq::empty(), pos + 1))
    } else if s[pos] == '\\' {
        match spec_scan_escape(s, pos + 1) {
            Some((c, p2)) => if pos + 1 < p2 <= s.len() {
                match spec_scan_string_body(s, p2) {
                    Some((rest, p3)) => Some((seq![c] + rest, p3)),
                    None => None,
                }
            } else {
                None
            },
            None => None,
        }
    } else {
        match spec_scan_string_body(s, pos + 1) {
            Some((rest, p3)) => Some((seq![s[pos]] + rest, p3)),
            None => None,
        }
    }
}

/// The quoted string starting at `pos`: its unescaped contents and the
/// position after the closing quote, owed exactly when a quote stands at
/// `pos` and the string is well formed and terminated.
pub open spec fn spec_scan_string(s: Seq<char>, pos: int) -> Option<(Seq<char>, int)> {
    if 0 <= pos < s.len() && s[pos] == '"' {
        spec_scan_string_body(s, pos + 1)
    } else {
        None
    }
}

/// The name starting at `pos`: a bare identifier or a quoted string whose
/// contents are valid name text.
pub open spec fn spec_parse_name(s: Seq<char>, pos: int) -> Option<(Seq<char>, int)> {
    if 0 <= pos < s.len() && s[pos] == '"' {
        match spec_scan_string(s, pos) {
            Some((text, p)) => if spec_name_valid(text) {
                Some((text, p))
            } else {
                None
            },
            None => None,
        }
    } else if 0 <= pos < s.len() && spec_is_var_start_char(s[pos]) {
        None
    } else {
        spec_scan_ident(s, pos)
    }
}

/// The term starting at `pos`: a variable, or a name.
pub open spec fn spec_parse_term(s: Seq<char>, pos: int) -> Option<(TermV, int)> {
    if 0 <= pos < s.len() && spec_is_var_start_char(s[pos]) {
        match spec_scan_variable(s, pos) {
            Some((text, p)) => Some((TermV::Var(text), p)),
            None => None,
        }
    } else {
        match spec_parse_name(s, pos) {
            Some((text, p)) => Some((TermV::Name(text), p)),
            None => None,
        }
    }
}

/// The comma-separated term list starting at `pos`.
pub open spec fn spec_parse_terms(s: Seq<char>, pos: int) -> Option<(Seq<TermV>, int)>
    decreases s.len() - pos,
{
    match spec_parse_term(s, pos) {
        Some((t, p1)) => {
            let p2 = spec_skip_ws(s, p1);
            if p2 < s.len() && s[p2] == ',' {
                let p3 = spec_skip_ws(s, p2 + 1);
                if pos < p3 <= s.len() {
                    match spec_parse_terms(s, p3) {
                        Some((rest, p4)) => Some((seq![t] + rest, p4)),
                        None => None,
                    }
                } else {
                    None
                }
            } else {
                Some((seq![t], p1))
            }
        },
        None => None,
    }
}

/// The literal starting at `pos`: a name, optionally followed by a
/// parenthesised, possibly empty argument list.
pub open spec fn spec_parse_literal(s: Seq<char>, pos: int) -> Option<(LiteralV, int)> {
    match spec_parse_name(s, pos) {
        Some((nm, p1)) => if p1 < s.len() && s[p1] == '(' {
            let p2 = spec_skip_ws(s, p1 + 1);
            if p2 < s.len() && s[p2] == ')' {
                Some((LiteralV { name: nm, args: Seq::empty() }, p2 + 1))
            } else {
                match spec_parse_terms(s, p2) {
                    Some((args, p3)) => {
                        let p4 = spec_skip_ws(s, p3);
                        if p4 < s.len() && s[p4] == ')' {
                            Some((LiteralV { name: nm, args }, p4 + 1))
                        } else {
                            None
                        }
                    },
                    None => None,
                }
            }
        } else {
            Some((LiteralV { name: nm, args: Seq::empty() }, p1))
        },
        None => None,
    }
}

/// The comma-separated literal list starting at `pos`: a clause body.
pub open spec fn spec_parse_literals(s: Seq<char>, pos: int) -> Option<(Seq<LiteralV>, int)>
    decreases s.len() - pos,
{
    match spec_parse_literal(s, pos) {
        Some((l, p1)) => {
            let p2 = spec_skip_ws(s, p1);
            if p2 < s.len() && s[p2] == ',' {
                let p3 = spec_skip_ws(s, p2 + 1);
                if pos < p3 <= s.len() {
                    match spec_parse_literals(s, p3) {
                        Some((rest, p4)) => Some((seq![l] + rest, p4)),
                        None => None,
                    }
                } else {
                    None
                }
            } else {
                Some((seq![l], p1))
            }
        },
        None => None,
    }
}

/// The clause starting at `pos`: a head literal, optionally followed by
/// `:-` and a body.
pub open spec fn spec_parse_clause(s: Seq<char>, pos: int) -> Option<(ClauseV, int)> {
    match spec_parse_literal(s, pos) {
        Some((head, p1)) => {
            let p2 = spec_skip_ws(s, p1);
            if p2 + 1 < s.len() && s[p2] == ':' && s[p2 + 1] == '-' {
                let p3 = spec_skip_ws(s, p2 + 2);
                match spec_parse_literals(s, p3) {
                    Some((body, p4)) => Some((ClauseV { head, body }, p4)),
                    None => None,
                }
            } else {
                Some((ClauseV { head, body: Seq::empty() }, p1))
            }
        },
        None => None,
    }
}

/// The statement starting at `pos`: a clause ended by `.` (assertion) or
/// `~` (retraction), or a bodyless clause ended by `?` (query).
pub open spec fn spec_parse_stmt_at(s: Seq<char>, pos: int) -> Option<(StatementV, int)> {
    match spec_parse_clause(s, pos) {
        Some((c, p1)) => {
            let p2 = spec_skip_ws(s, p1);
            if p2 >= s.len() {
                None
            } else if s[p2] == '.' {
                Some((StatementV::Assertion(c), p2 + 1))
            } else if s[p2] == '~' {
                Some((StatementV::Retraction(c), p2 + 1))
            } else if s[p2] == '?' && c.body.len() == 0 {
                Some((StatementV::Query(c.head), p2 + 1))
            } else {
                None
            }
        },
        None => None,
    }
}

/// The statements from `pos` to the end of the text.
pub open spec fn spec_parse_program_at(s: Seq<char>, pos: int) -> Option<Seq<StatementV>>
    decreases s.len() - pos,
{
    let p0 = spec_skip_ws(s, pos);
    if p0 >= s.len() {
        Some(Seq::empty())
    } else {
        match spec_parse_stmt_at(s, p0) {
            Some((st, p1)) => if pos < p1 <= s.len() {
                match spec_parse_program_at(s, p1) {
                    Some(rest) => Some(seq![st] + rest),
                    None => None,
                }
            } else {
                None
            },
            None => None,
        }
    }
}

/// The whole text as one program.
pub open spec fn spec_parse_program(s: Seq<char>) -> Option<Seq<StatementV>> {
    spec_parse_program_at(s, 0)
}

/// The whole text as one statement.
pub open spec fn spec_parse_stmt(s: Seq<char>) -> Option<StatementV> {
    let p0 = spec_skip_ws(s, 0);
    match spec_parse_stmt_at(s, p0) {
        Some((st, p1)) => if spec_skip_ws(s, p1) >= s.len() {
            Some(st)
        } else {
            None
        },
        None => None,
    }
}

/// Skips whitespace and `%` line comments.
fn skip_ws(s: &Vec<char>, pos: usize) -> (r: usize)
    requires
        pos <= s@.len(),
    ensures
        r as int == spec_skip_ws(s@, pos as int),
        pos <= r <= s@.len(),
    decreases s@.len() - pos, 0int,
{
    if pos >= s.len() {
        pos
    } else if s[pos] == ' ' || s[pos] == '\t' || s[pos] == '\r' || s[pos] == '\n' {
        skip_ws(s, pos + 1)
    } else if s[pos] == '%' {
        skip_comment(s, pos + 1)
    } else {
        pos
    }
}

/// Skips the rest of a comment line.
fn skip_comment(s: &Vec<char>, pos: usize) -> (r: usize)
    requires
        pos <= s@.len(),
    ensures
        r as int == spec_skip_comment(s@, pos as int),
        pos <= r <= s@.len(),
    decreases s@.len() - pos, 1int,
{
    if pos >= s.len() {
        pos
    } else if s[pos] == '\n' {
        skip_ws(s, pos + 1)
    } else {
        skip_comment(s, pos + 1)
    }
}

/// The text between two positions.
fn copy_range(s: &Vec<char>, a: usize, b: usize) -> (r: String)
    requires
        a <= b <= s@.len(),
    ensures
        r@ == s@.subrange(a as int, b as int),
{
    let mut out: Vec<char> = Vec::new();
    let mut i: usize = a;
    while i < b
        invariant
            a <= i <= b <= s@.len(),
            out@ == s@.subrange(a as int, i as int),
        decreases b - i,
    {
        out.push(s[i]);
        i = i + 1;
        proof {
            assert(out@ =~= s@.subrange(a as int, i as int));
        }
    }
    string_of(&out)
}

/// The end of the run of identifier characters starting at `pos`.
fn ident_end(s: &Vec<char>, pos: usize) -> (r: usize)
    requires
        pos <= s@.len(),
    ensures
        r as int == spec_ident_end(s@, pos as int),
        pos <= r <= s@.len(),
    decreases s@.len() - pos,
{
    if pos >= s.len() {
        pos
    } else if is_ident_char(s[pos]) {
        ident_end(s, pos + 1)
    } else {
        pos
    }
}

/// Scans a bare identifier: its text and end position.
pub fn scan_ident(s: &Vec<char>, pos: usize) -> (r: Option<(String, usize)>)
    requires
        pos <= s@.len(),
    ensures
        match spec_scan_ident(s@, pos as int) {
            Some(t) => r matches Some(x) && x.0@ == t.0 && x.1 as int == t.1,
            None => r is None,
        },
        r matches Some(x) ==> pos < x.1 <= s@.len(),
{
    let end = ident_end(s, pos);
    if end > pos {
        Some((copy_range(s, pos, end), end))
    } else {
        None
    }
}

/// The end of the run of variable characters starting at `pos`.
fn var_end(s: &Vec<char>, pos: usize) -> (r: usize)
    requires
        pos <= s@.len(),
    ensures
        r as int == spec_var_end(s@, pos as int),
        pos <= r <= s@.len(),
        forall|i: int| pos <= i < r ==> spec_is_var_char(s@[i]),
    decreases s@.len() - pos,
{
    if pos >= s.len() {
        pos
    } else if is_var_char(s[pos]) {
        var_end(s, pos + 1)
    } else {
        pos
    }
}

/// Scans a variable: its text and end position.
pub fn scan_variable(s: &Vec<char>, pos: usize) -> (r: Option<(String, usize)>)
    requires
        pos <= s@.len(),
    ensures
        match spec_scan_variable(s@, pos as int) {
            Some(t) => r matches Some(x) && x.0@ == t.0 && x.1 as int == t.1,
            None => r is None,
        },
        r matches Some(x) ==> pos < x.1 <= s@.len(),
{
    if pos < s.len() && is_var_start_char(s[pos]) {
        let end = var_end(s, pos + 1);
        Some((copy_range(s, pos, end), end))
    } else {
        None
    }
}

/// The value of a hexadecimal digit.
fn hex_val(c: char) -> (r: Option<u8>)
    ensures
        spec_hex_val(c) >= 0 ==> (r matches Some(v) && v as int == spec_hex_val(c)),
        spec_hex_val(c) < 0 ==> r is None,
{
    let n = c as u32;
    if 48 <= n && n <= 57 {
        Some((n - 48) as u8)
    } else if 97 <= n && n <= 102 {
        Some((n - 87) as u8)
    } else if 65 <= n && n <= 70 {
        Some((n - 55) as u8)
    } else {
        None
    }
}

/// Sixteen to the power `n`, for small `n`.
fn pow16(n: u32) -> (r: u32)
    requires
        n <= 7,
    ensures
        r as int == spec_pow16(n as int),
        r <= 0x10000000,
{
    proof {
        assert(spec_pow16(0) == 1);
        assert(spec_pow16(1) == 16);
        assert(spec_pow16(2) == 256);
        assert(spec_pow16(3) == 4096);
        assert(spec_pow16(4) == 65536);
        assert(spec_pow16(5) == 1048576);
        assert(spec_pow16(6) == 16777216);
        assert(spec_pow16(7) == 268435456);
    }
    match n {
        0 => 1,
        1 => 16,
        2 => 256,
        3 => 4096,
        4 => 65536,
        5 => 1048576,
        6 => 16777216,
        _ => 268435456,
    }
}

/// The code point read from `count` hexadecimal digits at `pos`.
fn hex_run(s: &Vec<char>, pos: usize, count: u32) -> (r: Option<u32>)
    requires
        pos <= s@.len(),
        count <= 8,
    ensures
        spec_hex_run(s@, pos as int, count as int) >= 0 ==> (r matches Some(v) && v as int
            == spec_hex_run(s@, pos as int, count as int)),
        spec_hex_run(s@, pos as int, count as int) < 0 ==> r is None,
        spec_hex_run(s@, pos as int, count as int) < spec_pow16(count as int),
        spec_hex_run(s@, pos as int, count as int) >= 0 ==> pos + count <= s@.len(),
    decreases count,
{
    proof {
        lemma_pow16_pos(count as int);
    }
    if count == 0 {
        Some(0)
    } else if pos >= s.len() {
        None
    } else {
        match hex_val(s[pos]) {
            None => None,
            Some(d) => {
                match hex_run(s, pos + 1, count - 1) {
                    None => None,
                    Some(rest) => {
                        let pw = pow16(count - 1);
                        proof {
                            assert((d as int) * (pw as int) <= 15 * (pw as int))
                                by (nonlinear_arith)
                                requires
                                    d <= 15,
                                    pw >= 0,
                            ;
                            assert(15 * (pw as int) + (pw as int) - 1 < 16 * (pw as int));
                            assert(16 * spec_pow16(count - 1) == spec_pow16(count as int));
                            assert(spec_hex_run(s@, pos as int, count as int) == spec_hex_val(
                                s@[pos as int],
                            ) * spec_pow16(count - 1) + spec_hex_run(s@, pos + 1, count - 1));
                            assert(spec_hex_val(s@[pos as int]) == d as int);
                            assert(spec_hex_run(s@, pos + 1, count - 1) == rest as int);
                            assert(spec_hex_run(s@, pos as int, count as int) < spec_pow16(
                                count as int,
                            ));
                        }
                        Some((d as u32) * pw + rest)
                    },
                }
            },
        }
    }
}

/// The character with the valid scalar code point `n`.
fn char_of(n: u32) -> (r: char)
    requires
        spec_valid_scalar(n as int),
    ensures
        r == spec_char_of(n as int),
{
    match char::from_u32(n) {
        Some(c) => {
            proof {
                assert((c as u32) == n);
                vstd::utf8::char_u32_cast(c, n);
                assert((n as char) == c);
                assert(spec_char_of(n as int) == c);
            }
            c
        },
        None => {
            proof {
                assert(false);
            }
            ' '
        },
    }
}

/// Sixteen to any power is positive.
proof fn lemma_pow16_pos(n: int)
    ensures
        spec_pow16(n) >= 1,
    decreases n,
{
    if n > 0 {
        lemma_pow16_pos(n - 1);
    }
}

/// Every character covered by the variable-character scan is a variable
/// character.
proof fn lemma_var_end_chars(s: Seq<char>, pos: int)
    requires
        0 <= pos <= s.len(),
    ensures
        pos <= spec_var_end(s, pos) <= s.len(),
        forall|i: int| pos <= i < spec_var_end(s, pos) ==> spec_is_var_char(#[trigger] s[i]),
    decreases s.len() - pos,
{
    if pos < s.len() && spec_is_var_char(s[pos]) {
        lemma_var_end_chars(s, pos + 1);
    }
}

/// Scans one escape, starting just after the backslash.
fn scan_escape(s: &Vec<char>, pos: usize) -> (r: Option<(char, usize)>)
    requires
        pos <= s@.len(),
    ensures
        match spec_scan_escape(s@, pos as int) {
            Some(t) => r matches Some(x) && x.0 == t.0 && x.1 as int == t.1,
            None => r is None,
        },
        r matches Some(x) ==> pos < x.1 <= s@.len(),
{
    if pos >= s.len() {
        None
    } else if s[pos] == 'n' {
        Some(('\n', pos + 1))
    } else if s[pos] == 'r' {
        Some(('\r', pos + 1))
    } else if s[pos] == 't' {
        Some(('\t', pos + 1))
    } else if s[pos] == '\\' {
        Some(('\\', pos + 1))
    } else if s[pos] == '"' {
        Some(('"', pos + 1))
    } else if s[pos] == '\'' {
        Some(('\'', pos + 1))
    } else if s[pos] == 'x' {
        match hex_run(s, pos + 1, 2) {
            Some(n) => {
                if n < 0xD800 || (0xE000 <= n && n <= 0x10FFFF) {
                    Some((char_of(n), pos + 3))
                } else {
                    None
                }
            },
            None => None,
        }
    } else if s[pos] == 'u' {
        match hex_run(s, pos + 1, 4) {
            Some(n) => {
                if n < 0xD800 || (0xE000 <= n && n <= 0x10FFFF) {
                    Some((char_of(n), pos + 5))
                } else {
                    None
                }
            },
            None => None,
        }
    } else if s[pos] == 'U' {
        match hex_run(s, pos + 1, 8) {
            Some(n) => {
                if n < 0xD800 || (0xE000 <= n && n <= 0x10FFFF) {
                    Some((char_of(n), pos + 9))
                } else {
                    None
                }
            },
            None => None,
        }
    } else {
        None
    }
}

/// Scans the rest of a quoted string, returning the unescaped contents.
fn scan_string_body(s: &Vec<char>, pos: usize) -> (r: Option<(Vec<char>, usize)>)
    requires
        pos <= s@.len(),
    ensures
        match spec_scan_string_body(s@, pos as int) {
            Some(t) => r matches Some(x) && x.0@ == t.0 && x.1 as int == t.1,
            None => r is None,
        },
        r matches Some(x) ==> pos < x.1 <= s@.len(),
    decreases s@.len() - pos,
{
    if pos >= s.len() {
        None
    } else if s[pos] == '"' {
        let v: Vec<char> = Vec::new();
        proof {
            assert(v@ =~= Seq::<char>::empty());
        }
        Some((v, pos + 1))
    } else if s[pos] == '\\' {
        match scan_escape(s, pos + 1) {
            Some((c, p2)) => {
                if pos + 1 < p2 && p2 <= s.len() {
                    match scan_string_body(s, p2) {
                        Some((mut rest, p3)) => {
                            let ghost restv = rest@;
                            rest.insert(0, c);
                            proof {
                                assert(rest@ =~= seq![c] + restv);
                            }
                            Some((rest, p3))
                        },
                        None => None,
                    }
                } else {
                    None
                }
            },
            None => None,
        }
    } else {
        let c = s[pos];
        match scan_string_body(s, pos + 1) {
            Some((mut rest, p3)) => {
                let ghost restv = rest@;
                rest.insert(0, c);
                proof {
                    assert(rest@ =~= seq![c] + restv);
                }
                Some((rest, p3))
            },
            None => None,
        }
    }
}

/// Scans a quoted string starting at `pos`: its unescaped contents and the
/// position after the closing quote.
pub fn scan_string(s: &Vec<char>, pos: usize) -> (r: Option<(String, usize)>)
    requires
        pos <= s@.len(),
    ensures
        match spec_scan_string(s@, pos as int) {
            Some(t) => r matches Some(x) && x.0@ == t.0 && x.1 as int == t.1,
            None => r is None,
        },
        r matches Some(x) ==> pos < x.1 <= s@.len(),
{
    if pos < s.len() && s[pos] == '"' {
        match scan_string_body(s, pos + 1) {
            Some((content, p)) => Some((string_of(&content), p)),
            None => None,
        }
    } else {
        None
    }
}

/// Parses a name: a bare identifier or a quoted string holding valid name
/// text.
fn parse_name(s: &Vec<char>, pos: usize) -> (r: Option<(Name, usize)>)
    requires
        pos <= s@.len(),
    ensures
        match spec_parse_name(s@, pos as int) {
            Some(t) => r matches Some(x) && x.0@ == t.0 && x.1 as int == t.1,
            None => r is None,
        },
        r matches Some(x) ==> pos < x.1 <= s@.len(),
{
    if pos < s.len() && s[pos] == '"' {
        match scan_string(s, pos) {
            Some((text, p)) => {
                if Name::is_valid(text.as_str()) {
                    let sym = Symbol::from_text(text);
                    Some((Name::from_symbol(sym), p))
                } else {
                    None
                }
            },
            None => None,
        }
    } else if pos < s.len() && is_var_start_char(s[pos]) {
        None
    } else {
        match scan_ident(s, pos) {
            Some((text, end)) => {
                proof {
                    assert(text@[0] == s@[pos as int]);
                    assert(crate::symbol::spec_symbol_valid(text@));
                }
                let sym = Symbol::from_text(text);
                Some((Name::from_symbol(sym), end))
            },
            None => None,
        }
    }
}

/// Parses a term: a variable or a name.
fn parse_term(s: &Vec<char>, pos: usize) -> (r: Option<(Term, usize)>)
    requires
        pos <= s@.len(),
    ensures
        match spec_parse_term(s@, pos as int) {
            Some(t) => r matches Some(x) && x.0.deep_view() == t.0 && x.1 as int == t.1,
            None => r is None,
        },
        r matches Some(x) ==> pos < x.1 <= s@.len(),
{
    if pos < s.len() && is_var_start_char(s[pos]) {
        match scan_variable(s, pos) {
            Some((text, p)) => {
                proof {
                    lemma_var_end_chars(s@, pos + 1);
                    assert(text@[0] == s@[pos as int]);
                    assert forall|i: int| 1 <= i < text@.len() implies spec_is_var_char(
                        #[trigger] text@[i],
                    ) by {
                        assert(text@[i] == s@[pos + i]);
                    }
                    assert(spec_variable_valid(text@));
                }
                Some((Term::Var(Variable::from_text(text)), p))
            },
            None => None,
        }
    } else {
        match parse_name(s, pos) {
            Some((nm, p)) => Some((Term::Name(nm), p)),
            None => None,
        }
    }
}

/// Parses a comma-separated term list.
fn parse_terms(s: &Vec<char>, pos: usize) -> (r: Option<(Vec<Term>, usize)>)
    requires
        pos <= s@.len(),
    ensures
        match spec_parse_terms(s@, pos as int) {
            Some(t) => r matches Some(x) && x.0.deep_view() == t.0 && x.1 as int == t.1,
            None => r is None,
        },
        r matches Some(x) ==> pos < x.1 <= s@.len(),
    decreases s@.len() - pos,
{
    match parse_term(s, pos) {
        Some((t, p1)) => {
            let p2 = skip_ws(s, p1);
            if p2 < s.len() && s[p2] == ',' {
                let p3 = skip_ws(s, p2 + 1);
                if pos < p3 && p3 <= s.len() {
                    match parse_terms(s, p3) {
                        Some((mut rest, p4)) => {
                            let ghost tv = t.deep_view();
                            let ghost restv = rest.deep_view();
                            rest.insert(0, t);
                            proof {
                                assert(rest.deep_view() =~= seq![tv] + restv);
                            }
                            Some((rest, p4))
                        },
                        None => None,
                    }
                } else {
                    None
                }
            } else {
                let ghost tv = t.deep_view();
                let mut v: Vec<Term> = Vec::new();
                v.push(t);
                proof {
                    assert(v.deep_view() =~= seq![tv]);
                }
                Some((v, p1))
            }
        },
        None => None,
    }
}

/// Parses a literal: a name with an optional parenthesised argument list.
pub fn parse_literal(s: &Vec<char>, pos: usize) -> (r: Option<(Literal, usize)>)
    requires
        pos <= s@.len(),
    ensures
        match spec_parse_literal(s@, pos as int) {
            Some(t) => r matches Some(x) && x.0.deep_view() == t.0 && x.1 as int == t.1,
            None => r is None,
        },
        r matches Some(x) ==> pos < x.1 <= s@.len(),
{
    match parse_name(s, pos) {
        Some((nm, p1)) => {
            if p1 < s.len() && s[p1] == '(' {
                let p2 = skip_ws(s, p1 + 1);
                if p2 < s.len() && s[p2] == ')' {
                    let lit = Literal(nm, Vec::new());
                    proof {
                        assert(lit.deep_view() =~~= spec_parse_literal(
                            s@,
                            pos as int,
                        ).unwrap().0);
                    }
                    Some((lit, p2 + 1))
                } else {
                    match parse_terms(s, p2) {
                        Some((args, p3)) => {
                            let p4 = skip_ws(s, p3);
                            if p4 < s.len() && s[p4] == ')' {
                                Some((Literal(nm, args), p4 + 1))
                            } else {
                                None
                            }
                        },
                        None => None,
                    }
                }
            } else {
                let lit = Literal(nm, Vec::new());
                proof {
                    assert(lit.deep_view() =~~= spec_parse_literal(s@, pos as int).unwrap().0);
                }
                Some((lit, p1))
            }
        },
        None => None,
    }
}

/// Parses a comma-separated literal list: a clause body.
fn parse_literals(s: &Vec<char>, pos: usize) -> (r: Option<(Vec<Literal>, usize)>)
    requires
        pos <= s@.len(),
    ensures
        match spec_parse_literals(s@, pos as int) {
            Some(t) => r matches Some(x) && x.0.deep_view() == t.0 && x.1 as int == t.1,
            None => r is None,
        },
        r matches Some(x) ==> pos < x.1 <= s@.len(),
    decreases s@.len() - pos,
{
    match parse_literal(s, pos) {
        Some((l, p1)) => {
            let p2 = skip_ws(s, p1);
            if p2 < s.len() && s[p2] == ',' {
                let p3 = skip_ws(s, p2 + 1);
                if pos < p3 && p3 <= s.len() {
                    match parse_literals(s, p3) {
                        Some((mut rest, p4)) => {
                            let ghost lv = l.deep_view();
                            let ghost restv = rest.deep_view();
                            rest.insert(0, l);
                            proof {
                                assert(rest.deep_view() =~= seq![lv] + restv);
                            }
                            Some((rest, p4))
                        },
                        None => None,
                    }
                } else {
                    None
                }
            } else {
                let ghost lv = l.deep_view();
                let mut v: Vec<Literal> = Vec::new();
                v.push(l);
                proof {
                    assert(v.deep_view() =~= seq![lv]);
                }
                Some((v, p1))
            }
        },
        None => None,
    }
}

/// Parses a clause: a head literal with an optional `:-` body.
pub fn parse_clause(s: &Vec<char>, pos: usize) -> (r: Option<(Clause, usize)>)
    requires
        pos <= s@.len(),
    ensures
        match spec_parse_clause(s@, pos as int) {
            Some(t) => r matches Some(x) && x.0.deep_view() == t.0 && x.1 as int == t.1,
            None => r is None,
        },
        r matches Some(x) ==> pos < x.1 <= s@.len(),
{
    match parse_literal(s, pos) {
        Some((head, p1)) => {
            let p2 = skip_ws(s, p1);
            if p2 < s.len() && p2 + 1 < s.len() && s[p2] == ':' && s[p2 + 1] == '-' {
                let p3 = skip_ws(s, p2 + 2);
                match parse_literals(s, p3) {
                    Some((body, p4)) => {
                        let c = Clause(head, body);
                        proof {
                            assert(c.deep_view() =~~= spec_parse_clause(
                                s@,
                                pos as int,
                            ).unwrap().0);
                        }
                        Some((c, p4))
                    },
                    None => None,
                }
            } else {
                let c = Clause(head, Vec::new());
                proof {
                    assert(c.deep_view() =~~= spec_parse_clause(s@, pos as int).unwrap().0);
                }
                Some((c, p1))
            }
        },
        None => None,
    }
}

/// Parses one statement starting at `pos`.
fn parse_stmt_at(s: &Vec<char>, pos: usize) -> (r: Option<(Statement, usize)>)
    requires
        pos <= s@.len(),
    ensures
        match spec_parse_stmt_at(s@, pos as int) {
            Some(t) => r matches Some(x) && x.0.deep_view() == t.0 && x.1 as int == t.1,
            None => r is None,
        },
        r matches Some(x) ==> pos < x.1 <= s@.len(),
{
    match parse_clause(s, pos) {
        Some((c, p1)) => {
            let p2 = skip_ws(s, p1);
            if p2 >= s.len() {
                None
            } else if s[p2] == '.' {
                Some((Statement::Assertion(c), p2 + 1))
            } else if s[p2] == '~' {
                Some((Statement::Retraction(c), p2 + 1))
            } else if s[p2] == '?' && c.1.len() == 0 {
                let Clause(head, _) = c;
                Some((Statement::Query(head), p2 + 1))
            } else {
                None
            }
        },
        None => None,
    }
}

/// Parses the statements from `pos` to the end of the text.
fn parse_program_at(s: &Vec<char>, pos: usize) -> (r: Option<Vec<Statement>>)
    requires
        pos <= s@.len(),
    ensures
        match spec_parse_program_at(s@, pos as int) {
            Some(t) => r matches Some(x) && x.deep_view() == t,
            None => r is None,
        },
    decreases s@.len() - pos,
{
    let p0 = skip_ws(s, pos);
    if p0 >= s.len() {
        let v: Vec<Statement> = Vec::new();
        proof {
            assert(v.deep_view() =~= Seq::<StatementV>::empty());
        }
        Some(v)
    } else {
        match parse_stmt_at(s, p0) {
            Some((st, p1)) => {
                if pos < p1 && p1 <= s.len() {
                    match parse_program_at(s, p1) {
                        Some(mut rest) => {
                            let ghost stv = st.deep_view();
                            let ghost restv = rest.deep_view();
                            rest.insert(0, st);
                            proof {
                                assert(rest.deep_view() =~= seq![stv] + restv);
                            }
                            Some(rest)
                        },
                        None => None,
                    }
                } else {
                    None
                }
            },
            None => None,
        }
    }
}

/// Parses a program from the given string: it succeeds, with the program's
/// statements in order, exactly when the whole text is a well-formed
/// program.
pub fn parse_program_string(src: &str) -> (r: Result<Program, Error>)
    ensures
        match spec_parse_program(src@) {
            Some(t) => r matches Ok(p) && p.deep_view() == t,
            None => r matches Err(e) && e is Parse,
        },
{
    let chars = chars_of(src);
    match parse_program_at(&chars, 0) {
        Some(stmts) => Ok(Program(stmts)),
        None => Err(Error::Parse("the text is not a well-formed program".to_owned())),
    }
}

/// Parses a single statement from the given string: it succeeds exactly
/// when the whole text is one well-formed statement.
pub fn parse_stmt(src: &str) -> (r: Result<Statement, Error>)
    ensures
        match spec_parse_stmt(src@) {
            Some(t) => r matches Ok(st) && st.deep_view() == t,
            None => r matches Err(e) && e is Parse,
        },
{
    let chars = chars_of(src);
    let p0 = skip_ws(&chars, 0);
    match parse_stmt_at(&chars, p0) {
        Some((st, p1)) => {
            let p2 = skip_ws(&chars, p1);
            if p2 >= chars.len() {
                Ok(st)
            } else {
                Err(Error::Parse("the statement is followed by more text".to_owned()))
            }
        },
        None => Err(Error::Parse("the text is not a well-formed statement".to_owned())),
    }
}

} // verus!
