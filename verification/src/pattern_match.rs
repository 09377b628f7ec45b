//! The two-sided pattern matcher: aligns two argument lists from two
//! independently scoped literals, producing one substitution per side.

use vstd::prelude::*;

use crate::ast::Term;
use crate::ast::TermV;
use crate::bindings::Bindings;
use crate::bindings::spec_lookup;
use crate::name::Name;
use crate::variable::Variable;

verus! {

/// Every occurrence of the variable `v` in `ts` rewritten to the name `n`.
pub open spec fn spec_subst_terms(ts: Seq<TermV>, v: Seq<char>, n: Seq<char>) -> Seq<TermV> {
    ts.map_values(|t: TermV| if t == TermV::Var(v) { TermV::Name(n) } else { t })
}

/// The two-sided alignment of `l` against `r`, position by position from
/// `i`, with the side substitutions accumulated so far. Equal constants
/// pass; a variable facing a constant binds to it in its own side's
/// substitution, and every later occurrence of that variable on its side is
/// rewritten at once; a variable facing a variable records nothing, because
/// the two sides' scopes are disjoint; any other combination fails the
/// whole match.
pub open spec fn spec_match_from(
    l: Seq<TermV>,
    r: Seq<TermV>,
    i: int,
    lb: Seq<(Seq<char>, Seq<char>)>,
    rb: Seq<(Seq<char>, Seq<char>)>,
) -> Option<(Seq<(Seq<char>, Seq<char>)>, Seq<(Seq<char>, Seq<char>)>, Seq<TermV>, Seq<TermV>)>
    recommends
        l.len() == r.len(),
    decreases l.len() - i,
{
    if i < 0 || i >= l.len() {
        Some((lb, rb, l, r))
    } else {
        match (l[i], r[i]) {
            (TermV::Name(a), TermV::Name(b)) => if a == b {
                spec_match_from(l, r, i + 1, lb, rb)
            } else {
                None
            },
            (TermV::Var(x), TermV::Name(b)) => if spec_lookup(lb, x) is Some {
                None
            } else {
                spec_match_from(spec_subst_terms(l, x, b), r, i + 1, lb.push((x, b)), rb)
            },
            (TermV::Name(a), TermV::Var(y)) => if spec_lookup(rb, y) is Some {
                None
            } else {
                spec_match_from(l, spec_subst_terms(r, y, a), i + 1, lb, rb.push((y, a)))
            },
            (TermV::Var(_), TermV::Var(_)) => spec_match_from(l, r, i + 1, lb, rb),
        }
    }
}

/// The two-sided alignment of `l` against `r`.
pub open spec fn spec_pattern_match(l: Seq<TermV>, r: Seq<TermV>) -> Option<
    (Seq<(Seq<char>, Seq<char>)>, Seq<(Seq<char>, Seq<char>)>, Seq<TermV>, Seq<TermV>),
>
    recommends
        l.len() == r.len(),
{
    spec_match_from(l, r, 0, Seq::empty(), Seq::empty())
}

/// Rewrites, in place, every occurrence of `var` in `terms` to `name`.
pub fn apply_binding(terms: &mut Vec<Term>, var: &Variable, name: &Name)
    ensures
        final(terms).deep_view() == spec_subst_terms(old(terms).deep_view(), var@, name@),
{
    let mut i: usize = 0;
    while i < terms.len()
        invariant
            terms@.len() == old(terms)@.len(),
            i <= terms@.len(),
            forall|j: int| 0 <= j < i ==> (#[trigger] terms@[j]).deep_view() == (
            if old(terms)@[j].deep_view() == TermV::Var(var@) {
                TermV::Name(name@)
            } else {
                old(terms)@[j].deep_view()
            }),
            forall|j: int| i <= j < terms@.len() ==> (#[trigger] terms@[j]).deep_view() == old(
                terms,
            )@[j].deep_view(),
        decreases terms@.len() - i,
    {
        let is_var_match = match &terms[i] {
            Term::Var(v) => v == var,
            Term::Name(_) => false,
        };
        if is_var_match {
            terms[i] = Term::Name(name.clone());
        }
        i = i + 1;
    }
    proof {
        assert(terms.deep_view() =~= spec_subst_terms(old(terms).deep_view(), var@, name@));
    }
}

/// Aligns `l` against `r`, which must have the same length, and returns the
/// two substitutions on success, with both lists rewritten in place. On
/// failure both lists are left exactly as they were.
pub fn pattern_match(l: &mut Vec<Term>, r: &mut Vec<Term>) -> (res: Option<(Bindings, Bindings)>)
    requires
        old(l)@.len() == old(r)@.len(),
    ensures
        match spec_pattern_match(old(l).deep_view(), old(r).deep_view()) {
            Some(t) => res matches Some(p) && p.0@ == t.0 && p.1@ == t.1 && p.0.wf() && p.1.wf()
                && final(l).deep_view() == t.2 && final(r).deep_view() == t.3,
            None => res is None && *final(l) == *old(l) && *final(r) == *old(r),
        },
{
    let mut wl = clone_terms(l);
    let mut wr = clone_terms(r);
    let mut lb = Bindings::new();
    let mut rb = Bindings::new();
    let mut i: usize = 0;
    while i < wl.len()
        invariant
            *l == *old(l),
            *r == *old(r),
            wl@.len() == old(l)@.len(),
            wr@.len() == old(r)@.len(),
            old(l)@.len() == old(r)@.len(),
            i <= wl@.len(),
            lb.wf(),
            rb.wf(),
            spec_pattern_match(old(l).deep_view(), old(r).deep_view()) == spec_match_from(
                wl.deep_view(),
                wr.deep_view(),
                i as int,
                lb@,
                rb@,
            ),
        decreases wl@.len() - i,
    {
        let lt = wl[i].clone();
        let rt = wr[i].clone();
        match (lt, rt) {
            (Term::Name(ln), Term::Name(rn)) => {
                if !(ln == rn) {
                    return None;
                }
            },
            (Term::Var(lv), Term::Name(rn)) => {
                if lb.contains_key(&lv) {
                    return None;
                }
                lb.insert_unbound(&lv, &rn);
                apply_binding(&mut wl, &lv, &rn);
            },
            (Term::Name(ln), Term::Var(rv)) => {
                if rb.contains_key(&rv) {
                    return None;
                }
                rb.insert_unbound(&rv, &ln);
                apply_binding(&mut wr, &rv, &ln);
            },
            (Term::Var(_), Term::Var(_)) => {},
        }
        i = i + 1;
    }
    *l = wl;
    *r = wr;
    Some((lb, rb))
}

/// A copy of a term list.
pub fn clone_terms(v: &Vec<Term>) -> (r: Vec<Term>)
    ensures
        r.deep_view() == v.deep_view(),
        r@.len() == v@.len(),
{
    let mut r: Vec<Term> = Vec::new();
    let mut i: usize = 0;
    while i < v.len()
        invariant
            i <= v@.len(),
            r@.len() == i,
            forall|j: int| 0 <= j < i ==> (#[trigger] r@[j]).deep_view() == v@[j].deep_view(),
        decreases v@.len() - i,
    {
        r.push(v[i].clone());
        i = i + 1;
    }
    proof {
        assert(r.deep_view() =~= v.deep_view());
    }
    r
}

} // verus!
