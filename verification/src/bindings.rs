//! Substitutions: conflict-free, insertion-ordered mappings from variables
//! to names.

use vstd::prelude::*;

use crate::name::Name;
use crate::variable::Variable;

verus! {

/// The value bound to `key` in the binding list `items`, scanning from
/// position `i` onward and taking the first entry whose key matches.
pub open spec fn spec_lookup_from(
    items: Seq<(Seq<char>, Seq<char>)>,
    key: Seq<char>,
    i: int,
) -> Option<Seq<char>>
    decreases items.len() - i,
{
    if i < 0 || i >= items.len() {
        None
    } else if items[i].0 == key {
        Some(items[i].1)
    } else {
        spec_lookup_from(items, key, i + 1)
    }
}

/// The value bound to `key` in the binding list `items`.
pub open spec fn spec_lookup(items: Seq<(Seq<char>, Seq<char>)>, key: Seq<char>) -> Option<
    Seq<char>,
> {
    spec_lookup_from(items, key, 0)
}

/// No key occurs twice in the binding list.
pub open spec fn spec_unique_keys(items: Seq<(Seq<char>, Seq<char>)>) -> bool {
    forall|i: int, j: int| 0 <= i < j < items.len() ==> (#[trigger] items[i]).0 != (
    #[trigger] items[j]).0
}

/// The binding list after binding `key` to `value`: unchanged when the same
/// binding is already present, extended when the key is absent, and no list
/// at all when the key is bound to a different value.
pub open spec fn spec_bind(
    items: Seq<(Seq<char>, Seq<char>)>,
    key: Seq<char>,
    value: Seq<char>,
) -> Option<Seq<(Seq<char>, Seq<char>)>> {
    match spec_lookup(items, key) {
        Some(bound) => if bound == value {
            Some(items)
        } else {
            None
        },
        None => Some(items.push((key, value))),
    }
}

/// `b` merged into `a`, binding `b`'s entries in order from position `i`
/// onward; no list at all if some entry conflicts with `a`.
pub open spec fn spec_merge_from(
    a: Seq<(Seq<char>, Seq<char>)>,
    b: Seq<(Seq<char>, Seq<char>)>,
    i: int,
) -> Option<Seq<(Seq<char>, Seq<char>)>>
    decreases b.len() - i,
{
    if i < 0 || i >= b.len() {
        Some(a)
    } else {
        match spec_bind(a, b[i].0, b[i].1) {
            Some(a2) => spec_merge_from(a2, b, i + 1),
            None => None,
        }
    }
}

/// The entries of `items` from position `i` onward whose key occurs in
/// `keys`, in order.
pub open spec fn spec_restrict_from(
    items: Seq<(Seq<char>, Seq<char>)>,
    keys: Seq<Seq<char>>,
    i: int,
) -> Seq<(Seq<char>, Seq<char>)>
    decreases items.len() - i,
{
    if i < 0 || i >= items.len() {
        Seq::empty()
    } else if keys.contains(items[i].0) {
        seq![items[i]] + spec_restrict_from(items, keys, i + 1)
    } else {
        spec_restrict_from(items, keys, i + 1)
    }
}

/// The error reported when a variable would be bound to two different
/// constants at once.
#[derive(Debug, PartialEq, Eq)]
pub struct Conflict;

/// A binding environment: a finite mapping from variables to names, keyed
/// uniquely, kept in insertion order.
#[derive(Debug)]
pub struct Bindings {
    items: Vec<(Variable, Name)>,
}

impl View for Bindings {
    type V = Seq<(Seq<char>, Seq<char>)>;

    closed spec fn view(&self) -> Seq<(Seq<char>, Seq<char>)> {
        self.items.deep_view()
    }
}

impl DeepView for Bindings {
    type V = Seq<(Seq<char>, Seq<char>)>;

    open spec fn deep_view(&self) -> Seq<(Seq<char>, Seq<char>)> {
        self@
    }
}

impl Clone for Bindings {
    fn clone(&self) -> (r: Self)
        ensures
            r@ == self@,
            r.wf() == self.wf(),
    {
        let mut items: Vec<(Variable, Name)> = Vec::new();
        let mut i: usize = 0;
        while i < self.items.len()
            invariant
                i <= self.items@.len(),
                items@.len() == i,
                forall|j: int| 0 <= j < i ==> (#[trigger] items@[j]).deep_view()
                    == self.items@[j].deep_view(),
            decreases self.items@.len() - i,
        {
            let (v, n) = (&self.items[i].0, &self.items[i].1);
            items.push((v.clone(), n.clone()));
            i = i + 1;
        }
        proof {
            assert(items.deep_view() =~= self.items.deep_view());
        }
        Bindings { items }
    }
}

impl Bindings {
    /// The keys of the bindings are unique.
    pub open spec fn wf(&self) -> bool {
        spec_unique_keys(self@)
    }

    /// Creates an empty binding environment.
    pub fn new() -> (r: Bindings)
        ensures
            r@ == Seq::<(Seq<char>, Seq<char>)>::empty(),
            r.wf(),
    {
        let r = Bindings { items: Vec::new() };
        proof {
            assert(r@ =~= Seq::<(Seq<char>, Seq<char>)>::empty());
        }
        r
    }

    /// The number of bound variables.
    pub fn len(&self) -> (r: usize)
        ensures
            r == self@.len(),
    {
        self.items.len()
    }

    /// The entry at position `i`, for iteration in insertion order.
    pub fn entry(&self, i: usize) -> (r: (&Variable, &Name))
        requires
            i < self@.len(),
        ensures
            r.0@ == self@[i as int].0,
            r.1@ == self@[i as int].1,
    {
        (&self.items[i].0, &self.items[i].1)
    }

    /// The name bound to `var`, if any.
    pub fn get(&self, var: &Variable) -> (r: Option<&Name>)
        ensures
            match spec_lookup(self@, var@) {
                Some(c) => r matches Some(n) && n@ == c,
                None => r is None,
            },
    {
        let mut i: usize = 0;
        while i < self.items.len()
            invariant
                i <= self.items@.len(),
                spec_lookup(self@, var@) == spec_lookup_from(self@, var@, i as int),
            decreases self.items@.len() - i,
        {
            if self.items[i].0 == *var {
                return Some(&self.items[i].1);
            }
            i = i + 1;
        }
        None
    }

    /// Whether `var` is bound.
    pub fn contains_key(&self, var: &Variable) -> (r: bool)
        ensures
            r == (spec_lookup(self@, var@) is Some),
    {
        self.get(var).is_some()
    }

    /// Binds `var` to `name`. Fails, leaving the environment unchanged, iff
    /// `var` is already bound to a different name.
    pub fn bind(&mut self, var: &Variable, name: &Name) -> (r: Result<(), Conflict>)
        ensures
            match spec_bind(old(self)@, var@, name@) {
                Some(its) => r matches Ok(()) && final(self)@ == its,
                None => r matches Err(_) && final(self)@ == old(self)@,
            },
            old(self).wf() ==> final(self).wf(),
    {
        match self.get(var) {
            Some(bound) => {
                if *bound == *name {
                    Ok(())
                } else {
                    Err(Conflict)
                }
            },
            None => {
                self.items.push((var.clone(), name.clone()));
                proof {
                    assert(self@ =~= old(self)@.push((var@, name@)));
                    if old(self).wf() {
                        assert forall|i: int, j: int| 0 <= i < j < self@.len() implies (
                        #[trigger] self@[i]).0 != (#[trigger] self@[j]).0 by {
                            if j == self@.len() - 1 {
                                lemma_lookup_none_at(old(self)@, var@, i);
                            }
                        }
                    }
                }
                Ok(())
            },
        }
    }

    /// Appends a binding for a variable that is not yet bound.
    pub(crate) fn insert_unbound(&mut self, var: &Variable, name: &Name)
        requires
            spec_lookup(old(self)@, var@) is None,
        ensures
            final(self)@ == old(self)@.push((var@, name@)),
            old(self).wf() ==> final(self).wf(),
    {
        self.items.push((var.clone(), name.clone()));
        proof {
            assert(self@ =~= old(self)@.push((var@, name@)));
            if old(self).wf() {
                assert forall|i: int, j: int| 0 <= i < j < self@.len() implies (
                #[trigger] self@[i]).0 != (#[trigger] self@[j]).0 by {
                    if j == self@.len() - 1 {
                        lemma_lookup_none_at(old(self)@, var@, i);
                    }
                }
            }
        }
    }

    /// Merges `other` into a copy of `self`, binding `other`'s entries in
    /// order; fails iff some entry conflicts.
    pub fn merged(&self, other: &Bindings) -> (r: Option<Bindings>)
        ensures
            match spec_merge_from(self@, other@, 0) {
                Some(its) => r matches Some(b) && b@ == its && (self.wf() ==> b.wf()),
                None => r is None,
            },
    {
        let mut acc = self.clone();
        let mut i: usize = 0;
        while i < other.items.len()
            invariant
                i <= other@.len(),
                spec_merge_from(self@, other@, 0) == spec_merge_from(acc@, other@, i as int),
                self.wf() ==> acc.wf(),
            decreases other@.len() - i,
        {
            let (v, n) = other.entry(i);
            match acc.bind(v, n) {
                Ok(()) => {},
                Err(_) => {
                    return None;
                },
            }
            i = i + 1;
        }
        Some(acc)
    }

    /// Rewrites, in place, every term that is a bound variable to the name
    /// it is bound to; other terms are left untouched.
    pub fn apply(&self, terms: &mut Vec<crate::ast::Term>)
        ensures
            final(terms).deep_view() == spec_apply(self@, old(terms).deep_view()),
    {
        let mut i: usize = 0;
        while i < terms.len()
            invariant
                terms@.len() == old(terms)@.len(),
                i <= terms@.len(),
                forall|j: int| 0 <= j < i ==> (#[trigger] terms@[j]).deep_view()
                    == spec_apply_term(self@, old(terms)@[j].deep_view()),
                forall|j: int| i <= j < terms@.len() ==> (#[trigger] terms@[j]).deep_view()
                    == old(terms)@[j].deep_view(),
            decreases terms@.len() - i,
        {
            let replacement: Option<Name> = match &terms[i] {
                crate::ast::Term::Name(_) => None,
                crate::ast::Term::Var(v) => {
                    match self.get(v) {
                        Some(n) => Some(n.clone()),
                        None => None,
                    }
                },
            };
            if let Some(n) = replacement {
                terms[i] = crate::ast::Term::Name(n);
            }
            i = i + 1;
        }
        proof {
            assert(terms.deep_view() =~= spec_apply(self@, old(terms).deep_view()));
        }
    }

    /// A copy of the bindings reduced to the variables in `vars`, in the
    /// original entry order.
    pub fn restrict_to(&self, vars: &Vec<Variable>) -> (r: Bindings)
        ensures
            r@ == spec_restrict_from(self@, vars.deep_view(), 0),
            self.wf() ==> r.wf(),
    {
        let mut items: Vec<(Variable, Name)> = Vec::new();
        let mut i: usize = 0;
        proof {
            assert(items.deep_view() + spec_restrict_from(self@, vars.deep_view(), 0)
                =~= spec_restrict_from(self@, vars.deep_view(), 0));
        }
        while i < self.items.len()
            invariant
                i <= self@.len(),
                items.deep_view() + spec_restrict_from(self@, vars.deep_view(), i as int)
                    == spec_restrict_from(self@, vars.deep_view(), 0),
                forall|k: int| 0 <= k < items.deep_view().len() ==> exists|p: int|
                    0 <= p < i && (#[trigger] items.deep_view()[k]).0 == (#[trigger] self@[p]).0,
                self.wf() ==> spec_unique_keys(items.deep_view()),
            decreases self@.len() - i,
    {
            let (v, n) = self.entry(i);
            if contains_variable(vars, v) {
                let ghost prev = items.deep_view();
                items.push((v.clone(), n.clone()));
                proof {
                    assert(items.deep_view() =~= prev + seq![(self@[i as int].0, self@[i as int].1)]);
                    assert forall|k: int| 0 <= k < items.deep_view().len() implies exists|p: int|
                        0 <= p < i + 1 && (#[trigger] items.deep_view()[k]).0 == (
                    #[trigger] self@[p]).0 by {
                        if k < prev.len() {
                            let p = choose|p: int|
                                0 <= p < i && (#[trigger] prev[k]).0 == (#[trigger] self@[p]).0;
                            assert(0 <= p < i + 1 && items.deep_view()[k].0 == self@[p].0);
                        } else {
                            assert(0 <= i < i + 1 && items.deep_view()[k].0 == self@[i as int].0);
                        }
                    }
                    if self.wf() {
                        assert forall|a: int, b: int|
                            0 <= a < b < items.deep_view().len() implies (
                        #[trigger] items.deep_view()[a]).0 != (#[trigger] items.deep_view()[b]).0 by {
                            if b == items.deep_view().len() - 1 {
                                let p = choose|p: int|
                                    0 <= p < i && (#[trigger] prev[a]).0 == (#[trigger] self@[p]).0;
                                assert(items.deep_view()[a].0 == self@[p].0);
                                assert(self@[p].0 != self@[i as int].0);
                            }
                        }
                    }
                    assert(items.deep_view() + spec_restrict_from(self@, vars.deep_view(), i + 1)
                        =~= spec_restrict_from(self@, vars.deep_view(), 0));
                }
            }
            i = i + 1;
        }
        proof {
            assert(items.deep_view() + spec_restrict_from(self@, vars.deep_view(), self@.len() as int)
                =~= items.deep_view());
        }
        Bindings { items }
    }
}

/// Applying `items` to one term.
pub open spec fn spec_apply_term(items: Seq<(Seq<char>, Seq<char>)>, t: crate::ast::TermV)
    -> crate::ast::TermV {
    match t {
        crate::ast::TermV::Name(_) => t,
        crate::ast::TermV::Var(v) => match spec_lookup(items, v) {
            Some(c) => crate::ast::TermV::Name(c),
            None => t,
        },
    }
}

/// Applying `items` to every term of `ts`.
pub open spec fn spec_apply(items: Seq<(Seq<char>, Seq<char>)>, ts: Seq<crate::ast::TermV>) -> Seq<
    crate::ast::TermV,
> {
    ts.map_values(|t: crate::ast::TermV| spec_apply_term(items, t))
}

/// Whether `vars` holds a variable with the same text as `v`.
pub fn contains_variable(vars: &Vec<Variable>, v: &Variable) -> (r: bool)
    ensures
        r == vars.deep_view().contains(v@),
{
    let mut i: usize = 0;
    while i < vars.len()
        invariant
            i <= vars@.len(),
            forall|j: int| 0 <= j < i ==> vars.deep_view()[j] != v@,
        decreases vars@.len() - i,
    {
        if vars[i] == *v {
            proof {
                assert(vars.deep_view()[i as int] == v@);
            }
            return true;
        }
        i = i + 1;
    }
    proof {
        if vars.deep_view().contains(v@) {
            let j = choose|j: int| 0 <= j < vars.deep_view().len() && vars.deep_view()[j] == v@;
            assert(vars.deep_view()[j] == v@);
        }
    }
    false
}

/// A key that is not bound anywhere in `items` differs from the key at any
/// position of `items`.
proof fn lemma_lookup_none_at(items: Seq<(Seq<char>, Seq<char>)>, key: Seq<char>, i: int)
    requires
        0 <= i < items.len(),
        spec_lookup(items, key) is None,
    ensures
        items[i].0 != key,
{
    lemma_lookup_none_from(items, key, 0, i);
}

proof fn lemma_lookup_none_from(items: Seq<(Seq<char>, Seq<char>)>, key: Seq<char>, k: int, i: int)
    requires
        0 <= k <= i < items.len(),
        spec_lookup_from(items, key, k) is None,
    ensures
        items[i].0 != key,
    decreases i - k,
{
    if k < i {
        lemma_lookup_none_from(items, key, k + 1, i);
    }
}

impl PartialEq for Bindings {
    fn eq(&self, other: &Bindings) -> (r: bool) {
        if self.items.len() != other.items.len() {
            proof {
                assert(self@.len() != other@.len());
            }
            return false;
        }
        let mut i: usize = 0;
        while i < self.items.len()
            invariant
                self@.len() == other@.len(),
                i <= self@.len(),
                forall|j: int| 0 <= j < i ==> self@[j] == other@[j],
            decreases self@.len() - i,
        {
            let (v1, n1) = (&self.items[i].0, &self.items[i].1);
            let (v2, n2) = (&other.items[i].0, &other.items[i].1);
            if !(v1 == v2) || !(n1 == n2) {
                proof {
                    assert(self@[i as int] != other@[i as int]);
                }
                return false;
            }
            i = i + 1;
        }
        proof {
            assert(self@ =~= other@);
        }
        true
    }
}

impl vstd::std_specs::cmp::PartialEqSpecImpl for Bindings {
    open spec fn obeys_eq_spec() -> bool {
        true
    }

    open spec fn eq_spec(&self, other: &Bindings) -> bool {
        self@ == other@
    }
}

} // verus!
