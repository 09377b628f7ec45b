//! The naive interpreter's knowledge base: two indices, keyed by predicate
//! signature, over ground fact tuples and over rules.

use vstd::prelude::*;

use crate::ast::Clause;
use crate::ast::ClauseV;
use crate::ast::clause_eq;
use crate::errors::Error;
use crate::errors::ErrorV;
use crate::name::Name;

verus! {

/// The fact index entry for one predicate signature: the asserted ground
/// argument tuples, in assertion order, each tuple held once.
pub struct FactsEntry {
    pub(crate) name: Name,
    pub(crate) arity: usize,
    pub(crate) tuples: Vec<Vec<Name>>,
}

/// The mathematical value of a fact index entry.
#[verifier::ext_equal]
pub struct FactsEntryV {
    pub name: Seq<char>,
    pub arity: nat,
    pub tuples: Seq<Seq<Seq<char>>>,
}

impl DeepView for FactsEntry {
    type V = FactsEntryV;

    closed spec fn deep_view(&self) -> FactsEntryV {
        FactsEntryV {
            name: self.name@,
            arity: self.arity as nat,
            tuples: self.tuples.deep_view(),
        }
    }
}

/// The rule index entry for one predicate signature: the asserted rules, in
/// assertion order.
pub struct RulesEntry {
    pub(crate) name: Name,
    pub(crate) arity: usize,
    pub(crate) clauses: Vec<Clause>,
}

/// The mathematical value of a rule index entry.
#[verifier::ext_equal]
pub struct RulesEntryV {
    pub name: Seq<char>,
    pub arity: nat,
    pub clauses: Seq<ClauseV>,
}

impl DeepView for RulesEntry {
    type V = RulesEntryV;

    closed spec fn deep_view(&self) -> RulesEntryV {
        RulesEntryV {
            name: self.name@,
            arity: self.arity as nat,
            clauses: self.clauses.deep_view(),
        }
    }
}

/// The mathematical value of a knowledge base.
#[verifier::ext_equal]
pub struct KbV {
    pub facts: Seq<FactsEntryV>,
    pub rules: Seq<RulesEntryV>,
}

/// Entry invariants of the fact index: every tuple has the entry's arity,
/// and no tuple occurs twice.
pub open spec fn facts_entry_wf(e: FactsEntryV) -> bool {
    &&& forall|j: int| 0 <= j < e.tuples.len() ==> (#[trigger] e.tuples[j]).len() == e.arity
    &&& forall|j: int, k: int| 0 <= j < k < e.tuples.len() ==> #[trigger] e.tuples[j]
        != #[trigger] e.tuples[k]
}

/// Entry invariants of the rule index: every clause is a rule (not a fact)
/// whose head carries the entry's signature.
pub open spec fn rules_entry_wf(e: RulesEntryV) -> bool {
    forall|j: int| 0 <= j < e.clauses.len() ==> (#[trigger] e.clauses[j]).head.sig() == (
    e.name,
    e.arity,
    ) && e.clauses[j].fact_tuple() is None
}

/// The knowledge base invariant: signatures are unique in each index, and
/// every entry is well formed.
pub open spec fn kb_wf(kb: KbV) -> bool {
    &&& forall|i: int, j: int| 0 <= i < j < kb.facts.len() ==> ((#[trigger] kb.facts[i]).name, kb.facts[i].arity) != ((
    #[trigger] kb.facts[j]).name, kb.facts[j].arity)
    &&& forall|i: int, j: int| 0 <= i < j < kb.rules.len() ==> ((#[trigger] kb.rules[i]).name, kb.rules[i].arity) != ((
    #[trigger] kb.rules[j]).name, kb.rules[j].arity)
    &&& forall|i: int| 0 <= i < kb.facts.len() ==> facts_entry_wf(#[trigger] kb.facts[i])
    &&& forall|i: int| 0 <= i < kb.rules.len() ==> rules_entry_wf(#[trigger] kb.rules[i])
}

/// The fact tuples stored for `sig`, scanning the index from `i`: the first
/// matching entry's tuples, or the empty sequence.
pub open spec fn spec_facts_for_from(kb: KbV, sig: (Seq<char>, nat), i: int) -> Seq<Seq<Seq<char>>>
    decreases kb.facts.len() - i,
{
    if i < 0 || i >= kb.facts.len() {
        Seq::empty()
    } else if kb.facts[i].name == sig.0 && kb.facts[i].arity == sig.1 {
        kb.facts[i].tuples
    } else {
        spec_facts_for_from(kb, sig, i + 1)
    }
}

/// The fact tuples stored for `sig`.
pub open spec fn spec_facts_for(kb: KbV, sig: (Seq<char>, nat)) -> Seq<Seq<Seq<char>>> {
    spec_facts_for_from(kb, sig, 0)
}

/// The rules stored for `sig`, scanning the index from `i`.
pub open spec fn spec_rules_for_from(kb: KbV, sig: (Seq<char>, nat), i: int) -> Seq<ClauseV>
    decreases kb.rules.len() - i,
{
    if i < 0 || i >= kb.rules.len() {
        Seq::empty()
    } else if kb.rules[i].name == sig.0 && kb.rules[i].arity == sig.1 {
        kb.rules[i].clauses
    } else {
        spec_rules_for_from(kb, sig, i + 1)
    }
}

/// The rules stored for `sig`.
pub open spec fn spec_rules_for(kb: KbV, sig: (Seq<char>, nat)) -> Seq<ClauseV> {
    spec_rules_for_from(kb, sig, 0)
}

/// The fact index after adding `t` under `sig`, scanning from `i`: the
/// first matching entry gains `t` unless it already holds it, and a missing
/// signature gains a fresh entry at the end.
pub open spec fn spec_add_fact_from(
    entries: Seq<FactsEntryV>,
    sig: (Seq<char>, nat),
    t: Seq<Seq<char>>,
    i: int,
) -> Seq<FactsEntryV>
    decreases entries.len() - i,
{
    if i < 0 || i >= entries.len() {
        entries.push(FactsEntryV { name: sig.0, arity: sig.1, tuples: seq![t] })
    } else if entries[i].name == sig.0 && entries[i].arity == sig.1 {
        if entries[i].tuples.contains(t) {
            entries
        } else {
            entries.update(
                i,
                FactsEntryV { name: entries[i].name, arity: entries[i].arity, tuples: entries[i].tuples.push(t) },
            )
        }
    } else {
        spec_add_fact_from(entries, sig, t, i + 1)
    }
}

/// The rule index after adding clause `c` under `sig`, scanning from `i`.
pub open spec fn spec_add_rule_from(
    entries: Seq<RulesEntryV>,
    sig: (Seq<char>, nat),
    c: ClauseV,
    i: int,
) -> Seq<RulesEntryV>
    decreases entries.len() - i,
{
    if i < 0 || i >= entries.len() {
        entries.push(RulesEntryV { name: sig.0, arity: sig.1, clauses: seq![c] })
    } else if entries[i].name == sig.0 && entries[i].arity == sig.1 {
        entries.update(
            i,
            RulesEntryV { name: entries[i].name, arity: entries[i].arity, clauses: entries[i].clauses.push(c) },
        )
    } else {
        spec_add_rule_from(entries, sig, c, i + 1)
    }
}

/// The knowledge base after asserting clause `c`: a fact clause's tuple
/// goes to the fact index (skipped when already present), any other clause
/// goes to the rule index.
pub open spec fn spec_assert(kb: KbV, c: ClauseV) -> KbV {
    match c.fact_tuple() {
        Some(t) => KbV { facts: spec_add_fact_from(kb.facts, c.head.sig(), t, 0), rules: kb.rules },
        None => KbV { facts: kb.facts, rules: spec_add_rule_from(kb.rules, c.head.sig(), c, 0) },
    }
}

/// The tuple list with the first occurrence of `t` removed, scanning from
/// `j`; nothing if `t` does not occur.
pub open spec fn spec_remove_tuple_from(tuples: Seq<Seq<Seq<char>>>, t: Seq<Seq<char>>, j: int)
    -> Option<Seq<Seq<Seq<char>>>>
    decreases tuples.len() - j,
{
    if j < 0 || j >= tuples.len() {
        None
    } else if tuples[j] == t {
        Some(tuples.remove(j))
    } else {
        spec_remove_tuple_from(tuples, t, j + 1)
    }
}

/// The clause list with the first occurrence of `c` removed, scanning from
/// `j`; nothing if `c` does not occur.
pub open spec fn spec_remove_clause_from(clauses: Seq<ClauseV>, c: ClauseV, j: int) -> Option<
    Seq<ClauseV>,
>
    decreases clauses.len() - j,
{
    if j < 0 || j >= clauses.len() {
        None
    } else if clauses[j] == c {
        Some(clauses.remove(j))
    } else {
        spec_remove_clause_from(clauses, c, j + 1)
    }
}

/// The fact index after retracting `t` under `sig`, scanning from `i`;
/// nothing if no entry matches or the matching entry lacks `t`.
pub open spec fn spec_retract_fact_from(
    entries: Seq<FactsEntryV>,
    sig: (Seq<char>, nat),
    t: Seq<Seq<char>>,
    i: int,
) -> Option<Seq<FactsEntryV>>
    decreases entries.len() - i,
{
    if i < 0 || i >= entries.len() {
        None
    } else if entries[i].name == sig.0 && entries[i].arity == sig.1 {
        match spec_remove_tuple_from(entries[i].tuples, t, 0) {
            Some(ts) => Some(
                entries.update(
                    i,
                    FactsEntryV { name: entries[i].name, arity: entries[i].arity, tuples: ts },
                ),
            ),
            None => None,
        }
    } else {
        spec_retract_fact_from(entries, sig, t, i + 1)
    }
}

/// The rule index after retracting clause `c` under `sig`, scanning from
/// `i`; nothing if no entry matches or the matching entry lacks `c`.
pub open spec fn spec_retract_rule_from(
    entries: Seq<RulesEntryV>,
    sig: (Seq<char>, nat),
    c: ClauseV,
    i: int,
) -> Option<Seq<RulesEntryV>>
    decreases entries.len() - i,
{
    if i < 0 || i >= entries.len() {
        None
    } else if entries[i].name == sig.0 && entries[i].arity == sig.1 {
        match spec_remove_clause_from(entries[i].clauses, c, 0) {
            Some(cs) => Some(
                entries.update(
                    i,
                    RulesEntryV { name: entries[i].name, arity: entries[i].arity, clauses: cs },
                ),
            ),
            None => None,
        }
    } else {
        spec_retract_rule_from(entries, sig, c, i + 1)
    }
}

/// The knowledge base after retracting clause `c`: the first structurally
/// equal stored fact tuple or rule is removed; nothing if no such entry
/// exists.
pub open spec fn spec_retract(kb: KbV, c: ClauseV) -> Option<KbV> {
    match c.fact_tuple() {
        Some(t) => match spec_retract_fact_from(kb.facts, c.head.sig(), t, 0) {
            Some(f) => Some(KbV { facts: f, rules: kb.rules }),
            None => None,
        },
        None => match spec_retract_rule_from(kb.rules, c.head.sig(), c, 0) {
            Some(r) => Some(KbV { facts: kb.facts, rules: r }),
            None => None,
        },
    }
}

/// A naive, top-down interpreter: an in-memory knowledge base with a
/// depth-first resolver.
pub struct NaiveInterpreter {
    pub(crate) facts: Vec<FactsEntry>,
    pub(crate) rules: Vec<RulesEntry>,
}

impl View for NaiveInterpreter {
    type V = KbV;

    closed spec fn view(&self) -> KbV {
        KbV { facts: self.facts.deep_view(), rules: self.rules.deep_view() }
    }
}

/// Whether two ground argument tuples are equal.
pub fn name_tuple_eq(a: &Vec<Name>, b: &Vec<Name>) -> (r: bool)
    ensures
        r == (a.deep_view() == b.deep_view()),
{
    if a.len() != b.len() {
        proof {
            assert(a.deep_view().len() != b.deep_view().len());
        }
        return false;
    }
    let mut i: usize = 0;
    while i < a.len()
        invariant
            a@.len() == b@.len(),
            i <= a@.len(),
            forall|j: int| 0 <= j < i ==> (#[trigger] a@[j])@ == b@[j]@,
        decreases a@.len() - i,
    {
        if !(a[i] == b[i]) {
            proof {
                assert(a.deep_view()[i as int] != b.deep_view()[i as int]);
            }
            return false;
        }
        i = i + 1;
    }
    proof {
        assert(a.deep_view() =~= b.deep_view());
    }
    true
}

impl NaiveInterpreter {
    /// The knowledge base invariant.
    pub open spec fn wf(&self) -> bool {
        kb_wf(self@)
    }

    /// Creates a new, empty instance of `NaiveInterpreter`.
    pub fn new() -> (r: NaiveInterpreter)
        ensures
            r@.facts == Seq::<FactsEntryV>::empty(),
            r@.rules == Seq::<RulesEntryV>::empty(),
            r.wf(),
    {
        let r = NaiveInterpreter { facts: Vec::new(), rules: Vec::new() };
        proof {
            assert(r@.facts =~= Seq::<FactsEntryV>::empty());
            assert(r@.rules =~= Seq::<RulesEntryV>::empty());
        }
        r
    }

    /// The index of the fact entry for the signature, if one exists; the
    /// scan reports the first match.
    fn find_fact_entry(&self, name: &Name, arity: usize) -> (r: Option<usize>)
        ensures
            match r {
                Some(idx) => idx < self@.facts.len() && self@.facts[idx as int].name == name@
                    && self@.facts[idx as int].arity == arity && (forall|j: int|
                    0 <= j < idx ==> !((#[trigger] self@.facts[j]).name == name@
                        && self@.facts[j].arity == arity)),
                None => forall|j: int|
                    0 <= j < self@.facts.len() ==> !((#[trigger] self@.facts[j]).name == name@
                        && self@.facts[j].arity == arity),
            },
    {
        let mut i: usize = 0;
        while i < self.facts.len()
            invariant
                i <= self@.facts.len(),
                self@.facts.len() == self.facts@.len(),
                forall|j: int| 0 <= j < i ==> !((#[trigger] self@.facts[j]).name == name@
                    && self@.facts[j].arity == arity),
            decreases self.facts@.len() - i,
        {
            if self.facts[i].name == *name && self.facts[i].arity == arity {
                return Some(i);
            }
            i = i + 1;
        }
        None
    }

    /// The index of the rule entry for the signature, if one exists.
    fn find_rule_entry(&self, name: &Name, arity: usize) -> (r: Option<usize>)
        ensures
            match r {
                Some(idx) => idx < self@.rules.len() && self@.rules[idx as int].name == name@
                    && self@.rules[idx as int].arity == arity && (forall|j: int|
                    0 <= j < idx ==> !((#[trigger] self@.rules[j]).name == name@
                        && self@.rules[j].arity == arity)),
                None => forall|j: int|
                    0 <= j < self@.rules.len() ==> !((#[trigger] self@.rules[j]).name == name@
                        && self@.rules[j].arity == arity),
            },
    {
        let mut i: usize = 0;
        while i < self.rules.len()
            invariant
                i <= self@.rules.len(),
                self@.rules.len() == self.rules@.len(),
                forall|j: int| 0 <= j < i ==> !((#[trigger] self@.rules[j]).name == name@
                    && self@.rules[j].arity == arity),
            decreases self.rules@.len() - i,
        {
            if self.rules[i].name == *name && self.rules[i].arity == arity {
                return Some(i);
            }
            i = i + 1;
        }
        None
    }

    /// The position of the first tuple equal to `tuple` in entry `idx`, if
    /// any.
    fn find_tuple(&self, idx: usize, tuple: &Vec<Name>) -> (r: Option<usize>)
        requires
            idx < self@.facts.len(),
        ensures
            match r {
                Some(j) => j < self@.facts[idx as int].tuples.len()
                    && self@.facts[idx as int].tuples[j as int] == tuple.deep_view() && (forall|
                    k: int,
                |
                    0 <= k < j ==> #[trigger] self@.facts[idx as int].tuples[k]
                        != tuple.deep_view()),
                None => forall|k: int|
                    0 <= k < self@.facts[idx as int].tuples.len()
                        ==> #[trigger] self@.facts[idx as int].tuples[k] != tuple.deep_view(),
            },
    {
        let entry = &self.facts[idx];
        let mut j: usize = 0;
        while j < entry.tuples.len()
            invariant
                entry == &self.facts[idx as int],
                idx < self@.facts.len(),
                entry.deep_view() == self@.facts[idx as int],
                j <= entry.tuples@.len(),
                forall|k: int| 0 <= k < j ==> #[trigger] self@.facts[idx as int].tuples[k]
                    != tuple.deep_view(),
            decreases entry.tuples@.len() - j,
        {
            if name_tuple_eq(&entry.tuples[j], tuple) {
                return Some(j);
            }
            j = j + 1;
        }
        None
    }

    /// The position of the first clause equal to `clause` in rule entry
    /// `idx`, if any.
    fn find_clause(&self, idx: usize, clause: &Clause) -> (r: Option<usize>)
        requires
            idx < self@.rules.len(),
        ensures
            match r {
                Some(j) => j < self@.rules[idx as int].clauses.len()
                    && self@.rules[idx as int].clauses[j as int] == clause.deep_view() && (forall|
                    k: int,
                |
                    0 <= k < j ==> #[trigger] self@.rules[idx as int].clauses[k]
                        != clause.deep_view()),
                None => forall|k: int|
                    0 <= k < self@.rules[idx as int].clauses.len()
                        ==> #[trigger] self@.rules[idx as int].clauses[k] != clause.deep_view(),
            },
    {
        let entry = &self.rules[idx];
        let mut j: usize = 0;
        while j < entry.clauses.len()
            invariant
                entry == &self.rules[idx as int],
                idx < self@.rules.len(),
                entry.deep_view() == self@.rules[idx as int],
                j <= entry.clauses@.len(),
                forall|k: int| 0 <= k < j ==> #[trigger] self@.rules[idx as int].clauses[k]
                    != clause.deep_view(),
            decreases entry.clauses@.len() - j,
        {
            if clause_eq(&entry.clauses[j], clause) {
                return Some(j);
            }
            j = j + 1;
        }
        None
    }

    /// Adds an assertion to the store: a fact clause's ground tuple joins
    /// the fact index unless an identical tuple is already there; any other
    /// clause joins the rule index.
    pub fn run_assertion(&mut self, clause: Clause) -> (r: Result<(), Error>)
        ensures
            r is Ok,
            final(self)@ == spec_assert(old(self)@, clause.deep_view()),
            old(self).wf() ==> final(self).wf(),
    {
        let ghost c = clause.deep_view();
        let tuple_opt = clause.as_fact();
        let (name, arity) = clause.pred();
        let ghost sig = (name@, arity as nat);
        proof {
            assert(c.head.sig() == sig);
        }
        match tuple_opt {
            Some(tuple) => {
                let ghost t = tuple.deep_view();
                proof {
                    assert(c.fact_tuple() == Some(t));
                    assert(t.len() == arity as nat);
                }
                match self.find_fact_entry(&name, arity) {
                    Some(idx) => {
                        proof {
                            lemma_add_fact_scan(self@.facts, sig, t, idx as int);
                        }
                        match self.find_tuple(idx, &tuple) {
                            Some(j) => {
                                proof {
                                    assert(self@.facts[idx as int].tuples[j as int] == t);
                                    assert(self@.facts[idx as int].tuples.contains(t));
                                    assert(spec_add_fact_from(self@.facts, sig, t, idx as int)
                                        == self@.facts);
                                    assert(self@ =~= spec_assert(old(self)@, c));
                                }
                                Ok(())
                            },
                            None => {
                                proof {
                                    if self@.facts[idx as int].tuples.contains(t) {
                                        let k = choose|k: int|
                                            0 <= k < self@.facts[idx as int].tuples.len()
                                                && self@.facts[idx as int].tuples[k] == t;
                                        assert(false);
                                    }
                                }
                                let ghost old_entry_v = self@.facts[idx as int];
                                let mut entry = self.facts.remove(idx);
                                entry.tuples.push(tuple);
                                proof {
                                    assert(entry.deep_view() =~~= FactsEntryV {
                                        name: old_entry_v.name,
                                        arity: old_entry_v.arity,
                                        tuples: old_entry_v.tuples.push(t),
                                    });
                                }
                                self.facts.insert(idx, entry);
                                proof {
                                    assert(self@.facts =~~= old(self)@.facts.update(
                                        idx as int,
                                        FactsEntryV {
                                            name: old_entry_v.name,
                                            arity: old_entry_v.arity,
                                            tuples: old_entry_v.tuples.push(t),
                                        },
                                    ));
                                    assert(self@ =~~= spec_assert(old(self)@, c));
                                    if old(self).wf() {
                                        assert forall|i: int|
                                            0 <= i < self@.facts.len() implies facts_entry_wf(
                                            #[trigger] self@.facts[i],
                                        ) by {
                                            if i == idx as int {
                                                assert(facts_entry_wf(old(self)@.facts[i]));
                                                assert forall|a: int, b: int|
                                                    0 <= a < b < self@.facts[i].tuples.len() implies
                                                    #[trigger] self@.facts[i].tuples[a]
                                                        != #[trigger] self@.facts[i].tuples[b] by {
                                                    if b == self@.facts[i].tuples.len() - 1 {
                                                        assert(self@.facts[i].tuples[a]
                                                            == old(self)@.facts[i].tuples[a]);
                                                    }
                                                }
                                            } else {
                                                assert(self@.facts[i] == old(self)@.facts[i]);
                                                assert(facts_entry_wf(old(self)@.facts[i]));
                                            }
                                        }
                                        assert(kb_wf(self@));
                                    }
                                }
                                Ok(())
                            },
                        }
                    },
                    None => {
                        proof {
                            lemma_add_fact_scan(self@.facts, sig, t, self@.facts.len() as int);
                        }
                        let ghost old_facts = self@.facts;
                        self.facts.push(FactsEntry { name, arity, tuples: vec![tuple] });
                        proof {
                            assert(self@.facts =~~= old_facts.push(
                                FactsEntryV { name: sig.0, arity: sig.1, tuples: seq![t] },
                            ));
                            assert(self@ =~~= spec_assert(old(self)@, c));
                            if old(self).wf() {
                                assert forall|i: int|
                                    0 <= i < self@.facts.len() implies facts_entry_wf(
                                    #[trigger] self@.facts[i],
                                ) by {
                                    if i < old_facts.len() {
                                        assert(self@.facts[i] == old_facts[i]);
                                        assert(facts_entry_wf(old_facts[i]));
                                    }
                                }
                                assert(kb_wf(self@));
                            }
                        }
                        Ok(())
                    },
                }
            },
            None => {
                proof {
                    assert(c.fact_tuple() is None);
                }
                match self.find_rule_entry(&name, arity) {
                    Some(idx) => {
                        proof {
                            lemma_add_rule_scan(self@.rules, sig, c, idx as int);
                        }
                        let ghost old_entry_v = self@.rules[idx as int];
                        let mut entry = self.rules.remove(idx);
                        entry.clauses.push(clause);
                        proof {
                            assert(entry.deep_view() =~~= RulesEntryV {
                                name: old_entry_v.name,
                                arity: old_entry_v.arity,
                                clauses: old_entry_v.clauses.push(c),
                            });
                        }
                        self.rules.insert(idx, entry);
                        proof {
                            assert(self@.rules =~~= old(self)@.rules.update(
                                idx as int,
                                RulesEntryV {
                                    name: old_entry_v.name,
                                    arity: old_entry_v.arity,
                                    clauses: old_entry_v.clauses.push(c),
                                },
                            ));
                            assert(self@ =~~= spec_assert(old(self)@, c));
                            if old(self).wf() {
                                assert forall|i: int|
                                    0 <= i < self@.rules.len() implies rules_entry_wf(
                                    #[trigger] self@.rules[i],
                                ) by {
                                    if i == idx as int {
                                        assert(rules_entry_wf(old(self)@.rules[i]));
                                        assert forall|a: int|
                                            0 <= a < self@.rules[i].clauses.len() implies (
                                        #[trigger] self@.rules[i].clauses[a]).head.sig() == (
                                        self@.rules[i].name,
                                        self@.rules[i].arity,
                                        ) && self@.rules[i].clauses[a].fact_tuple() is None by {
                                            if a < old(self)@.rules[i].clauses.len() {
                                                assert(self@.rules[i].clauses[a]
                                                    == old(self)@.rules[i].clauses[a]);
                                            }
                                        }
                                    } else {
                                        assert(self@.rules[i] == old(self)@.rules[i]);
                                        assert(rules_entry_wf(old(self)@.rules[i]));
                                    }
                                }
                                assert(kb_wf(self@));
                            }
                        }
                        Ok(())
                    },
                    None => {
                        proof {
                            lemma_add_rule_scan(self@.rules, sig, c, self@.rules.len() as int);
                        }
                        let ghost old_rules = self@.rules;
                        self.rules.push(RulesEntry { name, arity, clauses: vec![clause] });
                        proof {
                            assert(self@.rules =~~= old_rules.push(
                                RulesEntryV { name: sig.0, arity: sig.1, clauses: seq![c] },
                            ));
                            assert(self@ =~~= spec_assert(old(self)@, c));
                            if old(self).wf() {
                                assert forall|i: int|
                                    0 <= i < self@.rules.len() implies rules_entry_wf(
                                    #[trigger] self@.rules[i],
                                ) by {
                                    if i < old_rules.len() {
                                        assert(self@.rules[i] == old_rules[i]);
                                        assert(rules_entry_wf(old_rules[i]));
                                    }
                                }
                                assert(kb_wf(self@));
                            }
                        }
                        Ok(())
                    },
                }
            },
        }
    }
}

impl NaiveInterpreter {
    /// Retracts a clause from the store: the first structurally equal fact
    /// tuple or rule is removed; a miss fails and leaves the store exactly
    /// as it was.
    pub fn run_retraction(&mut self, clause: Clause) -> (r: Result<(), Error>)
        ensures
            match spec_retract(old(self)@, clause.deep_view()) {
                Some(kb2) => r is Ok && final(self)@ == kb2 && (old(self).wf()
                    ==> final(self).wf()),
                None => (r matches Err(e) && e.deep_view() == ErrorV::NoSuchClause(
                    clause.deep_view(),
                )) && *final(self) == *old(self),
            },
    {
        let ghost c = clause.deep_view();
        let tuple_opt = clause.as_fact();
        let (name, arity) = clause.pred();
        let ghost sig = (name@, arity as nat);
        proof {
            assert(c.head.sig() == sig);
        }
        match tuple_opt {
            Some(tuple) => {
                let ghost t = tuple.deep_view();
                proof {
                    assert(c.fact_tuple() == Some(t));
                }
                match self.find_fact_entry(&name, arity) {
                    Some(idx) => {
                        proof {
                            lemma_retract_fact_scan(self@.facts, sig, t, idx as int);
                        }
                        match self.find_tuple(idx, &tuple) {
                            Some(j) => {
                                proof {
                                    lemma_remove_tuple_scan(
                                        self@.facts[idx as int].tuples,
                                        t,
                                        j as int,
                                    );
                                }
                                let ghost old_entry_v = self@.facts[idx as int];
                                let mut entry = self.facts.remove(idx);
                                entry.tuples.remove(j);
                                proof {
                                    assert(entry.deep_view() =~~= FactsEntryV {
                                        name: old_entry_v.name,
                                        arity: old_entry_v.arity,
                                        tuples: old_entry_v.tuples.remove(j as int),
                                    });
                                }
                                self.facts.insert(idx, entry);
                                proof {
                                    assert(self@.facts =~~= old(self)@.facts.update(
                                        idx as int,
                                        FactsEntryV {
                                            name: old_entry_v.name,
                                            arity: old_entry_v.arity,
                                            tuples: old_entry_v.tuples.remove(j as int),
                                        },
                                    ));
                                    assert(self@ =~~= spec_retract(old(self)@, c).unwrap());
                                    if old(self).wf() {
                                        assert forall|i: int|
                                            0 <= i < self@.facts.len() implies facts_entry_wf(
                                            #[trigger] self@.facts[i],
                                        ) by {
                                            assert(facts_entry_wf(old(self)@.facts[i]));
                                            if i == idx as int {
                                                let s = old_entry_v.tuples;
                                                let rm = s.remove(j as int);
                                                assert forall|a: int|
                                                    0 <= a < rm.len() implies #[trigger] rm[a] == (
                                                if a < j as int {
                                                    s[a]
                                                } else {
                                                    s[a + 1]
                                                }) by {}
                                            }
                                        }
                                        assert(kb_wf(self@));
                                    }
                                }
                                Ok(())
                            },
                            None => {
                                proof {
                                    lemma_remove_tuple_scan(
                                        self@.facts[idx as int].tuples,
                                        t,
                                        self@.facts[idx as int].tuples.len() as int,
                                    );
                                }
                                Err(Error::NoSuchClause(clause))
                            },
                        }
                    },
                    None => {
                        proof {
                            lemma_retract_fact_scan(
                                self@.facts,
                                sig,
                                t,
                                self@.facts.len() as int,
                            );
                        }
                        Err(Error::NoSuchClause(clause))
                    },
                }
            },
            None => {
                match self.find_rule_entry(&name, arity) {
                    Some(idx) => {
                        proof {
                            lemma_retract_rule_scan(self@.rules, sig, c, idx as int);
                        }
                        match self.find_clause(idx, &clause) {
                            Some(j) => {
                                proof {
                                    lemma_remove_clause_scan(
                                        self@.rules[idx as int].clauses,
                                        c,
                                        j as int,
                                    );
                                }
                                let ghost old_entry_v = self@.rules[idx as int];
                                let mut entry = self.rules.remove(idx);
                                entry.clauses.remove(j);
                                proof {
                                    assert(entry.deep_view() =~~= RulesEntryV {
                                        name: old_entry_v.name,
                                        arity: old_entry_v.arity,
                                        clauses: old_entry_v.clauses.remove(j as int),
                                    });
                                }
                                self.rules.insert(idx, entry);
                                proof {
                                    assert(self@.rules =~~= old(self)@.rules.update(
                                        idx as int,
                                        RulesEntryV {
                                            name: old_entry_v.name,
                                            arity: old_entry_v.arity,
                                            clauses: old_entry_v.clauses.remove(j as int),
                                        },
                                    ));
                                    assert(self@ =~~= spec_retract(old(self)@, c).unwrap());
                                    if old(self).wf() {
                                        assert forall|i: int|
                                            0 <= i < self@.rules.len() implies rules_entry_wf(
                                            #[trigger] self@.rules[i],
                                        ) by {
                                            assert(rules_entry_wf(old(self)@.rules[i]));
                                            if i == idx as int {
                                                let s = old_entry_v.clauses;
                                                let rm = s.remove(j as int);
                                                assert forall|a: int|
                                                    0 <= a < rm.len() implies #[trigger] rm[a] == (
                                                if a < j as int {
                                                    s[a]
                                                } else {
                                                    s[a + 1]
                                                }) by {}
                                            }
                                        }
                                        assert(kb_wf(self@));
                                    }
                                }
                                Ok(())
                            },
                            None => {
                                proof {
                                    lemma_remove_clause_scan(
                                        self@.rules[idx as int].clauses,
                                        c,
                                        self@.rules[idx as int].clauses.len() as int,
                                    );
                                }
                                Err(Error::NoSuchClause(clause))
                            },
                        }
                    },
                    None => {
                        proof {
                            lemma_retract_rule_scan(
                                self@.rules,
                                sig,
                                c,
                                self@.rules.len() as int,
                            );
                        }
                        Err(Error::NoSuchClause(clause))
                    },
                }
            },
        }
    }

    /// The stored fact tuples for the signature, in assertion order; empty
    /// for an unknown signature.
    pub fn facts_for(&self, name: &Name, arity: usize) -> (r: Vec<Vec<Name>>)
        ensures
            r.deep_view() == spec_facts_for(self@, (name@, arity as nat)),
    {
        match self.find_fact_entry(name, arity) {
            Some(idx) => {
                proof {
                    lemma_facts_for_scan(self@, (name@, arity as nat), idx as int);
                }
                clone_tuples(&self.facts[idx].tuples)
            },
            None => {
                proof {
                    lemma_facts_for_scan(self@, (name@, arity as nat), self@.facts.len() as int);
                }
                let r: Vec<Vec<Name>> = Vec::new();
                proof {
                    assert(r.deep_view() =~= spec_facts_for(self@, (name@, arity as nat)));
                }
                r
            },
        }
    }

    /// The stored rules for the signature, in assertion order; empty for an
    /// unknown signature.
    pub fn rules_for(&self, name: &Name, arity: usize) -> (r: Vec<Clause>)
        ensures
            r.deep_view() == spec_rules_for(self@, (name@, arity as nat)),
    {
        match self.find_rule_entry(name, arity) {
            Some(idx) => {
                proof {
                    lemma_rules_for_scan(self@, (name@, arity as nat), idx as int);
                }
                clone_clauses(&self.rules[idx].clauses)
            },
            None => {
                proof {
                    lemma_rules_for_scan(self@, (name@, arity as nat), self@.rules.len() as int);
                }
                let r: Vec<Clause> = Vec::new();
                proof {
                    assert(r.deep_view() =~= spec_rules_for(self@, (name@, arity as nat)));
                }
                r
            },
        }
    }
}

/// A copy of a ground argument tuple.
pub fn clone_tuple(v: &Vec<Name>) -> (r: Vec<Name>)
    ensures
        r.deep_view() == v.deep_view(),
{
    let mut r: Vec<Name> = Vec::new();
    let mut i: usize = 0;
    while i < v.len()
        invariant
            i <= v@.len(),
            r@.len() == i,
            forall|j: int| 0 <= j < i ==> (#[trigger] r@[j])@ == v@[j]@,
        decreases v@.len() - i,
    {
        r.push(v[i].clone());
        i = i + 1;
    }
    proof {
        assert(r.deep_view() =~= v.deep_view());
    }
    r
}

/// A copy of a list of ground argument tuples.
pub fn clone_tuples(v: &Vec<Vec<Name>>) -> (r: Vec<Vec<Name>>)
    ensures
        r.deep_view() == v.deep_view(),
{
    let mut r: Vec<Vec<Name>> = Vec::new();
    let mut i: usize = 0;
    while i < v.len()
        invariant
            i <= v@.len(),
            r@.len() == i,
            forall|j: int| 0 <= j < i ==> (#[trigger] r@[j]).deep_view() == v@[j].deep_view(),
        decreases v@.len() - i,
    {
        r.push(clone_tuple(&v[i]));
        i = i + 1;
    }
    proof {
        assert(r.deep_view() =~= v.deep_view());
    }
    r
}

/// A copy of a list of clauses.
pub fn clone_clauses(v: &Vec<Clause>) -> (r: Vec<Clause>)
    ensures
        r.deep_view() == v.deep_view(),
{
    let mut r: Vec<Clause> = Vec::new();
    let mut i: usize = 0;
    while i < v.len()
        invariant
            i <= v@.len(),
            r@.len() == i,
            forall|j: int| 0 <= j < i ==> (#[trigger] r@[j]).deep_view() == v@[j].deep_view(),
        decreases v@.len() - i,
    {
        r.push(v[i].clone());
        i = i + 1;
    }
    proof {
        assert(r.deep_view() =~= v.deep_view());
    }
    r
}

/// No entry before `idx` matches the signature, so the lookup from the
/// start equals the lookup from `idx`.
proof fn lemma_facts_for_scan(kb: KbV, sig: (Seq<char>, nat), idx: int)
    requires
        0 <= idx <= kb.facts.len(),
        forall|j: int| 0 <= j < idx ==> !((#[trigger] kb.facts[j]).name == sig.0
            && kb.facts[j].arity == sig.1),
    ensures
        spec_facts_for_from(kb, sig, 0) == spec_facts_for_from(kb, sig, idx),
    decreases idx,
{
    if idx > 0 {
        lemma_facts_for_scan(kb, sig, idx - 1);
    }
}

/// No entry before `idx` matches the signature, so the lookup from the
/// start equals the lookup from `idx`.
proof fn lemma_rules_for_scan(kb: KbV, sig: (Seq<char>, nat), idx: int)
    requires
        0 <= idx <= kb.rules.len(),
        forall|j: int| 0 <= j < idx ==> !((#[trigger] kb.rules[j]).name == sig.0
            && kb.rules[j].arity == sig.1),
    ensures
        spec_rules_for_from(kb, sig, 0) == spec_rules_for_from(kb, sig, idx),
    decreases idx,
{
    if idx > 0 {
        lemma_rules_for_scan(kb, sig, idx - 1);
    }
}

/// No entry before `idx` matches `sig`, so the retraction outcome from the
/// start equals the outcome from `idx`.
proof fn lemma_retract_fact_scan(
    entries: Seq<FactsEntryV>,
    sig: (Seq<char>, nat),
    t: Seq<Seq<char>>,
    idx: int,
)
    requires
        0 <= idx <= entries.len(),
        forall|j: int| 0 <= j < idx ==> !((#[trigger] entries[j]).name == sig.0 && entries[j].arity
            == sig.1),
    ensures
        spec_retract_fact_from(entries, sig, t, 0) == spec_retract_fact_from(entries, sig, t, idx),
    decreases idx,
{
    if idx > 0 {
        lemma_retract_fact_scan(entries, sig, t, idx - 1);
    }
}

/// No entry before `idx` matches `sig`, so the retraction outcome from the
/// start equals the outcome from `idx`.
proof fn lemma_retract_rule_scan(
    entries: Seq<RulesEntryV>,
    sig: (Seq<char>, nat),
    c: ClauseV,
    idx: int,
)
    requires
        0 <= idx <= entries.len(),
        forall|j: int| 0 <= j < idx ==> !((#[trigger] entries[j]).name == sig.0 && entries[j].arity
            == sig.1),
    ensures
        spec_retract_rule_from(entries, sig, c, 0) == spec_retract_rule_from(entries, sig, c, idx),
    decreases idx,
{
    if idx > 0 {
        lemma_retract_rule_scan(entries, sig, c, idx - 1);
    }
}

/// No tuple before `j` equals `t`, so the removal outcome from the start
/// equals the outcome from `j`.
proof fn lemma_remove_tuple_scan(tuples: Seq<Seq<Seq<char>>>, t: Seq<Seq<char>>, j: int)
    requires
        0 <= j <= tuples.len(),
        forall|k: int| 0 <= k < j ==> #[trigger] tuples[k] != t,
    ensures
        spec_remove_tuple_from(tuples, t, 0) == spec_remove_tuple_from(tuples, t, j),
    decreases j,
{
    if j > 0 {
        lemma_remove_tuple_scan(tuples, t, j - 1);
    }
}

/// No clause before `j` equals `c`, so the removal outcome from the start
/// equals the outcome from `j`.
proof fn lemma_remove_clause_scan(clauses: Seq<ClauseV>, c: ClauseV, j: int)
    requires
        0 <= j <= clauses.len(),
        forall|k: int| 0 <= k < j ==> #[trigger] clauses[k] != c,
    ensures
        spec_remove_clause_from(clauses, c, 0) == spec_remove_clause_from(clauses, c, j),
    decreases j,
{
    if j > 0 {
        lemma_remove_clause_scan(clauses, c, j - 1);
    }
}

/// No entry before `idx` matches `sig`, so the scan outcome from the start
/// equals the outcome from `idx`.
proof fn lemma_add_fact_scan(
    entries: Seq<FactsEntryV>,
    sig: (Seq<char>, nat),
    t: Seq<Seq<char>>,
    idx: int,
)
    requires
        0 <= idx <= entries.len(),
        forall|j: int| 0 <= j < idx ==> !((#[trigger] entries[j]).name == sig.0 && entries[j].arity
            == sig.1),
    ensures
        spec_add_fact_from(entries, sig, t, 0) == spec_add_fact_from(entries, sig, t, idx),
    decreases idx,
{
    if idx > 0 {
        lemma_add_fact_scan(entries, sig, t, idx - 1);
    }
}

/// No entry before `idx` matches `sig`, so the scan outcome from the start
/// equals the outcome from `idx`.
proof fn lemma_add_rule_scan(entries: Seq<RulesEntryV>, sig: (Seq<char>, nat), c: ClauseV, idx: int)
    requires
        0 <= idx <= entries.len(),
        forall|j: int| 0 <= j < idx ==> !((#[trigger] entries[j]).name == sig.0 && entries[j].arity
            == sig.1),
    ensures
        spec_add_rule_from(entries, sig, c, 0) == spec_add_rule_from(entries, sig, c, idx),
    decreases idx,
{
    if idx > 0 {
        lemma_add_rule_scan(entries, sig, c, idx - 1);
    }
}

} // verus!
