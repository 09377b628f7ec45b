//! The engine's laws: properties of asserting, retracting, matching, and
//! querying, proved over the same specifications that the executable
//! functions are verified against.

use vstd::prelude::*;

use crate::ast::ClauseV;
use crate::ast::LiteralV;
use crate::ast::TermV;
use crate::ast::spec_instantiate_fact_from;
use crate::ast::spec_instantiate_fact;
use crate::naive::KbV;
use crate::naive::FactsEntryV;
use crate::naive::kb_wf;
use crate::naive::facts_entry_wf;
use crate::naive::spec_facts_for;
use crate::naive::spec_facts_for_from;
use crate::naive::spec_rules_for;
use crate::naive::spec_rules_for_from;
use crate::naive::spec_add_fact_from;
use crate::naive::spec_assert;
use crate::naive::spec_retract;
use crate::naive::spec_retract_fact_from;
use crate::naive::spec_remove_tuple_from;
use crate::naive::spec_remove_clause_from;
use crate::pattern_match::spec_pattern_match;
use crate::pattern_match::spec_subst_terms;
use crate::resolve::spec_solve;
use crate::resolve::spec_solve_goal;
use crate::resolve::spec_solve_facts;
use crate::resolve::spec_solve_facts_from;
use crate::resolve::spec_solve_rules_from;
use crate::resolve::KeyV;

verus! {

/// Aligning ground goal arguments against a tuple of the same length
/// succeeds, leaving the accumulated bindings untouched, exactly when the
/// tuple is the goal's own argument tuple position for position.
proof fn lemma_instantiate_ground_from(
    args: Seq<TermV>,
    tuple: Seq<Seq<char>>,
    i: int,
    acc: Seq<(Seq<char>, Seq<char>)>,
)
    requires
        0 <= i,
        args.len() == tuple.len(),
        forall|k: int| 0 <= k < args.len() ==> (#[trigger] args[k]) is Name,
    ensures
        (forall|k: int| i <= k < args.len() ==> (#[trigger] args[k]).name_of() == tuple[k])
            ==> spec_instantiate_fact_from(args, tuple, i, acc) == Some(acc),
        (exists|k: int| i <= k < args.len() && (#[trigger] args[k]).name_of() != tuple[k])
            ==> spec_instantiate_fact_from(args, tuple, i, acc) is None,
    decreases args.len() - i,
{
    if 0 <= i < args.len() {
        assert(args[i] is Name);
        lemma_instantiate_ground_from(args, tuple, i + 1, acc);
        if args[i].name_of() == tuple[i] {
            assert(spec_instantiate_fact_from(args, tuple, i, acc) == spec_instantiate_fact_from(
                args,
                tuple,
                i + 1,
                acc,
            ));
            if exists|k: int| i <= k < args.len() && (#[trigger] args[k]).name_of() != tuple[k] {
                let k = choose|k: int|
                    i <= k < args.len() && (#[trigger] args[k]).name_of() != tuple[k];
                assert(i + 1 <= k < args.len() && args[k].name_of() != tuple[k]);
            }
        } else {
            assert(spec_instantiate_fact_from(args, tuple, i, acc) is None);
            assert(i <= i < args.len() && args[i].name_of() != tuple[i]);
        }
    }
}

/// For a ground goal, alignment with a tuple of the right length succeeds
/// (with no bindings) exactly on the goal's own tuple.
proof fn lemma_instantiate_ground(goal: LiteralV, tuple: Seq<Seq<char>>)
    requires
        goal.is_ground(),
        goal.args.len() == tuple.len(),
    ensures
        tuple == goal.args.map_values(|t: TermV| t.name_of()) ==> spec_instantiate_fact(
            goal.args,
            tuple,
        ) == Some(Seq::<(Seq<char>, Seq<char>)>::empty()),
        tuple != goal.args.map_values(|t: TermV| t.name_of()) ==> spec_instantiate_fact(
            goal.args,
            tuple,
        ) is None,
{
    let t = goal.args.map_values(|t: TermV| t.name_of());
    lemma_instantiate_ground_from(goal.args, tuple, 0, Seq::empty());
    if tuple == t {
        assert forall|k: int| 0 <= k < goal.args.len() implies (#[trigger] goal.args[k]).name_of()
            == tuple[k] by {
            assert(t[k] == goal.args[k].name_of());
        }
    } else {
        if forall|k: int| 0 <= k < goal.args.len() ==> (#[trigger] goal.args[k]).name_of()
            == tuple[k] {
            assert forall|k: int| 0 <= k < t.len() implies t[k] == tuple[k] by {
                assert(goal.args[k].name_of() == tuple[k]);
            }
            assert(tuple =~= t);
        }
    }
}

/// Adding a tuple touches no fact entry before the scan position.
proof fn lemma_add_fact_prefix(
    entries: Seq<FactsEntryV>,
    sig: (Seq<char>, nat),
    t: Seq<Seq<char>>,
    i: int,
)
    requires
        0 <= i,
    ensures
        spec_add_fact_from(entries, sig, t, i).len() >= entries.len(),
        forall|k: int| 0 <= k < i && k < entries.len()
            ==> #[trigger] spec_add_fact_from(entries, sig, t, i)[k] == entries[k],
    decreases entries.len() - i,
{
    if i < entries.len() {
        if entries[i].name == sig.0 && entries[i].arity == sig.1 {
        } else {
            lemma_add_fact_prefix(entries, sig, t, i + 1);
        }
    }
}

/// After adding tuple `t` under `sig`, the tuples stored for `sig` are the
/// old ones, extended with `t` when it was not already present.
proof fn lemma_facts_for_after_add(
    kb: KbV,
    sig: (Seq<char>, nat),
    t: Seq<Seq<char>>,
    i: int,
)
    requires
        0 <= i <= kb.facts.len(),
    ensures
        ({
            let cur = spec_facts_for_from(kb, sig, i);
            let kb2 = KbV { facts: spec_add_fact_from(kb.facts, sig, t, i), rules: kb.rules };
            spec_facts_for_from(kb2, sig, i) == (if cur.contains(t) {
                cur
            } else {
                cur.push(t)
            })
        }),
    decreases kb.facts.len() - i,
{
    let cur = spec_facts_for_from(kb, sig, i);
    let f2 = spec_add_fact_from(kb.facts, sig, t, i);
    let kb2 = KbV { facts: f2, rules: kb.rules };
    if i >= kb.facts.len() {
        assert(f2 == kb.facts.push(FactsEntryV { name: sig.0, arity: sig.1, tuples: seq![t] }));
        assert(cur =~= Seq::<Seq<Seq<char>>>::empty());
        assert(!cur.contains(t));
        assert(f2[i] == FactsEntryV { name: sig.0, arity: sig.1, tuples: seq![t] });
        assert(i < f2.len());
        assert(spec_facts_for_from(kb2, sig, i) == seq![t]);
        assert(cur.push(t) =~= seq![t]);
    } else if kb.facts[i].name == sig.0 && kb.facts[i].arity == sig.1 {
        assert(cur == kb.facts[i].tuples);
        if kb.facts[i].tuples.contains(t) {
            assert(f2 == kb.facts);
            assert(spec_facts_for_from(kb2, sig, i) == cur);
        } else {
            assert(f2 == kb.facts.update(
                i,
                FactsEntryV {
                    name: kb.facts[i].name,
                    arity: kb.facts[i].arity,
                    tuples: kb.facts[i].tuples.push(t),
                },
            ));
            assert(f2[i].name == sig.0 && f2[i].arity == sig.1);
            assert(spec_facts_for_from(kb2, sig, i) == cur.push(t));
        }
    } else {
        lemma_facts_for_after_add(kb, sig, t, i + 1);
        lemma_add_fact_prefix(kb.facts, sig, t, i + 1);
        assert(f2[i] == kb.facts[i]);
        assert(spec_facts_for_from(kb2, sig, i) == spec_facts_for_from(kb2, sig, i + 1));
    }
}

/// The rule lookup reads only the rule index: two knowledge bases with the
/// same rules store the same rules for every signature.
proof fn lemma_rules_for_same(kb1: KbV, kb2: KbV, sig: (Seq<char>, nat), i: int)
    requires
        kb1.rules == kb2.rules,
    ensures
        spec_rules_for_from(kb1, sig, i) == spec_rules_for_from(kb2, sig, i),
    decreases kb1.rules.len() - i,
{
    if 0 <= i < kb1.rules.len() {
        lemma_rules_for_same(kb1, kb2, sig, i + 1);
    }
}

/// The tuples stored for a signature in a well-formed knowledge base hold
/// no duplicates, and each has the signature's arity.
proof fn lemma_facts_for_wf(kb: KbV, sig: (Seq<char>, nat), i: int)
    requires
        kb_wf(kb),
    ensures
        ({
            let ts = spec_facts_for_from(kb, sig, i);
            &&& forall|a: int, b: int| 0 <= a < b < ts.len() ==> #[trigger] ts[a] != #[trigger] ts[b]
            &&& forall|a: int| 0 <= a < ts.len() ==> (#[trigger] ts[a]).len() == sig.1
        }),
    decreases kb.facts.len() - i,
{
    let ts = spec_facts_for_from(kb, sig, i);
    if 0 <= i < kb.facts.len() {
        if kb.facts[i].name == sig.0 && kb.facts[i].arity == sig.1 {
            assert(facts_entry_wf(kb.facts[i]));
            assert forall|a: int, b: int| 0 <= a < b < ts.len() implies #[trigger] ts[a]
                != #[trigger] ts[b] by {
                assert(ts[a] == kb.facts[i].tuples[a]);
                assert(ts[b] == kb.facts[i].tuples[b]);
            }
            assert forall|a: int| 0 <= a < ts.len() implies (#[trigger] ts[a]).len() == sig.1 by {
                assert(ts[a] == kb.facts[i].tuples[a]);
            }
        } else {
            lemma_facts_for_wf(kb, sig, i + 1);
            assert forall|a: int, b: int| 0 <= a < b < ts.len() implies #[trigger] ts[a]
                != #[trigger] ts[b] by {
                assert(ts[a] == spec_facts_for_from(kb, sig, i + 1)[a]);
                assert(ts[b] == spec_facts_for_from(kb, sig, i + 1)[b]);
            }
            assert forall|a: int| 0 <= a < ts.len() implies (#[trigger] ts[a]).len() == sig.1 by {
                assert(ts[a] == spec_facts_for_from(kb, sig, i + 1)[a]);
            }
        }
    }
}

/// When no tuple from position `i` onward aligns with the ground goal, the
/// fact phase from `i` yields nothing.
proof fn lemma_solve_facts_none(goal_args: Seq<TermV>, tuples: Seq<Seq<Seq<char>>>, i: int)
    requires
        forall|k: int| i <= k < tuples.len() ==> spec_instantiate_fact(
            goal_args,
            #[trigger] tuples[k],
        ) is None,
    ensures
        spec_solve_facts_from(goal_args, tuples, i) == Seq::<Seq<(Seq<char>, Seq<char>)>>::empty(),
    decreases tuples.len() - i,
{
    if 0 <= i < tuples.len() {
        lemma_solve_facts_none(goal_args, tuples, i + 1);
        assert(spec_solve_facts_from(goal_args, tuples, i) =~= Seq::<
            Seq<(Seq<char>, Seq<char>)>,
        >::empty());
    } else {
    }
}

/// When exactly one tuple from position `i` onward is the ground goal's
/// own tuple, the fact phase from `i` yields exactly one answer: the empty
/// substitution.
proof fn lemma_solve_facts_one(
    goal: LiteralV,
    tuples: Seq<Seq<Seq<char>>>,
    i: int,
    k0: int,
)
    requires
        goal.is_ground(),
        0 <= i <= k0 < tuples.len(),
        forall|a: int| 0 <= a < tuples.len() ==> (#[trigger] tuples[a]).len() == goal.args.len(),
        tuples[k0] == goal.args.map_values(|t: TermV| t.name_of()),
        forall|a: int| 0 <= a < tuples.len() && a != k0 ==> #[trigger] tuples[a]
            != goal.args.map_values(|t: TermV| t.name_of()),
    ensures
        spec_solve_facts_from(goal.args, tuples, i) == seq![
            Seq::<(Seq<char>, Seq<char>)>::empty(),
        ],
    decreases tuples.len() - i,
{
    if i == k0 {
        lemma_instantiate_ground(goal, tuples[k0]);
        assert forall|k: int| i + 1 <= k < tuples.len() implies spec_instantiate_fact(
            goal.args,
            #[trigger] tuples[k],
        ) is None by {
            lemma_instantiate_ground(goal, tuples[k]);
        }
        lemma_solve_facts_none(goal.args, tuples, i + 1);
        assert(spec_solve_facts_from(goal.args, tuples, i) =~= seq![
            Seq::<(Seq<char>, Seq<char>)>::empty(),
        ]);
    } else {
        lemma_instantiate_ground(goal, tuples[i]);
        lemma_solve_facts_one(goal, tuples, i + 1, k0);
        assert(spec_solve_facts_from(goal.args, tuples, i) =~= seq![
            Seq::<(Seq<char>, Seq<char>)>::empty(),
        ]);
    }
}

/// Solving a goal whose signature has no rules yields the fact-phase
/// answers alone.
proof fn lemma_solve_no_rules(kb: KbV, goal: LiteralV, stack: Seq<KeyV>, ctr: u64, fuel: u64)
    requires
        spec_rules_for(kb, goal.sig()) == Seq::<ClauseV>::empty(),
    ensures
        spec_solve_goal(kb, goal, stack, ctr, fuel).0 == spec_solve_facts(kb, goal),
{
    let rules = spec_rules_for(kb, goal.sig());
    assert(spec_solve_rules_from(kb, goal, rules, 0, stack, ctr, fuel).0 =~= Seq::<
        Seq<(Seq<char>, Seq<char>)>,
    >::empty());
    assert(spec_solve_goal(kb, goal, stack, ctr, fuel).0 =~= spec_solve_facts(kb, goal));
}

/// Fact round-trip: asserting the fact clause built from a ground literal
/// and then querying that literal yields exactly one answer, the empty
/// substitution, whenever the literal's signature has no rules.
pub proof fn lemma_fact_round_trip(kb: KbV, goal: LiteralV, fuel: u64)
    requires
        kb_wf(kb),
        goal.is_ground(),
        spec_rules_for(kb, goal.sig()) == Seq::<ClauseV>::empty(),
    ensures
        spec_solve(
            spec_assert(kb, ClauseV { head: goal, body: Seq::empty() }),
            goal,
            fuel,
        ) == seq![Seq::<(Seq<char>, Seq<char>)>::empty()],
{
    let c = ClauseV { head: goal, body: Seq::empty() };
    let t = goal.args.map_values(|t: TermV| t.name_of());
    assert(c.fact_tuple() == Some(t));
    assert(t.len() == goal.args.len());
    let kb2 = spec_assert(kb, c);
    assert(kb2 == KbV { facts: spec_add_fact_from(kb.facts, goal.sig(), t, 0), rules: kb.rules });
    lemma_facts_for_after_add(kb, goal.sig(), t, 0);
    let cur = spec_facts_for(kb, goal.sig());
    let ft = spec_facts_for(kb2, goal.sig());
    lemma_facts_for_wf(kb, goal.sig(), 0);
    lemma_rules_for_same(kb, kb2, goal.sig(), 0);
    lemma_solve_no_rules(kb2, goal, seq![crate::resolve::spec_goal_key(goal)], 0, fuel);
    if cur.contains(t) {
        let k0 = choose|k: int| 0 <= k < cur.len() && cur[k] == t;
        assert(ft == cur);
        lemma_solve_facts_one(goal, ft, 0, k0);
    } else {
        assert(ft == cur.push(t));
        let k0 = ft.len() - 1;
        assert(ft[k0] == t);
        assert forall|a: int| 0 <= a < ft.len() && a != k0 implies #[trigger] ft[a] != t by {
            assert(ft[a] == cur[a]);
            if cur[a] == t {
                assert(cur.contains(t));
            }
        }
        lemma_solve_facts_one(goal, ft, 0, k0);
    }
}

/// Retracting touches no fact entry before the scan position, and keeps
/// the index's length and every other entry.
proof fn lemma_retract_fact_prefix(
    entries: Seq<FactsEntryV>,
    sig: (Seq<char>, nat),
    t: Seq<Seq<char>>,
    i: int,
)
    requires
        0 <= i,
    ensures
        spec_retract_fact_from(entries, sig, t, i) matches Some(f2) ==> f2.len() == entries.len()
            && (forall|k: int| 0 <= k < i ==> f2[k] == entries[k]),
    decreases entries.len() - i,
{
    if 0 <= i < entries.len() {
        if entries[i].name == sig.0 && entries[i].arity == sig.1 {
        } else {
            lemma_retract_fact_prefix(entries, sig, t, i + 1);
        }
    }
}

/// Removing a tuple that occurs nowhere from position `j` onward fails.
proof fn lemma_remove_tuple_none(tuples: Seq<Seq<Seq<char>>>, t: Seq<Seq<char>>, j: int)
    requires
        forall|k: int| j <= k < tuples.len() ==> #[trigger] tuples[k] != t,
    ensures
        spec_remove_tuple_from(tuples, t, j) is None,
    decreases tuples.len() - j,
{
    if 0 <= j < tuples.len() {
        lemma_remove_tuple_none(tuples, t, j + 1);
    }
}

/// Removing a tuple whose only occurrence is at `k0` yields the list with
/// position `k0` removed.
proof fn lemma_remove_tuple_one(tuples: Seq<Seq<Seq<char>>>, t: Seq<Seq<char>>, j: int, k0: int)
    requires
        0 <= j <= k0 < tuples.len(),
        tuples[k0] == t,
        forall|k: int| 0 <= k < tuples.len() && k != k0 ==> #[trigger] tuples[k] != t,
    ensures
        spec_remove_tuple_from(tuples, t, j) == Some(tuples.remove(k0)),
    decreases tuples.len() - j,
{
    if j < k0 {
        lemma_remove_tuple_one(tuples, t, j + 1, k0);
    }
}

/// After retracting tuple `t` under `sig` from the entry that stores it,
/// the tuples stored for `sig` are the old ones with the first occurrence
/// of `t` removed.
proof fn lemma_facts_for_after_retract(
    kb: KbV,
    sig: (Seq<char>, nat),
    t: Seq<Seq<char>>,
    i: int,
)
    requires
        0 <= i,
    ensures
        ({
            let cur = spec_facts_for_from(kb, sig, i);
            match spec_remove_tuple_from(cur, t, 0) {
                Some(ts) => spec_retract_fact_from(kb.facts, sig, t, i) matches Some(f2)
                    && spec_facts_for_from(KbV { facts: f2, rules: kb.rules }, sig, i) == ts,
                None => spec_retract_fact_from(kb.facts, sig, t, i) is None,
            }
        }),
    decreases kb.facts.len() - i,
{
    let cur = spec_facts_for_from(kb, sig, i);
    if i >= kb.facts.len() {
        assert(cur =~= Seq::<Seq<Seq<char>>>::empty());
        assert(spec_remove_tuple_from(cur, t, 0) is None);
    } else if kb.facts[i].name == sig.0 && kb.facts[i].arity == sig.1 {
        assert(cur == kb.facts[i].tuples);
        match spec_remove_tuple_from(cur, t, 0) {
            Some(ts) => {
                let f2 = kb.facts.update(
                    i,
                    FactsEntryV { name: kb.facts[i].name, arity: kb.facts[i].arity, tuples: ts },
                );
                assert(spec_retract_fact_from(kb.facts, sig, t, i) == Some(f2));
                assert(f2[i].name == sig.0 && f2[i].arity == sig.1);
                assert(spec_facts_for_from(KbV { facts: f2, rules: kb.rules }, sig, i) == ts);
            },
            None => {},
        }
    } else {
        lemma_facts_for_after_retract(kb, sig, t, i + 1);
        match spec_remove_tuple_from(cur, t, 0) {
            Some(ts) => {
                let f2 = spec_retract_fact_from(kb.facts, sig, t, i + 1).unwrap();
                lemma_retract_fact_prefix(kb.facts, sig, t, i + 1);
                assert(f2[i] == kb.facts[i]);
                assert(spec_facts_for_from(KbV { facts: f2, rules: kb.rules }, sig, i)
                    == spec_facts_for_from(KbV { facts: f2, rules: kb.rules }, sig, i + 1));
            },
            None => {},
        }
    }
}

/// Retract-then-query: asserting the fact clause built from a ground
/// literal, then retracting it, succeeds and leaves a store in which
/// querying the literal yields no answers, whenever the literal's
/// signature has no rules.
pub proof fn lemma_retract_then_query(kb: KbV, goal: LiteralV, fuel: u64)
    requires
        kb_wf(kb),
        goal.is_ground(),
        spec_rules_for(kb, goal.sig()) == Seq::<ClauseV>::empty(),
    ensures
        ({
            let c = ClauseV { head: goal, body: Seq::empty() };
            let kb2 = spec_assert(kb, c);
            &&& spec_retract(kb2, c) is Some
            &&& spec_solve(spec_retract(kb2, c).unwrap(), goal, fuel) == Seq::<
                Seq<(Seq<char>, Seq<char>)>,
            >::empty()
        }),
{
    let c = ClauseV { head: goal, body: Seq::empty() };
    let t = goal.args.map_values(|t: TermV| t.name_of());
    assert(c.fact_tuple() == Some(t));
    let kb2 = spec_assert(kb, c);
    lemma_facts_for_after_add(kb, goal.sig(), t, 0);
    let cur = spec_facts_for(kb, goal.sig());
    let ft = spec_facts_for(kb2, goal.sig());
    lemma_facts_for_wf(kb, goal.sig(), 0);
    let k0: int = if cur.contains(t) {
        choose|k: int| 0 <= k < cur.len() && cur[k] == t
    } else {
        ft.len() - 1
    };
    assert(ft[k0] == t);
    assert forall|a: int| 0 <= a < ft.len() && a != k0 implies #[trigger] ft[a] != t by {
        if cur.contains(t) {
        } else {
            assert(ft[a] == cur[a]);
            if cur[a] == t {
                assert(cur.contains(t));
            }
        }
    }
    lemma_remove_tuple_one(ft, t, 0, k0);
    lemma_facts_for_after_retract(kb2, goal.sig(), t, 0);
    let kb3 = spec_retract(kb2, c).unwrap();
    assert(spec_facts_for(kb3, goal.sig()) == ft.remove(k0));
    assert forall|a: int| 0 <= a < ft.remove(k0).len() implies #[trigger] ft.remove(k0)[a]
        != t by {
        if a < k0 {
            assert(ft.remove(k0)[a] == ft[a]);
        } else {
            assert(ft.remove(k0)[a] == ft[a + 1]);
        }
    }
    assert forall|k: int| 0 <= k < ft.remove(k0).len() implies spec_instantiate_fact(
        goal.args,
        #[trigger] ft.remove(k0)[k],
    ) is None by {
        assert(ft.remove(k0)[k].len() == goal.args.len());
        lemma_instantiate_ground(goal, ft.remove(k0)[k]);
    }
    lemma_solve_facts_none(goal.args, ft.remove(k0), 0);
    lemma_rules_for_same(kb, kb2, goal.sig(), 0);
    lemma_rules_for_same(kb2, kb3, goal.sig(), 0);
    lemma_solve_no_rules(kb3, goal, seq![crate::resolve::spec_goal_key(goal)], 0, fuel);
}

/// Removing a clause that occurs nowhere from position `j` onward fails.
proof fn lemma_remove_clause_none(clauses: Seq<ClauseV>, c: ClauseV, j: int)
    requires
        forall|k: int| j <= k < clauses.len() ==> #[trigger] clauses[k] != c,
    ensures
        spec_remove_clause_from(clauses, c, j) is None,
    decreases clauses.len() - j,
{
    if 0 <= j < clauses.len() {
        lemma_remove_clause_none(clauses, c, j + 1);
    }
}

/// A failed fact retraction scan: no matching entry holds the tuple.
proof fn lemma_retract_fact_miss(kb: KbV, sig: (Seq<char>, nat), t: Seq<Seq<char>>, i: int)
    requires
        0 <= i,
        !spec_facts_for_from(kb, sig, i).contains(t),
    ensures
        spec_retract_fact_from(kb.facts, sig, t, i) is None,
    decreases kb.facts.len() - i,
{
    if i < kb.facts.len() {
        if kb.facts[i].name == sig.0 && kb.facts[i].arity == sig.1 {
            assert forall|k: int| 0 <= k < kb.facts[i].tuples.len() implies
                #[trigger] kb.facts[i].tuples[k] != t by {
                if kb.facts[i].tuples[k] == t {
                    assert(spec_facts_for_from(kb, sig, i).contains(t));
                }
            }
            lemma_remove_tuple_none(kb.facts[i].tuples, t, 0);
        } else {
            lemma_retract_fact_miss(kb, sig, t, i + 1);
        }
    }
}

/// A failed rule retraction scan: no matching entry holds the clause.
proof fn lemma_retract_rule_miss(kb: KbV, sig: (Seq<char>, nat), c: ClauseV, i: int)
    requires
        0 <= i,
        !spec_rules_for_from(kb, sig, i).contains(c),
    ensures
        crate::naive::spec_retract_rule_from(kb.rules, sig, c, i) is None,
    decreases kb.rules.len() - i,
{
    if i < kb.rules.len() {
        if kb.rules[i].name == sig.0 && kb.rules[i].arity == sig.1 {
            assert forall|k: int| 0 <= k < kb.rules[i].clauses.len() implies
                #[trigger] kb.rules[i].clauses[k] != c by {
                if kb.rules[i].clauses[k] == c {
                    assert(spec_rules_for_from(kb, sig, i).contains(c));
                }
            }
            lemma_remove_clause_none(kb.rules[i].clauses, c, 0);
        } else {
            lemma_retract_rule_miss(kb, sig, c, i + 1);
        }
    }
}

/// Retract-miss: retracting a clause that is not in the store fails; by
/// the retraction's own contract the failed call reports the clause in its
/// error and leaves the store exactly as it was.
pub proof fn lemma_retract_miss(kb: KbV, c: ClauseV)
    requires
        match c.fact_tuple() {
            Some(t) => !spec_facts_for(kb, c.head.sig()).contains(t),
            None => !spec_rules_for(kb, c.head.sig()).contains(c),
        },
    ensures
        spec_retract(kb, c) is None,
{
    match c.fact_tuple() {
        Some(t) => {
            lemma_retract_fact_miss(kb, c.head.sig(), t, 0);
        },
        None => {
            lemma_retract_rule_miss(kb, c.head.sig(), c, 0);
        },
    }
}

/// Unification conflict: matching `[X, X]` on the left against two
/// different constants on the right fails as a whole.
pub proof fn lemma_match_conflict(x: Seq<char>, a: Seq<char>, b: Seq<char>)
    requires
        a != b,
    ensures
        spec_pattern_match(seq![TermV::Var(x), TermV::Var(x)], seq![TermV::Name(a), TermV::Name(b)])
            is None,
{
    let l0 = seq![TermV::Var(x), TermV::Var(x)];
    let r0 = seq![TermV::Name(a), TermV::Name(b)];
    let l1 = spec_subst_terms(l0, x, a);
    assert(l1 =~= seq![TermV::Name(a), TermV::Name(a)]);
    assert(crate::bindings::spec_lookup(Seq::empty(), x) is None);
    assert(spec_pattern_match(l0, r0) == crate::pattern_match::spec_match_from(
        l1,
        r0,
        1,
        Seq::empty().push((x, a)),
        Seq::empty(),
    ));
}

/// Variable against variable: matching `[X]` against `[Y]` succeeds with
/// both substitutions empty, because the two sides' scopes are disjoint
/// and no cross-scope binding is recorded.
pub proof fn lemma_match_variable_variable(x: Seq<char>, y: Seq<char>)
    ensures
        spec_pattern_match(seq![TermV::Var(x)], seq![TermV::Var(y)]) == Some(
            (
                Seq::<(Seq<char>, Seq<char>)>::empty(),
                Seq::<(Seq<char>, Seq<char>)>::empty(),
                seq![TermV::Var(x)],
                seq![TermV::Var(y)],
            ),
        ),
{
    let l = seq![TermV::Var(x)];
    let r = seq![TermV::Var(y)];
    let e = Seq::<(Seq<char>, Seq<char>)>::empty();
    assert(l[0] == TermV::Var(x));
    assert(r[0] == TermV::Var(y));
    assert(crate::pattern_match::spec_match_from(l, r, 1, e, e) == Some((e, e, l, r)));
    assert(spec_pattern_match(l, r) == crate::pattern_match::spec_match_from(l, r, 1, e, e));
}

/// When every character is an identifier character, the identifier scan
/// runs to the end of the text.
proof fn lemma_ident_end_all(s: Seq<char>, i: int)
    requires
        0 <= i <= s.len(),
        forall|j: int| 0 <= j < s.len() ==> crate::text::spec_is_ident_char(#[trigger] s[j]),
    ensures
        crate::parser::spec_ident_end(s, i) == s.len(),
    decreases s.len() - i,
{
    if i < s.len() {
        lemma_ident_end_all(s, i + 1);
    }
}

/// The hexadecimal digit character of a value reads back as that value.
proof fn lemma_hex_digit_val(v: int)
    requires
        0 <= v < 16,
    ensures
        crate::parser::spec_hex_val(crate::name::spec_hex_digit_char(v)) == v,
{
    if v < 10 {
        let c = ((48 + v) as u8) as char;
        vstd::utf8::char_u32_cast(c, (48 + v) as u32);
        assert(c as u32 == 48 + v);
    } else {
        let c = ((87 + v) as u8) as char;
        vstd::utf8::char_u32_cast(c, (87 + v) as u32);
        assert(c as u32 == 87 + v);
    }
}

/// Scanning the escaped form of a text, followed by a closing quote, reads
/// the original text back and stops after the quote.
proof fn lemma_unescape(d: Seq<char>, pos: int, s: Seq<char>)
    requires
        0 <= pos <= d.len(),
        d.subrange(pos, d.len() as int) == crate::name::spec_escape_chars(s) + seq!['"'],
    ensures
        crate::parser::spec_scan_string_body(d, pos) == Some((s, d.len() as int)),
    decreases s.len(),
{
    let suffix = d.subrange(pos, d.len() as int);
    if s.len() == 0 {
        assert(crate::name::spec_escape_chars(s) =~= Seq::<char>::empty());
        assert(suffix =~= seq!['"']);
        assert(d[pos] == suffix[0]);
    } else {
        let c = s[0];
        let rest = s.skip(1);
        let esc = crate::name::spec_escape_char(c);
        assert(crate::name::spec_escape_chars(s) == esc + crate::name::spec_escape_chars(rest));
        assert(suffix.len() == esc.len() + crate::name::spec_escape_chars(rest).len() + 1);
        assert forall|k: int| 0 <= k < esc.len() implies d[pos + k] == esc[k] by {
            assert(suffix[k] == esc[k]);
        }
        let pos2 = pos + esc.len();
        assert(suffix =~= esc + (crate::name::spec_escape_chars(rest) + seq!['"']));
        assert forall|k: int| 0 <= k < d.len() - pos2 implies d.subrange(pos2, d.len() as int)[k]
            == (crate::name::spec_escape_chars(rest) + seq!['"'])[k] by {
            assert(d.subrange(pos2, d.len() as int)[k] == d[pos2 + k]);
            assert(d[pos2 + k] == suffix[esc.len() + k]);
            assert(suffix[esc.len() + k] == (crate::name::spec_escape_chars(rest)
                + seq!['"'])[k]);
        }
        assert(d.subrange(pos2, d.len() as int) =~= crate::name::spec_escape_chars(rest)
            + seq!['"']);
        lemma_unescape(d, pos2, rest);
        if c == '"' || c == '\\' || c == '\n' || c == '\r' || c == '\t' {
            assert(d[pos] == '\\');
            assert(crate::parser::spec_scan_escape(d, pos + 1) == Some((c, pos + 2)));
            assert(crate::parser::spec_scan_string_body(d, pos) == Some(
                (seq![c] + rest, d.len() as int),
            ));
            assert(seq![c] + rest =~= s);
        } else if (c as u32) < 32 {
            let n = (c as u32) as int;
            assert(d[pos] == '\\');
            assert(d[pos + 1] == 'x');
            assert(d[pos + 2] == crate::name::spec_hex_digit_char(n / 16));
            assert(d[pos + 3] == crate::name::spec_hex_digit_char(n % 16));
            lemma_hex_digit_val(n / 16);
            lemma_hex_digit_val(n % 16);
            assert(crate::parser::spec_hex_run(d, pos + 4, 0) == 0);
            assert(crate::parser::spec_hex_run(d, pos + 3, 1) == n % 16);
            assert(crate::parser::spec_pow16(1) == 16);
            assert(crate::parser::spec_hex_run(d, pos + 2, 2) == (n / 16) * 16 + n % 16);
            assert(crate::parser::spec_hex_run(d, pos + 2, 2) == n);
            assert(crate::parser::spec_valid_scalar(n));
            vstd::utf8::char_u32_cast(c, c as u32);
            assert(crate::parser::spec_char_of(n) == c);
            assert(crate::parser::spec_scan_escape(d, pos + 1) == Some((c, pos + 4)));
            assert(crate::parser::spec_scan_string_body(d, pos) == Some(
                (seq![c] + rest, d.len() as int),
            ));
            assert(seq![c] + rest =~= s);
        } else {
            assert(esc =~= seq![c]);
            assert(d[pos + 0] == esc[0]);
            assert(d[pos] == c);
            assert(d[pos] != '"' && d[pos] != '\\');
            assert(crate::parser::spec_scan_string_body(d, pos) == Some(
                (seq![c] + rest, d.len() as int),
            ));
            assert(seq![c] + rest =~= s);
        }
    }
}

/// Canonical display round-trip: printing a name and re-parsing the
/// printed text yields the same name, with the whole text consumed; names
/// that are not bare identifiers come back through the quoted-string
/// syntax.
pub proof fn lemma_display_round_trip(s: Seq<char>)
    requires
        crate::name::spec_name_valid(s),
    ensures
        crate::parser::spec_parse_name(crate::name::spec_display_name(s), 0) == Some(
            (s, crate::name::spec_display_name(s).len() as int),
        ),
{
    let d = crate::name::spec_display_name(s);
    if forall|i: int| 0 <= i < s.len() ==> crate::text::spec_is_ident_char(s[i]) {
        assert(d == s);
        assert(!crate::text::spec_is_ident_char('"'));
        assert(crate::text::spec_is_ident_char(s[0]));
        assert(s[0] != '"');
        assert(!crate::text::spec_is_var_start_char(s[0]));
        lemma_ident_end_all(s, 0);
        assert(crate::parser::spec_ident_end(s, 0) == s.len());
        assert(s.subrange(0, s.len() as int) =~= s);
    } else {
        assert(d == seq!['"'] + crate::name::spec_escape_chars(s) + seq!['"']);
        assert(d[0] == '"');
        assert(d.subrange(1, d.len() as int) =~= crate::name::spec_escape_chars(s) + seq!['"']);
        lemma_unescape(d, 1, s);
        assert(crate::parser::spec_scan_string(d, 0) == Some((s, d.len() as int)));
    }
}

/// Unknown predicate: querying a literal whose signature has neither facts
/// nor rules yields the empty answer sequence, not an error.
pub proof fn lemma_unknown_predicate(kb: KbV, goal: LiteralV, fuel: u64)
    requires
        spec_facts_for(kb, goal.sig()) == Seq::<Seq<Seq<char>>>::empty(),
        spec_rules_for(kb, goal.sig()) == Seq::<ClauseV>::empty(),
    ensures
        spec_solve(kb, goal, fuel) == Seq::<Seq<(Seq<char>, Seq<char>)>>::empty(),
{
    lemma_solve_no_rules(kb, goal, seq![crate::resolve::spec_goal_key(goal)], 0, fuel);
    lemma_solve_facts_none(goal.args, spec_facts_for(kb, goal.sig()), 0);
}

} // verus!
