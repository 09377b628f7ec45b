//! The depth-first resolver: fresh renaming of rule activations, the
//! cycle-guard key, and the goal-solving search.

use vstd::prelude::*;

use crate::ast::Literal;
use crate::ast::LiteralV;
use crate::ast::Clause;
use crate::ast::ClauseV;
use crate::ast::Term;
use crate::ast::TermV;
use crate::bindings::spec_lookup;
use crate::name::Name;
use crate::text::spec_decimal;
use crate::text::push_decimal;
use crate::text::spec_is_var_char;
use crate::text::spec_is_var_start_char;
use crate::variable::Variable;
use crate::variable::spec_variable_valid;

verus! {

/// The name of the fresh variable with index `ctr`: an underscore followed
/// by the decimal form of `ctr`.
pub open spec fn spec_fresh_name(ctr: u64) -> Seq<char> {
    seq!['_'] + spec_decimal(ctr as int)
}

/// The counter after drawing one fresh variable; it sticks at the top of
/// its range rather than wrapping.
pub open spec fn spec_bump(ctr: u64) -> u64 {
    if ctr == u64::MAX {
        ctr
    } else {
        (ctr + 1) as u64
    }
}

/// Every character of the decimal form of `n` is a digit.
proof fn lemma_decimal_digits(n: int)
    requires
        n >= 0,
    ensures
        forall|i: int| 0 <= i < spec_decimal(n).len() ==> '0' <= #[trigger] spec_decimal(n)[i]
            && spec_decimal(n)[i] <= '9',
    decreases n,
{
    if n >= 10 {
        lemma_decimal_digits(n / 10);
        assert forall|i: int| 0 <= i < spec_decimal(n).len() implies '0'
            <= #[trigger] spec_decimal(n)[i] && spec_decimal(n)[i] <= '9' by {
            if i < spec_decimal(n / 10).len() {
                assert(spec_decimal(n)[i] == spec_decimal(n / 10)[i]);
            }
        }
    }
}

/// The fresh variable with index `ctr`.
pub fn fresh_variable(ctr: u64) -> (r: Variable)
    ensures
        r@ == spec_fresh_name(ctr),
{
    let mut text = String::new();
    text.push('_');
    push_decimal(ctr, &mut text);
    proof {
        lemma_decimal_digits(ctr as int);
        assert(text@ =~= spec_fresh_name(ctr));
        assert(spec_is_var_start_char(text@[0]));
        assert forall|i: int| 1 <= i < text@.len() implies spec_is_var_char(
            #[trigger] text@[i],
        ) by {
            assert(text@[i] == spec_decimal(ctr as int)[i - 1]);
        }
        assert(spec_variable_valid(text@));
    }
    Variable::from_text(text)
}

/// One renaming step: a constant stays itself; a variable maps to the
/// fresh variable it was already given, or to the next fresh one.
pub open spec fn spec_rename_term(t: TermV, map: Seq<(Seq<char>, Seq<char>)>, ctr: u64) -> (
    TermV,
    Seq<(Seq<char>, Seq<char>)>,
    u64,
) {
    match t {
        TermV::Name(_) => (t, map, ctr),
        TermV::Var(v) => match spec_lookup(map, v) {
            Some(f) => (TermV::Var(f), map, ctr),
            None => (TermV::Var(spec_fresh_name(ctr)), map.push((v, spec_fresh_name(ctr))), spec_bump(ctr)),
        },
    }
}

/// The renaming of `ts` from position `i` onward, threading the renaming
/// map and the counter left to right.
pub open spec fn spec_rename_terms_from(
    ts: Seq<TermV>,
    i: int,
    map: Seq<(Seq<char>, Seq<char>)>,
    ctr: u64,
) -> (Seq<TermV>, Seq<(Seq<char>, Seq<char>)>, u64)
    decreases ts.len() - i,
{
    if i < 0 || i >= ts.len() {
        (Seq::empty(), map, ctr)
    } else {
        let (t2, map2, ctr2) = spec_rename_term(ts[i], map, ctr);
        let (rest, map3, ctr3) = spec_rename_terms_from(ts, i + 1, map2, ctr2);
        (seq![t2] + rest, map3, ctr3)
    }
}

/// The renaming of the body literals of a clause from position `i` onward.
pub open spec fn spec_rename_literals_from(
    ls: Seq<LiteralV>,
    i: int,
    map: Seq<(Seq<char>, Seq<char>)>,
    ctr: u64,
) -> (Seq<LiteralV>, Seq<(Seq<char>, Seq<char>)>, u64)
    decreases ls.len() - i,
{
    if i < 0 || i >= ls.len() {
        (Seq::empty(), map, ctr)
    } else {
        let (args2, map2, ctr2) = spec_rename_terms_from(ls[i].args, 0, map, ctr);
        let (rest, map3, ctr3) = spec_rename_literals_from(ls, i + 1, map2, ctr2);
        (seq![LiteralV { name: ls[i].name, args: args2 }] + rest, map3, ctr3)
    }
}

/// The fresh instantiation of a rule: every variable is renamed to a fresh
/// one, two occurrences of one variable staying one variable, head first
/// and then the body left to right.
pub open spec fn spec_rename_clause(c: ClauseV, ctr: u64) -> (ClauseV, u64) {
    let (head_args, map1, ctr1) = spec_rename_terms_from(c.head.args, 0, Seq::empty(), ctr);
    let (body, map2, ctr2) = spec_rename_literals_from(c.body, 0, map1, ctr1);
    (ClauseV { head: LiteralV { name: c.head.name, args: head_args }, body }, ctr2)
}

/// The fresh variable already chosen for `v`, if any.
fn rename_lookup(map: &Vec<(Variable, Variable)>, v: &Variable) -> (r: Option<Variable>)
    ensures
        match spec_lookup(map.deep_view(), v@) {
            Some(f) => r matches Some(x) && x@ == f,
            None => r is None,
        },
{
    let mut i: usize = 0;
    while i < map.len()
        invariant
            i <= map@.len(),
            spec_lookup(map.deep_view(), v@) == crate::bindings::spec_lookup_from(
                map.deep_view(),
                v@,
                i as int,
            ),
        decreases map@.len() - i,
    {
        if map[i].0 == *v {
            return Some(map[i].1.clone());
        }
        i = i + 1;
    }
    None
}

/// Renames the terms of `ts`, threading the renaming map and counter.
fn rename_terms(ts: &Vec<Term>, map: &mut Vec<(Variable, Variable)>, ctr: u64) -> (r: (
    Vec<Term>,
    u64,
))
    ensures
        (r.0.deep_view(), final(map).deep_view(), r.1) == spec_rename_terms_from(
            ts.deep_view(),
            0,
            old(map).deep_view(),
            ctr,
        ),
{
    let mut out: Vec<Term> = Vec::new();
    let mut cur = ctr;
    let mut i: usize = 0;
    while i < ts.len()
        invariant
            i <= ts@.len(),
            out@.len() == i,
            spec_rename_terms_from(ts.deep_view(), 0, old(map).deep_view(), ctr) == ({
                let (rest, m3, c3) = spec_rename_terms_from(
                    ts.deep_view(),
                    i as int,
                    map.deep_view(),
                    cur,
                );
                (out.deep_view() + rest, m3, c3)
            }),
        decreases ts@.len() - i,
    {
        let ghost pre = (out.deep_view(), map.deep_view(), cur);
        match &ts[i] {
            Term::Name(_) => {
                out.push(ts[i].clone());
            },
            Term::Var(v) => {
                match rename_lookup(map, v) {
                    Some(f) => {
                        out.push(Term::Var(f));
                    },
                    None => {
                        let f = fresh_variable(cur);
                        map.push((v.clone(), f.clone()));
                        out.push(Term::Var(f));
                        cur = if cur == u64::MAX {
                            cur
                        } else {
                            cur + 1
                        };
                    },
                }
            },
        }
        i = i + 1;
        proof {
            let (t2, m2, c2) = spec_rename_term(ts.deep_view()[i - 1], pre.1, pre.2);
            assert(out.deep_view() =~= pre.0.push(t2));
            assert(map.deep_view() =~= m2);
            assert(cur == c2);
            let (rest_new, m3n, c3n) = spec_rename_terms_from(
                ts.deep_view(),
                i as int,
                map.deep_view(),
                cur,
            );
            assert(pre.0.push(t2) + rest_new =~= pre.0 + (seq![t2] + rest_new));
        }
    }
    proof {
        let (rest, m3, c3) = spec_rename_terms_from(
            ts.deep_view(),
            ts.deep_view().len() as int,
            map.deep_view(),
            cur,
        );
        assert(out.deep_view() + rest =~= out.deep_view());
    }
    (out, cur)
}

/// The fresh instantiation of a rule, renaming every variable to a fresh
/// one while preserving co-occurrence.
pub fn rename_clause(c: &Clause, ctr: u64) -> (r: (Clause, u64))
    ensures
        (r.0.deep_view(), r.1) == spec_rename_clause(c.deep_view(), ctr),
{
    let mut map: Vec<(Variable, Variable)> = Vec::new();
    proof {
        assert(map.deep_view() =~= Seq::<(Seq<char>, Seq<char>)>::empty());
    }
    let (head_args, ctr1) = rename_terms(&c.0.1, &mut map, ctr);
    let mut body: Vec<Literal> = Vec::new();
    let mut ctr2 = ctr1;
    let mut i: usize = 0;
    while i < c.1.len()
        invariant
            i <= c.1@.len(),
            body@.len() == i,
            ({
                let (head_args0, map1, ctr1b) = spec_rename_terms_from(
                    c.deep_view().head.args,
                    0,
                    Seq::empty(),
                    ctr,
                );
                spec_rename_literals_from(c.deep_view().body, 0, map1, ctr1b) == ({
                    let (rest, m3, c3) = spec_rename_literals_from(
                        c.deep_view().body,
                        i as int,
                        map.deep_view(),
                        ctr2,
                    );
                    (body.deep_view() + rest, m3, c3)
                })
            }),
            head_args.deep_view() == spec_rename_terms_from(
                c.deep_view().head.args,
                0,
                Seq::empty(),
                ctr,
            ).0,
        decreases c.1@.len() - i,
    {
        let ghost pre = (body.deep_view(), map.deep_view(), ctr2);
        let (args2, ctr3) = rename_terms(&c.1[i].1, &mut map, ctr2);
        body.push(Literal(c.1[i].0.clone(), args2));
        ctr2 = ctr3;
        i = i + 1;
        proof {
            let (args2s, m2, c2) = spec_rename_terms_from(
                c.deep_view().body[i - 1].args,
                0,
                pre.1,
                pre.2,
            );
            assert(body.deep_view() =~= pre.0.push(LiteralV {
                name: c.deep_view().body[i - 1].name,
                args: args2s,
            }));
            let (rest_new, m3n, c3n) = spec_rename_literals_from(
                c.deep_view().body,
                i as int,
                map.deep_view(),
                ctr2,
            );
            assert(pre.0.push(LiteralV { name: c.deep_view().body[i - 1].name, args: args2s })
                + rest_new =~= pre.0 + (seq![LiteralV {
                name: c.deep_view().body[i - 1].name,
                args: args2s,
            }] + rest_new));
        }
    }
    proof {
        let (head_args0, map1, ctr1b) = spec_rename_terms_from(
            c.deep_view().head.args,
            0,
            Seq::empty(),
            ctr,
        );
        let (rest, m3, c3) = spec_rename_literals_from(
            c.deep_view().body,
            c.deep_view().body.len() as int,
            map.deep_view(),
            ctr2,
        );
        assert(body.deep_view() + rest =~= body.deep_view());
    }
    let r = Clause(Literal(c.0.0.clone(), head_args), body);
    proof {
        assert(r.deep_view() =~~= spec_rename_clause(c.deep_view(), ctr).0);
    }
    (r, ctr2)
}

/// The first position at or after `j` whose term is the variable `v`.
pub open spec fn spec_first_occ(args: Seq<TermV>, v: Seq<char>, j: int) -> int
    decreases args.len() - j,
{
    if j < 0 || j >= args.len() {
        j
    } else if args[j] == TermV::Var(v) {
        j
    } else {
        spec_first_occ(args, v, j + 1)
    }
}

/// The canonical argument pattern used by the cycle guard: constants stay
/// themselves, and each variable is replaced by a placeholder named after
/// the position of its first occurrence, so that two patterns that differ
/// only in variable names compare equal.
pub open spec fn spec_canon(args: Seq<TermV>) -> Seq<TermV> {
    Seq::new(
        args.len(),
        |i: int|
            match args[i] {
                TermV::Name(n) => TermV::Name(n),
                TermV::Var(v) => TermV::Var(spec_fresh_name(spec_first_occ(args, v, 0) as u64)),
            },
    )
}

/// The mathematical value of a cycle-guard key: a predicate signature
/// together with its canonical argument pattern.
#[verifier::ext_equal]
pub struct KeyV {
    pub name: Seq<char>,
    pub args: Seq<TermV>,
}

/// A cycle-guard key: the signature and canonical argument pattern of a
/// subgoal that is being solved on the current search branch.
pub struct CycleKey {
    name: Name,
    args: Vec<Term>,
}

impl DeepView for CycleKey {
    type V = KeyV;

    closed spec fn deep_view(&self) -> KeyV {
        KeyV { name: self.name@, args: self.args.deep_view() }
    }
}

/// The position of the first occurrence of variable `v` in `args`, which
/// must occur there, at position `at` at the latest.
fn first_occurrence(args: &Vec<Term>, v: &Variable, at: usize) -> (r: usize)
    requires
        at < args@.len(),
        args@[at as int].deep_view() == TermV::Var(v@),
    ensures
        r as int == spec_first_occ(args.deep_view(), v@, 0),
        r <= at,
{
    let mut j: usize = 0;
    while j < at
        invariant
            j <= at < args@.len(),
            args@[at as int].deep_view() == TermV::Var(v@),
            spec_first_occ(args.deep_view(), v@, 0) == spec_first_occ(args.deep_view(), v@, j as int),
        decreases at - j,
    {
        let found = match &args[j] {
            Term::Var(w) => w == v,
            Term::Name(_) => false,
        };
        if found {
            return j;
        }
        j = j + 1;
    }
    j
}

/// The canonical argument pattern of `args`.
pub fn canonical_args(args: &Vec<Term>) -> (r: Vec<Term>)
    ensures
        r.deep_view() == spec_canon(args.deep_view()),
{
    let mut r: Vec<Term> = Vec::new();
    let mut i: usize = 0;
    while i < args.len()
        invariant
            i <= args@.len(),
            r@.len() == i,
            forall|j: int| 0 <= j < i ==> (#[trigger] r@[j]).deep_view()
                == spec_canon(args.deep_view())[j],
        decreases args@.len() - i,
    {
        match &args[i] {
            Term::Name(_) => {
                r.push(args[i].clone());
            },
            Term::Var(v) => {
                let v = v.clone();
                let j: usize = first_occurrence(args, &v, i);
                r.push(Term::Var(fresh_variable(j as u64)));
            },
        }
        i = i + 1;
    }
    proof {
        assert(r.deep_view() =~= spec_canon(args.deep_view()));
    }
    r
}

/// A copy of a cycle-guard stack.
fn clone_stack(stack: &Vec<CycleKey>) -> (r: Vec<CycleKey>)
    ensures
        r.deep_view() == stack.deep_view(),
{
    let mut r: Vec<CycleKey> = Vec::new();
    let mut i: usize = 0;
    while i < stack.len()
        invariant
            i <= stack@.len(),
            r@.len() == i,
            forall|j: int| 0 <= j < i ==> (#[trigger] r@[j]).deep_view()
                == stack@[j].deep_view(),
        decreases stack@.len() - i,
    {
        let k = &stack[i];
        r.push(CycleKey { name: k.name.clone(), args: crate::pattern_match::clone_terms(&k.args) });
        i = i + 1;
    }
    proof {
        assert(r.deep_view() =~= stack.deep_view());
    }
    r
}

/// Whether `key` is already on the stack.
fn stack_contains(stack: &Vec<CycleKey>, key: &CycleKey) -> (r: bool)
    ensures
        r == stack.deep_view().contains(key.deep_view()),
{
    let mut i: usize = 0;
    while i < stack.len()
        invariant
            i <= stack@.len(),
            forall|j: int| 0 <= j < i ==> stack.deep_view()[j] != key.deep_view(),
        decreases stack@.len() - i,
    {
        if stack[i].name == key.name && crate::ast::terms_eq(&stack[i].args, &key.args) {
            proof {
                assert(stack.deep_view()[i as int] =~= key.deep_view());
            }
            return true;
        }
        proof {
            assert(stack.deep_view()[i as int].name == stack@[i as int].deep_view().name);
            if stack.deep_view()[i as int] == key.deep_view() {
                assert(false);
            }
        }
        i = i + 1;
    }
    proof {
        if stack.deep_view().contains(key.deep_view()) {
            let j = choose|j: int|
                0 <= j < stack.deep_view().len() && stack.deep_view()[j] == key.deep_view();
            assert(false);
        }
    }
    false
}

/// The fact-phase answers for `goal`: every stored tuple, in store order,
/// that the goal's arguments align with contributes the goal-side bindings
/// of that alignment.
pub open spec fn spec_solve_facts_from(
    goal_args: Seq<TermV>,
    tuples: Seq<Seq<Seq<char>>>,
    i: int,
) -> Seq<Seq<(Seq<char>, Seq<char>)>>
    decreases tuples.len() - i,
{
    if i < 0 || i >= tuples.len() {
        Seq::empty()
    } else {
        match crate::ast::spec_instantiate_fact(goal_args, tuples[i]) {
            Some(b) => seq![b] + spec_solve_facts_from(goal_args, tuples, i + 1),
            None => spec_solve_facts_from(goal_args, tuples, i + 1),
        }
    }
}

/// The fact-phase answers for `goal` against the knowledge base.
pub open spec fn spec_solve_facts(kb: crate::naive::KbV, goal: LiteralV) -> Seq<
    Seq<(Seq<char>, Seq<char>)>,
> {
    spec_solve_facts_from(goal.args, crate::naive::spec_facts_for(kb, goal.sig()), 0)
}

/// The answers that the completed body substitutions `sigmas` yield, from
/// position `i` onward: each substitution instantiates the matched rule
/// head, and aligning the goal's arguments against that instantiated head
/// gives one answer, the goal-side bindings.
pub open spec fn spec_answers_from(
    sigmas: Seq<Seq<(Seq<char>, Seq<char>)>>,
    i: int,
    head2: Seq<TermV>,
    goal_args: Seq<TermV>,
) -> Seq<Seq<(Seq<char>, Seq<char>)>>
    decreases sigmas.len() - i,
{
    if i < 0 || i >= sigmas.len() {
        Seq::empty()
    } else {
        let final_head = crate::bindings::spec_apply(sigmas[i], head2);
        match crate::pattern_match::spec_pattern_match(final_head, goal_args) {
            Some(t) => seq![t.1] + spec_answers_from(sigmas, i + 1, head2, goal_args),
            None => spec_answers_from(sigmas, i + 1, head2, goal_args),
        }
    }
}

/// The answers for `goal`: the fact phase first, then every rule in store
/// order.
pub open spec fn spec_solve_goal(
    kb: crate::naive::KbV,
    goal: LiteralV,
    stack: Seq<KeyV>,
    ctr: u64,
    fuel: u64,
) -> (Seq<Seq<(Seq<char>, Seq<char>)>>, u64)
    decreases fuel, 4int, 0int, 0int, 0int,
{
    let facts_answers = spec_solve_facts(kb, goal);
    let rules = crate::naive::spec_rules_for(kb, goal.sig());
    let (rule_answers, ctr2) = spec_solve_rules_from(kb, goal, rules, 0, stack, ctr, fuel);
    (facts_answers + rule_answers, ctr2)
}

/// The answers that the rules from position `i` onward contribute, in
/// order.
pub open spec fn spec_solve_rules_from(
    kb: crate::naive::KbV,
    goal: LiteralV,
    rules: Seq<ClauseV>,
    i: int,
    stack: Seq<KeyV>,
    ctr: u64,
    fuel: u64,
) -> (Seq<Seq<(Seq<char>, Seq<char>)>>, u64)
    decreases fuel, 3int, rules.len() - i, 0int, 0int,
{
    if i < 0 || i >= rules.len() {
        (Seq::empty(), ctr)
    } else {
        let (a1, c1) = spec_solve_rule(kb, goal, rules[i], stack, ctr, fuel);
        let (a2, c2) = spec_solve_rules_from(kb, goal, rules, i + 1, stack, c1, fuel);
        (a1 + a2, c2)
    }
}

/// The answers that one rule contributes: the rule is freshly renamed, its
/// head is aligned against the goal, the head's bindings are applied to the
/// body, the body is solved as a conjunction, and each completed body
/// substitution is turned into an answer by re-aligning the goal against
/// the fully instantiated head.
pub open spec fn spec_solve_rule(
    kb: crate::naive::KbV,
    goal: LiteralV,
    rule: ClauseV,
    stack: Seq<KeyV>,
    ctr: u64,
    fuel: u64,
) -> (Seq<Seq<(Seq<char>, Seq<char>)>>, u64)
    decreases fuel, 2int, 0int, 0int, 0int,
{
    let (renamed, c1) = spec_rename_clause(rule, ctr);
    match crate::pattern_match::spec_pattern_match(renamed.head.args, goal.args) {
        None => (Seq::empty(), c1),
        Some(t) => {
            let body2 = renamed.body.map_values(
                |l: LiteralV| LiteralV { name: l.name, args: crate::bindings::spec_apply(t.0, l.args) },
            );
            let (sigmas, c2) = spec_solve_body(kb, body2, 0, Seq::empty(), stack, c1, fuel);
            (spec_answers_from(sigmas, 0, t.2, goal.args), c2)
        },
    }
}

/// The completed cumulative substitutions of solving the body literals
/// from position `pos` onward under the cumulative substitution `sigma`:
/// an empty remainder completes with `sigma`; otherwise the next literal,
/// with `sigma` applied, becomes a subgoal, guarded against re-entering a
/// pattern already on the stack and against exhausted search depth, and
/// each of its answers is merged into `sigma` and carried through the rest
/// of the body.
pub open spec fn spec_solve_body(
    kb: crate::naive::KbV,
    lits: Seq<LiteralV>,
    pos: int,
    sigma: Seq<(Seq<char>, Seq<char>)>,
    stack: Seq<KeyV>,
    ctr: u64,
    fuel: u64,
) -> (Seq<Seq<(Seq<char>, Seq<char>)>>, u64)
    decreases fuel, 1int, lits.len() - pos, 0int, 0int,
{
    if pos < 0 || pos >= lits.len() {
        (seq![sigma], ctr)
    } else {
        let lit0 = LiteralV {
            name: lits[pos].name,
            args: crate::bindings::spec_apply(sigma, lits[pos].args),
        };
        let key = KeyV { name: lit0.name, args: spec_canon(lit0.args) };
        if stack.contains(key) {
            (Seq::empty(), ctr)
        } else if fuel == 0 {
            (Seq::empty(), ctr)
        } else {
            let (taus, c1) = spec_solve_goal(kb, lit0, stack.push(key), ctr, (fuel - 1) as u64);
            spec_solve_branches(kb, lits, pos + 1, taus, 0, sigma, stack, c1, fuel)
        }
    }
}

/// One backtracking layer: each answer of the subgoal just solved, from
/// position `ti` onward, is merged into the cumulative substitution (a
/// conflict dropping that branch) and the rest of the body is solved under
/// the merged substitution; the completed substitutions of all branches
/// are concatenated in order.
pub open spec fn spec_solve_branches(
    kb: crate::naive::KbV,
    lits: Seq<LiteralV>,
    pos: int,
    taus: Seq<Seq<(Seq<char>, Seq<char>)>>,
    ti: int,
    sigma: Seq<(Seq<char>, Seq<char>)>,
    stack: Seq<KeyV>,
    ctr: u64,
    fuel: u64,
) -> (Seq<Seq<(Seq<char>, Seq<char>)>>, u64)
    decreases fuel, 1int, lits.len() - pos, 1int, taus.len() - ti,
{
    if ti < 0 || ti >= taus.len() {
        (Seq::empty(), ctr)
    } else {
        match crate::bindings::spec_merge_from(sigma, taus[ti], 0) {
            Some(sigma2) => {
                let (a1, c1) = spec_solve_body(kb, lits, pos, sigma2, stack, ctr, fuel);
                let (a2, c2) = spec_solve_branches(kb, lits, pos, taus, ti + 1, sigma, stack, c1, fuel);
                (a1 + a2, c2)
            },
            None => spec_solve_branches(kb, lits, pos, taus, ti + 1, sigma, stack, ctr, fuel),
        }
    }
}

/// The cycle-guard key of a goal.
pub open spec fn spec_goal_key(goal: LiteralV) -> KeyV {
    KeyV { name: goal.name, args: spec_canon(goal.args) }
}

/// The full answer sequence for a query: the goal is solved with its own
/// key on the guard stack, a fresh renaming counter, and the given search
/// depth.
pub open spec fn spec_solve(kb: crate::naive::KbV, goal: LiteralV, fuel: u64) -> Seq<
    Seq<(Seq<char>, Seq<char>)>,
> {
    spec_solve_goal(kb, goal, seq![spec_goal_key(goal)], 0, fuel).0
}

/// The rule-phase answers alone, under the same top-level guard stack.
pub open spec fn spec_solve_rules(kb: crate::naive::KbV, goal: LiteralV, fuel: u64) -> Seq<
    Seq<(Seq<char>, Seq<char>)>,
> {
    spec_solve_rules_from(
        kb,
        goal,
        crate::naive::spec_rules_for(kb, goal.sig()),
        0,
        seq![spec_goal_key(goal)],
        0,
        fuel,
    ).0
}

/// In a well-formed knowledge base, every tuple stored for a signature has
/// that signature's arity.
proof fn lemma_facts_for_arity_from(kb: crate::naive::KbV, sig: (Seq<char>, nat), i: int)
    requires
        crate::naive::kb_wf(kb),
    ensures
        forall|j: int| 0 <= j < crate::naive::spec_facts_for_from(kb, sig, i).len()
            ==> (#[trigger] crate::naive::spec_facts_for_from(kb, sig, i)[j]).len() == sig.1,
    decreases kb.facts.len() - i,
{
    if 0 <= i < kb.facts.len() {
        if kb.facts[i].name == sig.0 && kb.facts[i].arity == sig.1 {
            assert(crate::naive::facts_entry_wf(kb.facts[i]));
            assert forall|j: int| 0 <= j < crate::naive::spec_facts_for_from(kb, sig, i).len()
                implies (#[trigger] crate::naive::spec_facts_for_from(kb, sig, i)[j]).len()
                == sig.1 by {
                assert(crate::naive::spec_facts_for_from(kb, sig, i)[j] == kb.facts[i].tuples[j]);
            }
        } else {
            lemma_facts_for_arity_from(kb, sig, i + 1);
            assert forall|j: int| 0 <= j < crate::naive::spec_facts_for_from(kb, sig, i).len()
                implies (#[trigger] crate::naive::spec_facts_for_from(kb, sig, i)[j]).len()
                == sig.1 by {
                assert(crate::naive::spec_facts_for_from(kb, sig, i)[j]
                    == crate::naive::spec_facts_for_from(kb, sig, i + 1)[j]);
            }
        }
    }
}

/// In a well-formed knowledge base, every rule stored for a signature has
/// a head with that signature.
proof fn lemma_rules_for_sig_from(kb: crate::naive::KbV, sig: (Seq<char>, nat), i: int)
    requires
        crate::naive::kb_wf(kb),
    ensures
        forall|j: int| 0 <= j < crate::naive::spec_rules_for_from(kb, sig, i).len()
            ==> (#[trigger] crate::naive::spec_rules_for_from(kb, sig, i)[j]).head.sig() == sig,
    decreases kb.rules.len() - i,
{
    if 0 <= i < kb.rules.len() {
        if kb.rules[i].name == sig.0 && kb.rules[i].arity == sig.1 {
            assert(crate::naive::rules_entry_wf(kb.rules[i]));
            assert forall|j: int| 0 <= j < crate::naive::spec_rules_for_from(kb, sig, i).len()
                implies (#[trigger] crate::naive::spec_rules_for_from(kb, sig, i)[j]).head.sig()
                == sig by {
                assert(crate::naive::spec_rules_for_from(kb, sig, i)[j] == kb.rules[i].clauses[j]);
            }
        } else {
            lemma_rules_for_sig_from(kb, sig, i + 1);
            assert forall|j: int| 0 <= j < crate::naive::spec_rules_for_from(kb, sig, i).len()
                implies (#[trigger] crate::naive::spec_rules_for_from(kb, sig, i)[j]).head.sig()
                == sig by {
                assert(crate::naive::spec_rules_for_from(kb, sig, i)[j]
                    == crate::naive::spec_rules_for_from(kb, sig, i + 1)[j]);
            }
        }
    }
}

/// A successful two-sided alignment keeps both argument lists at their
/// original lengths.
proof fn lemma_match_lengths(
    l: Seq<TermV>,
    r: Seq<TermV>,
    i: int,
    lb: Seq<(Seq<char>, Seq<char>)>,
    rb: Seq<(Seq<char>, Seq<char>)>,
)
    requires
        l.len() == r.len(),
    ensures
        crate::pattern_match::spec_match_from(l, r, i, lb, rb) matches Some(t) ==> t.2.len()
            == l.len() && t.3.len() == r.len(),
    decreases l.len() - i,
{
    if 0 <= i < l.len() {
        match (l[i], r[i]) {
            (TermV::Name(a), TermV::Name(b)) => {
                if a == b {
                    lemma_match_lengths(l, r, i + 1, lb, rb);
                }
            },
            (TermV::Var(x), TermV::Name(b)) => {
                if !(spec_lookup(lb, x) is Some) {
                    lemma_match_lengths(
                        crate::pattern_match::spec_subst_terms(l, x, b),
                        r,
                        i + 1,
                        lb.push((x, b)),
                        rb,
                    );
                }
            },
            (TermV::Name(a), TermV::Var(y)) => {
                if !(spec_lookup(rb, y) is Some) {
                    lemma_match_lengths(
                        l,
                        crate::pattern_match::spec_subst_terms(r, y, a),
                        i + 1,
                        lb,
                        rb.push((y, a)),
                    );
                }
            },
            (TermV::Var(_), TermV::Var(_)) => {
                lemma_match_lengths(l, r, i + 1, lb, rb);
            },
        }
    }
}

/// Renaming keeps an argument list at its original length.
proof fn lemma_rename_len(
    ts: Seq<TermV>,
    i: int,
    map: Seq<(Seq<char>, Seq<char>)>,
    ctr: u64,
)
    requires
        0 <= i <= ts.len(),
    ensures
        spec_rename_terms_from(ts, i, map, ctr).0.len() == ts.len() - i,
    decreases ts.len() - i,
{
    if i < ts.len() {
        let (t2, map2, ctr2) = spec_rename_term(ts[i], map, ctr);
        lemma_rename_len(ts, i + 1, map2, ctr2);
    }
}

/// The fact phase of solving `goal`.
fn solve_facts_inner(kb: &crate::naive::NaiveInterpreter, goal: &Literal) -> (r: Vec<
    crate::bindings::Bindings,
>)
    requires
        kb.wf(),
    ensures
        r.deep_view() == spec_solve_facts(kb@, goal.deep_view()),
{
    let (name, arity) = goal.signature();
    let tuples = kb.facts_for(&name, arity);
    proof {
        lemma_facts_for_arity_from(kb@, (name@, arity as nat), 0);
        assert(goal.deep_view().sig() == (name@, arity as nat));
    }
    let mut out: Vec<crate::bindings::Bindings> = Vec::new();
    let mut i: usize = 0;
    proof {
        assert(Seq::<Seq<(Seq<char>, Seq<char>)>>::empty() + spec_solve_facts_from(
            goal.deep_view().args,
            tuples.deep_view(),
            0,
        ) =~= spec_solve_facts_from(goal.deep_view().args, tuples.deep_view(), 0));
        assert(out.deep_view() =~= Seq::<Seq<(Seq<char>, Seq<char>)>>::empty());
    }
    while i < tuples.len()
        invariant
            kb.wf(),
            i <= tuples@.len(),
            tuples.deep_view() == crate::naive::spec_facts_for(kb@, goal.deep_view().sig()),
            forall|j: int| 0 <= j < tuples.deep_view().len() ==> (
            #[trigger] tuples.deep_view()[j]).len() == goal.deep_view().args.len(),
            goal.deep_view().args.len() == goal.1.deep_view().len(),
            spec_solve_facts_from(goal.deep_view().args, tuples.deep_view(), 0) == out.deep_view()
                + spec_solve_facts_from(goal.deep_view().args, tuples.deep_view(), i as int),
        decreases tuples@.len() - i,
    {
        let ghost pre = out.deep_view();
        match goal.try_instantiate_fact(&tuples[i]) {
            Some(b) => {
                let ghost bv = b@;
                out.push(b);
                proof {
                    assert(out.deep_view() =~= pre.push(bv));
                    assert(pre.push(bv) + spec_solve_facts_from(
                        goal.deep_view().args,
                        tuples.deep_view(),
                        i + 1,
                    ) =~= pre + (seq![bv] + spec_solve_facts_from(
                        goal.deep_view().args,
                        tuples.deep_view(),
                        i + 1,
                    )));
                }
            },
            None => {},
        }
        i = i + 1;
    }
    proof {
        assert(out.deep_view() + spec_solve_facts_from(
            goal.deep_view().args,
            tuples.deep_view(),
            tuples.deep_view().len() as int,
        ) =~= out.deep_view());
    }
    out
}

/// The answers that the completed body substitutions yield for the matched
/// head against the goal's arguments.
fn answers_from(
    sigmas: &Vec<crate::bindings::Bindings>,
    head2: &Vec<Term>,
    goal_args: &Vec<Term>,
) -> (r: Vec<crate::bindings::Bindings>)
    requires
        head2@.len() == goal_args@.len(),
    ensures
        r.deep_view() == spec_answers_from(
            sigmas.deep_view(),
            0,
            head2.deep_view(),
            goal_args.deep_view(),
        ),
{
    let mut out: Vec<crate::bindings::Bindings> = Vec::new();
    let mut i: usize = 0;
    proof {
        assert(out.deep_view() + spec_answers_from(
            sigmas.deep_view(),
            0,
            head2.deep_view(),
            goal_args.deep_view(),
        ) =~= spec_answers_from(sigmas.deep_view(), 0, head2.deep_view(), goal_args.deep_view()));
    }
    while i < sigmas.len()
        invariant
            head2@.len() == goal_args@.len(),
            i <= sigmas@.len(),
            spec_answers_from(sigmas.deep_view(), 0, head2.deep_view(), goal_args.deep_view())
                == out.deep_view() + spec_answers_from(
                sigmas.deep_view(),
                i as int,
                head2.deep_view(),
                goal_args.deep_view(),
            ),
        decreases sigmas@.len() - i,
    {
        let ghost pre = out.deep_view();
        let mut fh = crate::pattern_match::clone_terms(head2);
        sigmas[i].apply(&mut fh);
        let mut g2 = crate::pattern_match::clone_terms(goal_args);
        proof {
            assert(fh.deep_view().len() == head2.deep_view().len());
        }
        match crate::pattern_match::pattern_match(&mut fh, &mut g2) {
            Some((_lb2, rb2)) => {
                let ghost rv = rb2@;
                out.push(rb2);
                proof {
                    assert(out.deep_view() =~= pre.push(rv));
                    assert(pre.push(rv) + spec_answers_from(
                        sigmas.deep_view(),
                        i + 1,
                        head2.deep_view(),
                        goal_args.deep_view(),
                    ) =~= pre + (seq![rv] + spec_answers_from(
                        sigmas.deep_view(),
                        i + 1,
                        head2.deep_view(),
                        goal_args.deep_view(),
                    )));
                }
            },
            None => {},
        }
        i = i + 1;
    }
    proof {
        assert(out.deep_view() + spec_answers_from(
            sigmas.deep_view(),
            sigmas.deep_view().len() as int,
            head2.deep_view(),
            goal_args.deep_view(),
        ) =~= out.deep_view());
    }
    out
}

/// Solves `goal`: the fact phase first, then the rules in store order.
fn solve_goal_rec(
    kb: &crate::naive::NaiveInterpreter,
    goal: &Literal,
    stack: &Vec<CycleKey>,
    ctr: u64,
    fuel: u64,
) -> (r: (Vec<crate::bindings::Bindings>, u64))
    requires
        kb.wf(),
    ensures
        (r.0.deep_view(), r.1) == spec_solve_goal(
            kb@,
            goal.deep_view(),
            stack.deep_view(),
            ctr,
            fuel,
        ),
    decreases fuel, 4int, 0int, 0int, 0int,
{
    let mut out = solve_facts_inner(kb, goal);
    let (name, arity) = goal.signature();
    let rules = kb.rules_for(&name, arity);
    proof {
        assert(goal.deep_view().sig() == (name@, arity as nat));
        lemma_rules_for_sig_from(kb@, (name@, arity as nat), 0);
    }
    let (mut rule_answers, c2) = solve_rules_rec(kb, goal, &rules, 0, stack, ctr, fuel);
    let ghost fa = out.deep_view();
    let ghost ra = rule_answers.deep_view();
    out.append(&mut rule_answers);
    proof {
        assert(out.deep_view() =~= fa + ra);
    }
    (out, c2)
}

/// The answers contributed by the rules from position `i` onward.
fn solve_rules_rec(
    kb: &crate::naive::NaiveInterpreter,
    goal: &Literal,
    rules: &Vec<Clause>,
    i: usize,
    stack: &Vec<CycleKey>,
    ctr: u64,
    fuel: u64,
) -> (r: (Vec<crate::bindings::Bindings>, u64))
    requires
        kb.wf(),
        i <= rules@.len(),
        forall|j: int| 0 <= j < rules.deep_view().len() ==> (
        #[trigger] rules.deep_view()[j]).head.sig() == goal.deep_view().sig(),
    ensures
        (r.0.deep_view(), r.1) == spec_solve_rules_from(
            kb@,
            goal.deep_view(),
            rules.deep_view(),
            i as int,
            stack.deep_view(),
            ctr,
            fuel,
        ),
    decreases fuel, 3int, rules@.len() - i, 0int, 0int,
{
    if i == rules.len() {
        let out: Vec<crate::bindings::Bindings> = Vec::new();
        proof {
            assert(out.deep_view() =~= Seq::<Seq<(Seq<char>, Seq<char>)>>::empty());
        }
        (out, ctr)
    } else {
        proof {
            assert(rules.deep_view()[i as int].head.sig() == goal.deep_view().sig());
        }
        let (mut a1, c1) = solve_rule_rec(kb, goal, &rules[i], stack, ctr, fuel);
        let (mut a2, c2) = solve_rules_rec(kb, goal, rules, i + 1, stack, c1, fuel);
        let ghost v1 = a1.deep_view();
        let ghost v2 = a2.deep_view();
        a1.append(&mut a2);
        proof {
            assert(a1.deep_view() =~= v1 + v2);
        }
        (a1, c2)
    }
}

/// The answers contributed by one rule.
fn solve_rule_rec(
    kb: &crate::naive::NaiveInterpreter,
    goal: &Literal,
    rule: &Clause,
    stack: &Vec<CycleKey>,
    ctr: u64,
    fuel: u64,
) -> (r: (Vec<crate::bindings::Bindings>, u64))
    requires
        kb.wf(),
        rule.deep_view().head.args.len() == goal.deep_view().args.len(),
    ensures
        (r.0.deep_view(), r.1) == spec_solve_rule(
            kb@,
            goal.deep_view(),
            rule.deep_view(),
            stack.deep_view(),
            ctr,
            fuel,
        ),
    decreases fuel, 2int, 0int, 0int, 0int,
{
    let ghost rulev = rule.deep_view();
    let ghost renamedv = spec_rename_clause(rulev, ctr).0;
    let (renamed, c1) = rename_clause(rule, ctr);
    let Clause(rhead, rbody) = renamed;
    let Literal(_rname, mut head_args) = rhead;
    proof {
        lemma_rename_len(rulev.head.args, 0, Seq::empty(), ctr);
        assert(head_args.deep_view() == renamedv.head.args);
        assert(head_args@.len() == head_args.deep_view().len());
        lemma_match_lengths(
            renamedv.head.args,
            goal.deep_view().args,
            0,
            Seq::empty(),
            Seq::empty(),
        );
    }
    let mut goal_args = crate::pattern_match::clone_terms(&goal.1);
    match crate::pattern_match::pattern_match(&mut head_args, &mut goal_args) {
        None => {
            let out: Vec<crate::bindings::Bindings> = Vec::new();
            proof {
                assert(out.deep_view() =~= Seq::<Seq<(Seq<char>, Seq<char>)>>::empty());
            }
            (out, c1)
        },
        Some((lb, _rb)) => {
            let ghost lbv = lb@;
            let mut body2: Vec<Literal> = Vec::new();
            let mut j: usize = 0;
            while j < rbody.len()
                invariant
                    j <= rbody@.len(),
                    body2@.len() == j,
                    lb@ == lbv,
                    rbody.deep_view() == renamedv.body,
                    forall|k: int| 0 <= k < j ==> (#[trigger] body2@[k]).deep_view() == (LiteralV {
                        name: renamedv.body[k].name,
                        args: crate::bindings::spec_apply(lbv, renamedv.body[k].args),
                    }),
                decreases rbody@.len() - j,
            {
                let mut a = crate::pattern_match::clone_terms(&rbody[j].1);
                lb.apply(&mut a);
                body2.push(Literal(rbody[j].0.clone(), a));
                j = j + 1;
            }
            proof {
                assert(body2.deep_view() =~~= renamedv.body.map_values(
                    |l: LiteralV| LiteralV {
                        name: l.name,
                        args: crate::bindings::spec_apply(lbv, l.args),
                    },
                ));
            }
            let (sigmas, c2) = solve_body_rec(
                kb,
                &body2,
                0,
                crate::bindings::Bindings::new(),
                stack,
                c1,
                fuel,
            );
            let answers = answers_from(&sigmas, &head_args, &goal.1);
            (answers, c2)
        },
    }
}

/// Solves the body literals from `pos` onward under the cumulative
/// substitution `sigma`.
fn solve_body_rec(
    kb: &crate::naive::NaiveInterpreter,
    lits: &Vec<Literal>,
    pos: usize,
    sigma: crate::bindings::Bindings,
    stack: &Vec<CycleKey>,
    ctr: u64,
    fuel: u64,
) -> (r: (Vec<crate::bindings::Bindings>, u64))
    requires
        kb.wf(),
        pos <= lits@.len(),
    ensures
        (r.0.deep_view(), r.1) == spec_solve_body(
            kb@,
            lits.deep_view(),
            pos as int,
            sigma@,
            stack.deep_view(),
            ctr,
            fuel,
        ),
    decreases fuel, 1int, lits@.len() - pos, 0int, 0int,
{
    if pos == lits.len() {
        let ghost sv = sigma@;
        let mut out: Vec<crate::bindings::Bindings> = Vec::new();
        out.push(sigma);
        proof {
            assert(out.deep_view() =~= seq![sv]);
        }
        (out, ctr)
    } else {
        let mut args = crate::pattern_match::clone_terms(&lits[pos].1);
        sigma.apply(&mut args);
        let lit0 = Literal(lits[pos].0.clone(), args);
        let ghost lit0v = LiteralV {
            name: lits.deep_view()[pos as int].name,
            args: crate::bindings::spec_apply(sigma@, lits.deep_view()[pos as int].args),
        };
        proof {
            assert(lit0.deep_view() =~~= lit0v);
        }
        let key = CycleKey { name: lit0.0.clone(), args: canonical_args(&lit0.1) };
        proof {
            assert(key.deep_view() =~~= (KeyV { name: lit0v.name, args: spec_canon(lit0v.args) }));
        }
        if stack_contains(stack, &key) {
            let out: Vec<crate::bindings::Bindings> = Vec::new();
            proof {
                assert(out.deep_view() =~= Seq::<Seq<(Seq<char>, Seq<char>)>>::empty());
            }
            (out, ctr)
        } else if fuel == 0 {
            let out: Vec<crate::bindings::Bindings> = Vec::new();
            proof {
                assert(out.deep_view() =~= Seq::<Seq<(Seq<char>, Seq<char>)>>::empty());
            }
            (out, ctr)
        } else {
            let mut stack2 = clone_stack(stack);
            let ghost keyv = key.deep_view();
            stack2.push(key);
            proof {
                assert(stack2.deep_view() =~= stack.deep_view().push(keyv));
            }
            let (taus, c1) = solve_goal_rec(kb, &lit0, &stack2, ctr, fuel - 1);
            solve_branches_rec(kb, lits, pos + 1, &taus, 0, &sigma, stack, c1, fuel)
        }
    }
}

/// Explores each answer of the subgoal just solved, merging it into the
/// cumulative substitution and solving the rest of the body.
fn solve_branches_rec(
    kb: &crate::naive::NaiveInterpreter,
    lits: &Vec<Literal>,
    pos: usize,
    taus: &Vec<crate::bindings::Bindings>,
    ti: usize,
    sigma: &crate::bindings::Bindings,
    stack: &Vec<CycleKey>,
    ctr: u64,
    fuel: u64,
) -> (r: (Vec<crate::bindings::Bindings>, u64))
    requires
        kb.wf(),
        pos <= lits@.len(),
        ti <= taus@.len(),
    ensures
        (r.0.deep_view(), r.1) == spec_solve_branches(
            kb@,
            lits.deep_view(),
            pos as int,
            taus.deep_view(),
            ti as int,
            sigma@,
            stack.deep_view(),
            ctr,
            fuel,
        ),
    decreases fuel, 1int, lits@.len() - pos, 1int, taus@.len() - ti,
{
    if ti == taus.len() {
        let out: Vec<crate::bindings::Bindings> = Vec::new();
        proof {
            assert(out.deep_view() =~= Seq::<Seq<(Seq<char>, Seq<char>)>>::empty());
        }
        (out, ctr)
    } else {
        match sigma.merged(&taus[ti]) {
            Some(sigma2) => {
                let (mut a1, c1) = solve_body_rec(kb, lits, pos, sigma2, stack, ctr, fuel);
                let (mut a2, c2) = solve_branches_rec(
                    kb,
                    lits,
                    pos,
                    taus,
                    ti + 1,
                    sigma,
                    stack,
                    c1,
                    fuel,
                );
                let ghost v1 = a1.deep_view();
                let ghost v2 = a2.deep_view();
                a1.append(&mut a2);
                proof {
                    assert(a1.deep_view() =~= v1 + v2);
                }
                (a1, c2)
            },
            None => solve_branches_rec(kb, lits, pos, taus, ti + 1, sigma, stack, ctr, fuel),
        }
    }
}

/// The default bound on the depth of nested subgoal solving. The cycle
/// guard already stops every re-entered pattern; the depth bound is the
/// final safeguard against rule sets whose recursion the guard cannot see,
/// and a branch that reaches it contributes no answers.
pub const DEFAULT_SEARCH_DEPTH: u64 = 1000000;

impl crate::naive::NaiveInterpreter {
    /// Attempts to solve a goal, returning every derivable answer: the
    /// fact-phase answers in store order, then each rule's answers in store
    /// order.
    pub fn solve(&self, goal: Literal) -> (r: Vec<crate::bindings::Bindings>)
        requires
            self.wf(),
        ensures
            r.deep_view() == spec_solve(self@, goal.deep_view(), DEFAULT_SEARCH_DEPTH),
    {
        let key = CycleKey { name: goal.0.clone(), args: canonical_args(&goal.1) };
        let mut stack: Vec<CycleKey> = Vec::new();
        let ghost keyv = key.deep_view();
        stack.push(key);
        proof {
            assert(keyv =~~= spec_goal_key(goal.deep_view()));
            assert(stack.deep_view() =~= seq![spec_goal_key(goal.deep_view())]);
        }
        let (answers, _ctr) = solve_goal_rec(self, &goal, &stack, 0, DEFAULT_SEARCH_DEPTH);
        answers
    }

    /// Attempts to solve a goal using the stored facts only.
    pub fn solve_facts(&self, goal: Literal) -> (r: Vec<crate::bindings::Bindings>)
        requires
            self.wf(),
        ensures
            r.deep_view() == spec_solve_facts(self@, goal.deep_view()),
    {
        solve_facts_inner(self, &goal)
    }

    /// Attempts to solve a goal using the stored rules only.
    pub fn solve_rules(&self, goal: Literal) -> (r: Vec<crate::bindings::Bindings>)
        requires
            self.wf(),
        ensures
            r.deep_view() == spec_solve_rules(self@, goal.deep_view(), DEFAULT_SEARCH_DEPTH),
    {
        let key = CycleKey { name: goal.0.clone(), args: canonical_args(&goal.1) };
        let mut stack: Vec<CycleKey> = Vec::new();
        let ghost keyv = key.deep_view();
        stack.push(key);
        proof {
            assert(keyv =~~= spec_goal_key(goal.deep_view()));
            assert(stack.deep_view() =~= seq![spec_goal_key(goal.deep_view())]);
        }
        let (name, arity) = goal.signature();
        let rules = self.rules_for(&name, arity);
        proof {
            assert(goal.deep_view().sig() == (name@, arity as nat));
            lemma_rules_for_sig_from(self@, (name@, arity as nat), 0);
        }
        let (answers, _ctr) = solve_rules_rec(
            self,
            &goal,
            &rules,
            0,
            &stack,
            0,
            DEFAULT_SEARCH_DEPTH,
        );
        answers
    }
}

} // verus!
