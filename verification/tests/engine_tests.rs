use datalog::Bindings;
use datalog::Clause;
use datalog::Error;
use datalog::Literal;
use datalog::Name;
use datalog::NaiveInterpreter;
use datalog::Term;
use datalog::Variable;
use datalog::pattern_match::pattern_match;

fn name(s: &str) -> Name {
    Name::new(s).unwrap()
}

fn var(s: &str) -> Variable {
    Variable::new(s).unwrap()
}

fn lit(pred: &str, args: &[&str]) -> Literal {
    Literal(
        name(pred),
        args.iter().map(|a| Term::new(a).unwrap()).collect(),
    )
}

fn fact(pred: &str, args: &[&str]) -> Clause {
    Clause(lit(pred, args), vec![])
}

fn loaded(src: &str) -> NaiveInterpreter {
    let program = datalog::parser::parse_program_string(src).unwrap();
    let mut kb = NaiveInterpreter::new();
    kb.load_program(program).unwrap();
    kb
}

#[test]
fn fact_round_trip() {
    let mut kb = NaiveInterpreter::new();
    kb.run_assertion(fact("parent", &["john", "douglas"])).unwrap();
    let answers = kb.solve(lit("parent", &["john", "douglas"]));
    assert_eq!(answers.len(), 1);
    assert_eq!(answers[0], Bindings::new());
}

#[test]
fn fact_dedup_on_assertion() {
    let mut kb = NaiveInterpreter::new();
    kb.run_assertion(fact("red", &["apple"])).unwrap();
    kb.run_assertion(fact("red", &["apple"])).unwrap();
    let answers = kb.solve(lit("red", &["apple"]));
    assert_eq!(answers.len(), 1);
}

#[test]
fn retract_then_query() {
    let mut kb = NaiveInterpreter::new();
    kb.run_assertion(fact("red", &["apple"])).unwrap();
    kb.run_retraction(fact("red", &["apple"])).unwrap();
    let answers = kb.solve(lit("red", &["apple"]));
    assert_eq!(answers.len(), 0);
}

#[test]
fn retract_miss() {
    let mut kb = NaiveInterpreter::new();
    kb.run_assertion(fact("red", &["apple"])).unwrap();
    let before = kb.facts_for(&name("red"), 1);
    let r = kb.run_retraction(fact("red", &["pepper"]));
    match r {
        Err(Error::NoSuchClause(c)) => assert_eq!(c, fact("red", &["pepper"])),
        _ => panic!("expected NoSuchClause"),
    }
    assert_eq!(kb.facts_for(&name("red"), 1), before);
}

#[test]
fn retract_rule() {
    let mut kb = NaiveInterpreter::new();
    let rule = Clause(lit("p", &["X"]), vec![lit("q", &["X"])]);
    kb.run_assertion(rule.clone()).unwrap();
    kb.run_retraction(rule.clone()).unwrap();
    match kb.run_retraction(rule) {
        Err(Error::NoSuchClause(_)) => {}
        _ => panic!("expected NoSuchClause"),
    }
}

#[test]
fn unify_conflict() {
    let x = Term::new("X").unwrap();
    let a = Term::new("a").unwrap();
    let b = Term::new("b").unwrap();
    let mut l = vec![x.clone(), x.clone()];
    let mut r = vec![a.clone(), b.clone()];
    assert!(pattern_match(&mut l, &mut r).is_none());
    assert_eq!(l, vec![x.clone(), x.clone()]);
    assert_eq!(r, vec![a, b]);
}

#[test]
fn variable_variable_position() {
    let x = Term::new("X").unwrap();
    let y = Term::new("Y").unwrap();
    let mut l = vec![x.clone()];
    let mut r = vec![y.clone()];
    let (lb, rb) = pattern_match(&mut l, &mut r).unwrap();
    assert_eq!(lb, Bindings::new());
    assert_eq!(rb, Bindings::new());
    assert_eq!(l, vec![x]);
    assert_eq!(r, vec![y]);
}

#[test]
fn transitive_closure_ground() {
    let kb = loaded(
        "edge(a,b). edge(b,c). path(X,Y) :- edge(X,Y). path(X,Y) :- edge(X,Z), path(Z,Y).",
    );
    let answers = kb.solve(lit("path", &["a", "c"]));
    assert_eq!(answers.len(), 1);
    assert_eq!(answers[0], Bindings::new());
}

#[test]
fn transitive_closure_bindings() {
    let kb = loaded(
        "edge(a,b). edge(b,c). path(X,Y) :- edge(X,Y). path(X,Y) :- edge(X,Z), path(Z,Y).",
    );
    let answers = kb.solve(lit("path", &["a", "V"]));
    assert_eq!(answers.len(), 2);
    assert_eq!(answers[0].get(&var("V")), Some(&name("b")));
    assert_eq!(answers[1].get(&var("V")), Some(&name("c")));
}

#[test]
fn cycle_safety() {
    let kb = loaded(
        "edge(a,b). edge(b,a). path(X,Y) :- edge(X,Y). path(X,Y) :- edge(X,Z), path(Z,Y).",
    );
    let answers = kb.solve(lit("path", &["a", "X"]));
    assert_eq!(answers.len(), 2);
    assert_eq!(answers[0].get(&var("X")), Some(&name("b")));
    assert_eq!(answers[1].get(&var("X")), Some(&name("a")));
}

#[test]
fn unknown_predicate() {
    let kb = NaiveInterpreter::new();
    let answers = kb.solve(lit("nothing", &["here"]));
    assert_eq!(answers.len(), 0);
}

#[test]
fn fact_and_rule_answers_both_count() {
    let kb = loaded("p(a). q(a). p(X) :- q(X).");
    let answers = kb.solve(lit("p", &["a"]));
    assert_eq!(answers.len(), 2);
}

#[test]
fn facts_before_rules() {
    let kb = loaded("q(b). p(X) :- q(X). p(a).");
    let answers = kb.solve(lit("p", &["V"]));
    assert_eq!(answers.len(), 2);
    assert_eq!(answers[0].get(&var("V")), Some(&name("a")));
    assert_eq!(answers[1].get(&var("V")), Some(&name("b")));
}

#[test]
fn solve_facts_ignores_rules() {
    let kb = loaded("p(a). q(b). p(X) :- q(X).");
    let answers = kb.solve_facts(lit("p", &["V"]));
    assert_eq!(answers.len(), 1);
    assert_eq!(answers[0].get(&var("V")), Some(&name("a")));
}

#[test]
fn solve_rules_ignores_facts() {
    let kb = loaded("p(a). q(b). p(X) :- q(X).");
    let answers = kb.solve_rules(lit("p", &["V"]));
    assert_eq!(answers.len(), 1);
    assert_eq!(answers[0].get(&var("V")), Some(&name("b")));
}

#[test]
fn repeated_goal_variable_must_agree() {
    let kb = loaded("edge(a,b). edge(b,b). path(X,Y) :- edge(X,Y).");
    let answers = kb.solve(lit("path", &["W", "W"]));
    assert_eq!(answers.len(), 1);
    assert_eq!(answers[0].get(&var("W")), Some(&name("b")));
}

#[test]
fn try_instantiate_fact_binds_goal_variables() {
    let goal = lit("parent", &["X", "douglas"]);
    let tuple = vec![name("john"), name("douglas")];
    let b = goal.try_instantiate_fact(&tuple).unwrap();
    assert_eq!(b.get(&var("X")), Some(&name("john")));
    assert_eq!(b.len(), 1);

    let other = vec![name("john"), name("robert")];
    assert!(goal.try_instantiate_fact(&other).is_none());
}

#[test]
fn try_instantiate_literals() {
    let left = lit("p", &["X", "b"]);
    let right = lit("p", &["a", "Y"]);
    let (instantiated, lb) = left.try_instantiate(right).unwrap();
    assert_eq!(instantiated, lit("p", &["a", "b"]));
    let mut expected = Bindings::new();
    expected.bind(&var("X"), &name("a")).unwrap();
    assert_eq!(lb, expected);

    assert!(lit("p", &["a"]).try_instantiate(lit("q", &["a"])).is_none());
    assert!(lit("p", &["a"]).try_instantiate(lit("p", &["a", "b"])).is_none());
}

#[test]
fn as_fact_classification() {
    let f = fact("red", &["apple"]);
    let tuple = f.as_fact().unwrap();
    assert_eq!(tuple, vec![name("apple")]);

    let head_with_var = Clause(lit("red", &["X"]), vec![]);
    assert!(head_with_var.as_fact().is_none());

    let with_body = Clause(lit("red", &["apple"]), vec![lit("fruit", &["apple"])]);
    assert!(with_body.as_fact().is_none());
}

#[test]
fn signatures() {
    let l = lit("path", &["X", "Y"]);
    let (n, arity) = l.signature();
    assert_eq!(n, name("path"));
    assert_eq!(arity, 2);
    let c = Clause(l, vec![]);
    assert_eq!(c.pred(), (name("path"), 2));
}

#[test]
fn bindings_operations() {
    let mut b = Bindings::new();
    b.bind(&var("X"), &name("a")).unwrap();
    assert!(b.bind(&var("X"), &name("a")).is_ok());
    assert!(b.bind(&var("X"), &name("b")).is_err());
    assert!(b.contains_key(&var("X")));
    assert!(!b.contains_key(&var("Y")));
    b.bind(&var("Y"), &name("c")).unwrap();

    let restricted = b.restrict_to(&vec![var("Y")]);
    assert_eq!(restricted.len(), 1);
    assert_eq!(restricted.get(&var("Y")), Some(&name("c")));

    let mut terms = vec![Term::new("X").unwrap(), Term::new("z").unwrap()];
    b.apply(&mut terms);
    assert_eq!(terms, vec![Term::new("a").unwrap(), Term::new("z").unwrap()]);
}

#[test]
fn rule_head_constant() {
    let kb = loaded("q(b). p(a) :- q(b).");
    let answers = kb.solve(lit("p", &["V"]));
    assert_eq!(answers.len(), 1);
    assert_eq!(answers[0].get(&var("V")), Some(&name("a")));
}

#[test]
fn zero_arity_predicates() {
    let kb = loaded("sunny. nice :- sunny.");
    assert_eq!(kb.solve(lit("sunny", &[])).len(), 1);
    assert_eq!(kb.solve(lit("nice", &[])).len(), 1);
    assert_eq!(kb.solve(lit("rainy", &[])).len(), 0);
}

#[test]
fn display_round_trip() {
    for text in ["foo", "a b", "a\nb", "say \"hi\"", "tab\there", "a\u{3bb}\u{1}z"] {
        let n = name(text);
        let src = format!("p({}).", n.to_display_string());
        let parsed = datalog::parser::parse_stmt(&src).unwrap();
        assert_eq!(
            parsed,
            datalog::Statement::Assertion(fact("p", &[text])),
        );
    }
}

#[test]
fn display_names() {
    assert_eq!(name("foo").to_display_string(), "foo");
    assert_eq!(name("foo-bar_9").to_display_string(), "foo-bar_9");
    assert_eq!(name("a b").to_display_string(), "\"a b\"");
    assert_eq!(name("a\nb").to_display_string(), "\"a\\nb\"");
    assert_eq!(name("say \"hi\"").to_display_string(), "\"say \\\"hi\\\"\"");
    assert_eq!(name("a\u{1}b").to_display_string(), "\"a\\x01b\"");
}
