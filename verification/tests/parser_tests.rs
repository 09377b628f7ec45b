use datalog::Clause;
use datalog::Error;
use datalog::Literal;
use datalog::Name;
use datalog::Program;
use datalog::Statement;
use datalog::Term;
use datalog::Variable;
use datalog::parser::parse_program_string;
use datalog::parser::parse_stmt;

fn name(s: &str) -> Name {
    Name::new(s).unwrap()
}

fn nterm(s: &str) -> Term {
    Term::Name(Name::new(s).unwrap())
}

fn vterm(s: &str) -> Term {
    Term::Var(Variable::new(s).unwrap())
}

#[test]
fn program() {
    let src = "red(apple).\nfruit(apple).\nspicy(X) :-\n\tred(X),\n\tvegetable(X).\nspicy(X)?\nvegetable(apple).\nspicy(apple)?\nvegetable(apple)~\nspicy(apple)?";
    let parsed = parse_program_string(src).unwrap();
    let expected = Program(vec![
        Statement::Assertion(Clause(Literal(name("red"), vec![nterm("apple")]), vec![])),
        Statement::Assertion(Clause(Literal(name("fruit"), vec![nterm("apple")]), vec![])),
        Statement::Assertion(Clause(
            Literal(name("spicy"), vec![vterm("X")]),
            vec![
                Literal(name("red"), vec![vterm("X")]),
                Literal(name("vegetable"), vec![vterm("X")]),
            ],
        )),
        Statement::Query(Literal(name("spicy"), vec![vterm("X")])),
        Statement::Assertion(Clause(
            Literal(name("vegetable"), vec![nterm("apple")]),
            vec![],
        )),
        Statement::Query(Literal(name("spicy"), vec![nterm("apple")])),
        Statement::Retraction(Clause(
            Literal(name("vegetable"), vec![nterm("apple")]),
            vec![],
        )),
        Statement::Query(Literal(name("spicy"), vec![nterm("apple")])),
    ]);
    assert_eq!(parsed, expected);
}

#[test]
fn statement() {
    assert_eq!(
        parse_stmt("red(apple).").unwrap(),
        Statement::Assertion(Clause(Literal(name("red"), vec![nterm("apple")]), vec![]))
    );
    assert_eq!(
        parse_stmt("spicy(X) :-\n\tred(X),\n\tvegetable(X).").unwrap(),
        Statement::Assertion(Clause(
            Literal(name("spicy"), vec![vterm("X")]),
            vec![
                Literal(name("red"), vec![vterm("X")]),
                Literal(name("vegetable"), vec![vterm("X")]),
            ],
        ))
    );
    assert_eq!(
        parse_stmt("spicy(X)?").unwrap(),
        Statement::Query(Literal(name("spicy"), vec![vterm("X")]))
    );
    assert_eq!(
        parse_stmt("vegetable(apple)~").unwrap(),
        Statement::Retraction(Clause(
            Literal(name("vegetable"), vec![nterm("apple")]),
            vec![],
        ))
    );
}

#[test]
fn quoted_names() {
    assert_eq!(
        parse_stmt(r#"p("qwerty\nasdf\nλ")."#).unwrap(),
        Statement::Assertion(Clause(
            Literal(name("p"), vec![nterm("qwerty\nasdf\n\u{3bb}")]),
            vec![],
        ))
    );
    assert_eq!(
        parse_stmt(r#"p("\x61\t\\")."#).unwrap(),
        Statement::Assertion(Clause(
            Literal(name("p"), vec![nterm("a\t\\")]),
            vec![],
        ))
    );
}

#[test]
fn comments_and_whitespace() {
    let parsed = parse_program_string("% a comment line\n  red(apple). % trailing\n").unwrap();
    assert_eq!(
        parsed,
        Program(vec![Statement::Assertion(Clause(
            Literal(name("red"), vec![nterm("apple")]),
            vec![],
        ))])
    );
}

#[test]
fn parse_failures() {
    assert!(matches!(parse_stmt("red(apple)"), Err(Error::Parse(_))));
    assert!(matches!(parse_stmt("red(apple"), Err(Error::Parse(_))));
    assert!(matches!(parse_stmt(""), Err(Error::Parse(_))));
    assert!(matches!(parse_stmt("red(apple). extra"), Err(Error::Parse(_))));
    assert!(matches!(
        parse_stmt("spicy(X) :- red(X)?"),
        Err(Error::Parse(_))
    ));
    assert!(matches!(parse_stmt(r#"p("X")."#), Err(Error::Parse(_))));
    assert!(matches!(
        parse_program_string("red(apple). blue("),
        Err(Error::Parse(_))
    ));
}

#[test]
fn term_and_name_construction() {
    assert_eq!(Term::new("foo"), Some(nterm("foo")));
    assert_eq!(Term::new("42"), Some(nterm("42")));
    assert_eq!(Term::new("Bar"), Some(vterm("Bar")));
    assert_eq!(Term::new("_x1"), Some(vterm("_x1")));
    assert_eq!(Term::new(""), None);

    assert!(Name::is_valid("foo"));
    assert!(!Name::is_valid("Foo"));
    assert!(!Name::is_valid("_foo"));
    assert!(!Name::is_valid(""));

    assert!(Variable::is_valid("X"));
    assert!(Variable::is_valid("A123"));
    assert!(Variable::is_valid("_"));
    assert!(!Variable::is_valid("x"));
    assert!(!Variable::is_valid("A-b"));
    assert!(!Variable::is_valid(""));

    assert!(datalog::Symbol::new("foo".to_string()).is_ok());
    assert!(datalog::Symbol::new("Foo".to_string()).is_err());
    assert!(datalog::Symbol::is_valid("42"));
    assert!(!datalog::Symbol::is_valid("_q"));
}
