use datalog::Name;
use datalog::Term;
use datalog::ast::Literal;
use datalog::parser::parse_literal;
use datalog::parser::scan_ident;
use datalog::parser::scan_string;
use datalog::parser::scan_variable;
use datalog::text::chars_of;

#[test]
fn idents() {
    let cs = chars_of("parent");
    assert_eq!(scan_ident(&cs, 0), Some(("parent".to_string(), 6)));

    let cs = chars_of("1234");
    assert_eq!(scan_ident(&cs, 0), Some(("1234".to_string(), 4)));
}

#[test]
fn vars() {
    let cs = chars_of("Foo");
    assert_eq!(scan_variable(&cs, 0), Some(("Foo".to_string(), 3)));
}

#[test]
fn strings() {
    let cs = chars_of(r#""""#);
    assert_eq!(scan_string(&cs, 0), Some(("".to_string(), 2)));

    let cs = chars_of(r#""-:-""#);
    assert_eq!(scan_string(&cs, 0), Some(("-:-".to_string(), 5)));

    let cs = chars_of(r#""first\nsecond""#);
    assert_eq!(scan_string(&cs, 0), Some(("first\nsecond".to_string(), 15)));
}

#[test]
fn literals() {
    let cs = chars_of("zero-arity-literal");
    let (lit, p) = parse_literal(&cs, 0).unwrap();
    assert_eq!(p, 18);
    assert_eq!(lit, Literal(Name::new("zero-arity-literal").unwrap(), vec![]));

    let cs = chars_of("also-zero-arity()");
    let (lit, p) = parse_literal(&cs, 0).unwrap();
    assert_eq!(p, 17);
    assert_eq!(lit, Literal(Name::new("also-zero-arity").unwrap(), vec![]));

    let cs = chars_of("1(arg)");
    let (lit, p) = parse_literal(&cs, 0).unwrap();
    assert_eq!(p, 6);
    assert_eq!(
        lit,
        Literal(Name::new("1").unwrap(), vec![Term::new("arg").unwrap()])
    );

    let cs = chars_of("parent(john, douglas)");
    let (lit, p) = parse_literal(&cs, 0).unwrap();
    assert_eq!(p, 21);
    assert_eq!(
        lit,
        Literal(
            Name::new("parent").unwrap(),
            vec![Term::new("john").unwrap(), Term::new("douglas").unwrap()]
        )
    );

    let cs = chars_of(r#"aBcD(-0, "\n\u03bb")"#);
    let (lit, p) = parse_literal(&cs, 0).unwrap();
    assert_eq!(p, 20);
    assert_eq!(
        lit,
        Literal(
            Name::new("aBcD").unwrap(),
            vec![
                Term::Name(Name::new("-0").unwrap()),
                Term::Name(Name::new("\n\u{3bb}").unwrap()),
            ]
        )
    );
}
