use datalog::Bindings;
use datalog::Name;
use datalog::Term;
use datalog::Variable;
use datalog::pattern_match::pattern_match;

#[test]
fn literal() {
    let one = Term::new("1").unwrap();
    let x = Term::new("X").unwrap();
    let y = Term::new("Y").unwrap();

    let mut l = vec![x.clone(), y.clone(), x.clone(), y.clone()];
    let mut r = vec![one.clone(), one.clone(), x.clone(), x.clone()];

    let (lb, rb) = pattern_match(&mut l, &mut r).unwrap();
    assert_eq!(l, vec![one.clone(), one.clone(), one.clone(), one.clone()]);
    assert_eq!(r, vec![one.clone(), one.clone(), one.clone(), one.clone()]);

    let mut expected_lb = Bindings::new();
    expected_lb
        .bind(&Variable::new("X").unwrap(), &Name::new("1").unwrap())
        .unwrap();
    expected_lb
        .bind(&Variable::new("Y").unwrap(), &Name::new("1").unwrap())
        .unwrap();
    assert_eq!(lb, expected_lb);

    let mut expected_rb = Bindings::new();
    expected_rb
        .bind(&Variable::new("X").unwrap(), &Name::new("1").unwrap())
        .unwrap();
    assert_eq!(rb, expected_rb);
}
