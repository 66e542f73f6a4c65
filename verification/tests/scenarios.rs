use container_ops::dict::Dict;
use container_ops::scenarios::{
    compare_outcome, same_returned, verify_scenarios, Outcome, VerificationMismatchError,
};

fn dict_of(pairs: &[(&str, &str)]) -> Dict<String> {
    let mut d: Dict<String> = Dict::new();
    for (k, v) in pairs {
        d.insert_text(k, v);
    }
    d
}

fn outcome(returned: Option<&str>, pairs: &[(&str, &str)]) -> Outcome {
    Outcome { returned: returned.map(|s| s.to_string()), contents: dict_of(pairs) }
}

#[test]
fn maps_are_compared_without_regard_to_order() {
    let a = dict_of(&[("a", "1"), ("b", "2")]);
    let b = dict_of(&[("b", "2"), ("a", "1")]);
    let c = dict_of(&[("a", "1"), ("b", "3")]);
    let d = dict_of(&[("a", "1")]);
    assert!(a.same_entries(&b));
    assert!(!a.same_entries(&c));
    assert!(!a.same_entries(&d));
    assert!(!d.same_entries(&a));
    assert!(d.included_in(&a));
    assert!(!a.included_in(&d));
    assert!(!c.included_in(&a));
    assert!(dict_of(&[]).same_entries(&dict_of(&[])));
    assert!(dict_of(&[]).included_in(&a));
}

#[test]
fn returned_values_are_compared() {
    assert!(same_returned(&None, &None));
    assert!(same_returned(&Some("a".to_string()), &Some("a".to_string())));
    assert!(!same_returned(&Some("a".to_string()), &Some("b".to_string())));
    assert!(!same_returned(&Some("a".to_string()), &None));
    assert!(!same_returned(&None, &Some("a".to_string())));
}

#[test]
fn one_outcome_is_compared() {
    let expected = outcome(Some("bar"), &[("foo", "bar")]);
    assert_eq!(compare_outcome(&expected, &outcome(Some("bar"), &[("foo", "bar")]), 5), None);
    assert_eq!(
        compare_outcome(&expected, &outcome(Some("baz"), &[("foo", "bar")]), 5),
        Some(VerificationMismatchError { scenario: 5, returned_differs: true, contents_differ: false })
    );
    assert_eq!(
        compare_outcome(&expected, &outcome(Some("bar"), &[]), 6),
        Some(VerificationMismatchError { scenario: 6, returned_differs: false, contents_differ: true })
    );
    assert_eq!(
        compare_outcome(&expected, &outcome(None, &[("foo", "x")]), 7),
        Some(VerificationMismatchError { scenario: 7, returned_differs: true, contents_differ: true })
    );
}

#[test]
fn every_scenario_that_differs_is_reported() {
    let expected = vec![
        outcome(Some("bar"), &[("foo", "bar")]),
        outcome(None, &[]),
        outcome(Some("1"), &[("a", "1"), ("b", "2")]),
        outcome(None, &[("k", "v")]),
    ];
    let actual = vec![
        outcome(Some("bar"), &[("foo", "bar")]),
        outcome(Some("x"), &[]),
        outcome(Some("1"), &[("b", "2"), ("a", "1")]),
        outcome(None, &[("k", "w")]),
    ];
    assert_eq!(
        verify_scenarios(&expected, &actual),
        vec![
            VerificationMismatchError { scenario: 1, returned_differs: true, contents_differ: false },
            VerificationMismatchError { scenario: 3, returned_differs: false, contents_differ: true },
        ]
    );
    assert_eq!(verify_scenarios(&expected, &expected), vec![]);
    assert_eq!(verify_scenarios(&Vec::new(), &Vec::new()), vec![]);
}

#[test]
fn setdefault_gives_what_the_model_gives() {
    let mut d = dict_of(&[]);
    let returned = d.setdefault("foo", "bar");
    let actual = Outcome { returned: Some(returned), contents: d };
    let expected = outcome(Some("bar"), &[("foo", "bar")]);
    assert_eq!(compare_outcome(&expected, &actual, 0), None);
}
