use container_ops::sets::{
    copy_set, create_set, create_static_set, difference, difference_update, elements,
    intersection, intersection_update, is_disjoint, is_subset, is_superset, set_check_and_add,
    set_eq, set_methods, symmetric_difference, symmetric_difference_update, union, SetCheck,
};
use std::collections::HashSet;

fn set_of(items: &[i64]) -> HashSet<i64> {
    items.iter().cloned().collect()
}

fn samples() -> Vec<HashSet<i64>> {
    vec![
        set_of(&[]),
        set_of(&[1]),
        set_of(&[1, 2, 3]),
        set_of(&[3, 4]),
        set_of(&[-5, 0, 5, 9]),
        set_of(&[2, 3, 4, 5, 6]),
    ]
}

#[test]
fn create_set_holds_the_range() {
    assert_eq!(create_set(0, 4), set_of(&[0, 1, 2, 3]));
    assert_eq!(create_set(-2, 1), set_of(&[-2, -1, 0]));
    assert_eq!(create_set(3, 3), set_of(&[]));
    assert_eq!(create_set(5, 2), set_of(&[]));
}

#[test]
fn elements_lists_each_element_once() {
    let s = set_of(&[4, 7, 9]);
    let mut v = elements(&s);
    v.sort();
    assert_eq!(v, vec![4, 7, 9]);
}

#[test]
fn set_algebra_on_values() {
    let x = set_of(&[1, 2, 3]);
    let y = set_of(&[3, 4]);
    assert_eq!(union(&x, &y), set_of(&[1, 2, 3, 4]));
    assert_eq!(difference(&x, &y), set_of(&[1, 2]));
    assert_eq!(intersection(&x, &y), set_of(&[3]));
    assert_eq!(symmetric_difference(&x, &y), set_of(&[1, 2, 4]));
}

#[test]
fn difference_update_equals_difference_then_reassignment() {
    for x in samples() {
        for y in samples() {
            let expected = difference(&x, &y);
            let mut updated = x.clone();
            difference_update(&mut updated, &y);
            assert_eq!(updated, expected);
        }
    }
}

#[test]
fn intersection_update_equals_intersection_then_reassignment() {
    for x in samples() {
        for y in samples() {
            let expected = intersection(&x, &y);
            let mut updated = x.clone();
            intersection_update(&mut updated, &y);
            assert_eq!(updated, expected);
        }
    }
}

#[test]
fn symmetric_difference_update_equals_symmetric_difference_then_reassignment() {
    for x in samples() {
        for y in samples() {
            let expected = symmetric_difference(&x, &y);
            let mut updated = x.clone();
            symmetric_difference_update(&mut updated, &y);
            assert_eq!(updated, expected);
        }
    }
}

#[test]
fn updates_on_values() {
    let mut x = set_of(&[1, 2, 3]);
    difference_update(&mut x, &set_of(&[3, 4]));
    assert_eq!(x, set_of(&[1, 2]));
    let mut x = set_of(&[1, 2, 3]);
    intersection_update(&mut x, &set_of(&[3, 4]));
    assert_eq!(x, set_of(&[3]));
    let mut x = set_of(&[1, 2, 3]);
    symmetric_difference_update(&mut x, &set_of(&[3, 4]));
    assert_eq!(x, set_of(&[1, 2, 4]));
    let mut x = set_of(&[]);
    symmetric_difference_update(&mut x, &set_of(&[]));
    assert_eq!(x, set_of(&[]));
}

#[test]
fn copy_set_is_equal_and_independent() {
    let mut s = set_of(&[1, 2]);
    let mut c = copy_set(&s);
    assert_eq!(c, s);
    c.insert(3);
    assert_eq!(s, set_of(&[1, 2]));
    s.clear();
    assert_eq!(c, set_of(&[1, 2, 3]));
}

#[test]
fn comparisons_of_sets() {
    let x = set_of(&[1, 2, 3]);
    let y = set_of(&[1, 2]);
    let e = set_of(&[]);
    assert!(is_subset(&y, &x));
    assert!(!is_subset(&x, &y));
    assert!(is_superset(&x, &y));
    assert!(!is_superset(&y, &x));
    assert!(is_subset(&e, &e));
    assert!(is_disjoint(&e, &e));
    assert!(is_disjoint(&x, &set_of(&[4])));
    assert!(!is_disjoint(&x, &y));
    assert!(set_eq(&x, &set_of(&[3, 2, 1])));
    assert!(!set_eq(&x, &y));
    assert!(set_eq(&e, &e));
}

#[test]
fn set_check_and_add_reports_presence() {
    let mut a = create_static_set();
    assert!(set_check_and_add(&mut a, "one"));
    assert_eq!(a.len(), 3);
    assert!(!set_check_and_add(&mut a, "four"));
    assert_eq!(a.len(), 4);
    assert!(a.contains("four"));
    assert!(set_check_and_add(&mut a, "four"));
    assert_eq!(a.len(), 4);
}

#[test]
fn create_static_set_holds_three_strings() {
    let a = create_static_set();
    assert_eq!(a.len(), 3);
    assert!(a.contains("one"));
    assert!(a.contains("two"));
    assert!(a.contains("three"));
    assert!(!a.contains("four"));
}

#[test]
fn set_methods_stops_at_the_fourth_check() {
    assert_eq!(set_methods(3, "x"), Err(SetCheck::DifferenceEqualsSource));
    assert_eq!(set_methods(0, ""), Err(SetCheck::DifferenceEqualsSource));
    assert_eq!(set_methods(-2, "ab"), Err(SetCheck::DifferenceEqualsSource));
}
