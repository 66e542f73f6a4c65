use container_ops::add_mult::{
    add_mult, bitwise, boolean, boolean_precedence, compare, floor_div, multi_compare, powers,
    precedence, sub_div, unaries,
};
use container_ops::classes::{add_foo, create_foo, examine_foo, increment_foo, Foo};
use container_ops::flow_of_control::{for_loop, if_elif_else, if_else, return_if_else};
use container_ops::function_calls::{call_add_mult, call_flow_of_control, call_local};
use container_ops::strings::{invoke_all, str_str_op, str_str_string, str_string};
use container_ops::traits::{make_it_waddle, tests, Duck};
use container_ops::tuples::{return_tuple, tuple_in_args, use_returned_tuple, use_tuple_for_swap};
use container_ops::variables::{
    annotated_assignment, assignment, aug_assign, pathological, repeated_assign, str_eq,
};

#[test]
fn arithmetic_values() {
    assert_eq!(add_mult(1, 2, 3), 7);
    assert_eq!(sub_div(10, 7, 2), 7);
    assert_eq!(sub_div(10, -7, 2), 13);
    assert_eq!(sub_div(10, 7, -2), 13);
    assert_eq!(floor_div(10, 7, 4), 3);
    assert_eq!(floor_div(10, -7, 4), -3);
    assert_eq!(precedence(2, 3, 4), 15);
    assert_eq!(unaries(1, 2, 3), 3);
    assert_eq!(unaries(0, 0, 0), 0);
}

#[test]
fn bitwise_value() {
    assert_eq!(bitwise(1, 2, 1), 3);
    assert_eq!(bitwise(3, 1, 0), 3 ^ ((3 << 1) & 1));
    assert_eq!(bitwise(5, 3, 1), ((5 << 3) & (3 >> 1)) ^ (5 | 3));
}

#[test]
fn powers_value() {
    assert_eq!(powers(2, 1, 1), 13122);
    assert_eq!(powers(1, 1, 0), 2);
    assert_eq!(powers(-2, 1, 2), 2);
    assert_eq!(powers(3, 0, 0), 3);
}

#[test]
fn boolean_values() {
    assert!(boolean(true, true, true));
    assert!(boolean(false, false, false));
    assert!(!boolean(true, false, true));
    assert!(boolean_precedence(true, true, false));
    assert!(boolean_precedence(true, false, true));
    assert!(!boolean_precedence(true, false, false));
    assert!(!boolean_precedence(false, false, true));
    assert!(compare(1, 2, 3));
    assert!(compare(3, 2, 2));
    assert!(multi_compare(1, 2, 3));
    assert!(multi_compare(3, 2, 1));
    assert!(multi_compare(1, 2, 2));
    assert!(!multi_compare(2, 2, 2));
    assert!(!multi_compare(1, 3, 2));
}

#[test]
fn tuple_values() {
    assert_eq!(use_tuple_for_swap(3, 5), 2);
    assert_eq!(use_tuple_for_swap(5, 3), 2);
    assert_eq!(use_tuple_for_swap(4, 4), 0);
    assert_eq!(return_tuple(1, 2), (1, 2));
    assert_eq!(use_returned_tuple(-1, 6), 7);
    assert_eq!(tuple_in_args((2, 9)), 7);
    assert_eq!(tuple_in_args((9, 2)), 7);
}

#[test]
fn variable_values() {
    assert_eq!(assignment(true, "x", 1, 2), 21);
    assert_eq!(assignment(false, "hello", 1, 2), 21);
    assert_eq!(assignment(false, "x", 1, 2), 0);
    assert_eq!(annotated_assignment(true, "hello", 1, 2), 6);
    assert_eq!(annotated_assignment(true, "x", 1, 2), 0);
    assert_eq!(annotated_assignment(false, "hello", 1, 2), 0);
    assert_eq!(aug_assign(2, -1), -1);
    assert_eq!(aug_assign(-1, 4), 4);
    assert_eq!(aug_assign(1, 1), 0);
    assert_eq!(repeated_assign("a", "b"), "b");
    assert_eq!(repeated_assign("a", "a"), "equal");
    assert_eq!(pathological(true, "b", "c"), "b");
    assert_eq!(pathological(false, "b", "c"), "c");
    assert!(str_eq("a", "a"));
    assert!(!str_eq("a", "ab"));
}

#[test]
fn flow_of_control_values() {
    assert_eq!(if_else(true, 7), 7);
    assert_eq!(if_else(false, 7), 42);
    assert_eq!(return_if_else(true, 7), 7);
    assert_eq!(return_if_else(false, 7), 42);
    assert_eq!(if_elif_else(true, true, "c", "d"), "c");
    assert_eq!(if_elif_else(true, false, "c", "d"), "d");
    assert_eq!(if_elif_else(false, true, "c", "d"), "d");
    assert_eq!(if_elif_else(false, false, "c", "d"), "Neither");
    assert_eq!(for_loop(0, 5), 10);
    assert_eq!(for_loop(-3, 2), -5);
    assert_eq!(for_loop(4, 4), 0);
    assert_eq!(for_loop(9, 1), 0);
}

#[test]
fn function_call_values() {
    assert_eq!(call_add_mult(1, 6, 3), 18);
    assert_eq!(call_flow_of_control(true, 5), 5);
    assert_eq!(call_flow_of_control(false, 5), 42);
    assert_eq!(call_local(3, 6, 3), 16);
    assert_eq!(call_local(-1, 6, 3), 14);
}

#[test]
fn record_values() {
    let mut foo = Foo::new(7, "seven");
    assert_eq!(foo.a, 7);
    assert_eq!(foo.b, "seven");
    assert_eq!(foo.counter, 0);
    foo.increment();
    assert_eq!(foo.counter, 1);
    foo.add(-5);
    assert_eq!(foo.counter, -4);
    let mut other = create_foo(1, "one");
    increment_foo(&mut other);
    add_foo(&mut other, 10);
    assert_eq!(other.counter, 11);
    assert_eq!(examine_foo(&other), (1, "one".to_string()));
    assert_eq!(foo.counter, -4);
}

#[test]
fn string_values() {
    assert_eq!(str_str_string("foo", "bar"), "foo");
    assert_eq!(str_str_string("foo", "foo"), "foo");
    assert_eq!(str_string("foo"), "foo");
    assert_eq!(str_str_op("foo", "bar"), "foobarfoofoobar");
    assert_eq!(
        invoke_all(),
        ("foo".to_string(), "foo".to_string(), "foobarfoofoobar".to_string())
    );
}

#[test]
fn duck_values() {
    let duck = Duck::new(true);
    assert!(duck.echoes());
    assert!(!Duck::new(false).echoes());
    assert_eq!(duck.waddle(true), "elegantly waddle");
    assert_eq!(duck.waddle(false), "waddle");
    assert_eq!(make_it_waddle(&duck), "waddle");
    assert_eq!(tests(), "waddle");
}
