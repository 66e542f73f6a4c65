use container_ops::lists::{
    count_str, create_list, list_methods, max, min, position, position_str, process_list, repeat,
    reverse, sort, static_lists, sum, ListCheck,
};

fn strings(items: &[&str]) -> Vec<String> {
    items.iter().map(|s| s.to_string()).collect()
}

#[test]
fn create_list_squares_the_range() {
    assert_eq!(create_list(1, 4), vec![1, 4, 9]);
    assert_eq!(create_list(-2, 2), vec![4, 1, 0, 1]);
    assert_eq!(create_list(3, 3), Vec::<i64>::new());
    assert_eq!(create_list(5, 1), Vec::<i64>::new());
}

#[test]
fn process_list_pairs_up_to_the_shorter() {
    assert_eq!(process_list(&[1, 2, 3], &[4, 5]), vec![(1, 4), (2, 5)]);
    assert_eq!(process_list(&[], &[4, 5]), Vec::<(i64, i64)>::new());
    assert_eq!(process_list(&[7], &[8]), vec![(7, 8)]);
}

#[test]
fn static_lists_knows_four_odd_numbers() {
    assert!(static_lists(1));
    assert!(static_lists(3));
    assert!(static_lists(5));
    assert!(static_lists(7));
    assert!(!static_lists(0));
    assert!(!static_lists(2));
    assert!(!static_lists(9));
    assert!(!static_lists(-1));
}

#[test]
fn list_methods_stops_where_a_check_fails() {
    assert_eq!(list_methods(0, "x"), Err(ListCheck::InsertPosition));
    assert_eq!(list_methods(-3, ""), Err(ListCheck::InsertPosition));
    assert_eq!(list_methods(1, "x"), Err(ListCheck::FirstOccurrences));
    assert_eq!(list_methods(3, "foo"), Err(ListCheck::FirstOccurrences));
    assert_eq!(list_methods(1, ""), Err(ListCheck::PoppedInteger));
    assert_eq!(list_methods(4, ""), Err(ListCheck::PoppedInteger));
}

#[test]
fn repeat_writes_the_text_in_a_row() {
    assert_eq!(repeat("ab", 0), "");
    assert_eq!(repeat("ab", 1), "ab");
    assert_eq!(repeat("ab", 3), "ababab");
    assert_eq!(repeat("", 5), "");
}

#[test]
fn sum_min_max() {
    assert_eq!(sum(&vec![1, 2, 3, -4]), 2);
    assert_eq!(sum(&vec![]), 0);
    assert_eq!(min(&vec![3, -1, 2]), Some(-1));
    assert_eq!(max(&vec![3, -1, 2]), Some(3));
    assert_eq!(min(&vec![]), None);
    assert_eq!(max(&vec![]), None);
}

#[test]
fn positions_and_counts() {
    assert_eq!(position(&vec![5, 6, 5], 5), Some(0));
    assert_eq!(position(&vec![5, 6, 5], 6), Some(1));
    assert_eq!(position(&vec![5, 6, 5], 7), None);
    let v = strings(&["a", "b", "a"]);
    assert_eq!(position_str(&v, "b"), Some(1));
    assert_eq!(position_str(&v, "a"), Some(0));
    assert_eq!(position_str(&v, "c"), None);
    assert_eq!(count_str(&v, "a"), 2);
    assert_eq!(count_str(&v, "c"), 0);
}

#[test]
fn reverse_turns_the_list_round() {
    let mut v = vec![1, 2, 3, 4];
    reverse(&mut v);
    assert_eq!(v, vec![4, 3, 2, 1]);
    let mut v = vec![1, 2, 3];
    reverse(&mut v);
    assert_eq!(v, vec![3, 2, 1]);
    let mut v: Vec<i64> = vec![];
    reverse(&mut v);
    assert_eq!(v, Vec::<i64>::new());
}

#[test]
fn sort_orders_strings() {
    let mut v = strings(&["b", "", "foo", "a", "ab"]);
    sort(&mut v);
    assert_eq!(v, strings(&["", "a", "ab", "b", "foo"]));
}
