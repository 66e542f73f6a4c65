use container_ops::dict::Dict;
use container_ops::dictionaries::{
    access_dict, create_dict, dict_methods, entry_line, extend_dict, static_dict,
};

fn strings(items: &[&str]) -> Vec<String> {
    items.iter().map(|s| s.to_string()).collect()
}

fn dict_of(pairs: &[(&str, &str)]) -> Dict<String> {
    let mut d: Dict<String> = Dict::new();
    for (k, v) in pairs {
        d.insert_text(k, v);
    }
    d
}

fn sorted_items(d: &Dict<String>) -> Vec<(String, String)> {
    let mut items = d.items();
    items.sort();
    items
}

#[test]
fn setdefault_on_empty_map_inserts_default() {
    let mut d: Dict<String> = Dict::new();
    let r = d.setdefault("foo", "bar");
    assert_eq!(r, "bar");
    assert_eq!(sorted_items(&d), vec![("foo".to_string(), "bar".to_string())]);
}

#[test]
fn setdefault_on_present_key_returns_value_and_changes_nothing() {
    let mut d = dict_of(&[("foo", "old"), ("k", "v")]);
    let r = d.setdefault("foo", "bar");
    assert_eq!(r, "old");
    assert_eq!(
        sorted_items(&d),
        vec![("foo".to_string(), "old".to_string()), ("k".to_string(), "v".to_string())]
    );
}

#[test]
fn popitem_on_single_entry_then_fails() {
    let mut d = dict_of(&[("foo", "bar")]);
    assert_eq!(d.popitem(), Some(("foo".to_string(), "bar".to_string())));
    assert_eq!(d.len(), 0);
    assert_eq!(d.popitem(), None);
    assert_eq!(d.len(), 0);
}

#[test]
fn popitem_removes_exactly_one_entry() {
    let mut d = dict_of(&[("a", "1"), ("b", "2"), ("c", "3")]);
    let before = sorted_items(&d);
    let (k, v) = d.popitem().unwrap();
    assert!(before.contains(&(k.clone(), v)));
    assert!(!d.contains_key(&k));
    assert_eq!(d.len(), 2);
}

#[test]
fn access_dict_skips_missing_and_follows_key_order() {
    let d = dict_of(&[("a", "1"), ("b", "2")]);
    assert_eq!(access_dict(&strings(&["a", "c"]), d), strings(&["1"]));
    let d = dict_of(&[("a", "1"), ("b", "2")]);
    assert_eq!(access_dict(&strings(&["b", "a", "b"]), d), strings(&["2", "1", "2"]));
    let d = dict_of(&[("a", "1")]);
    assert_eq!(access_dict(&[], d), Vec::<String>::new());
}

#[test]
fn extend_dict_overwrites() {
    let mut d = dict_of(&[("foo", "bar")]);
    extend_dict("foo", "baz", &mut d);
    assert_eq!(sorted_items(&d), vec![("foo".to_string(), "baz".to_string())]);
    extend_dict("k", "v", &mut d);
    assert_eq!(d.len(), 2);
    assert_eq!(d.get("k"), Some(&"v".to_string()));
}

#[test]
fn create_dict_pairs_keys_with_values() {
    let d = create_dict(&strings(&["a", "b"]), &strings(&["1", "2"]));
    assert_eq!(
        sorted_items(&d),
        vec![("a".to_string(), "1".to_string()), ("b".to_string(), "2".to_string())]
    );
}

#[test]
fn create_dict_stops_at_the_shorter_list_and_keeps_the_last_value() {
    let d = create_dict(&strings(&["a", "b", "a", "z"]), &strings(&["1", "2", "3"]));
    assert_eq!(
        sorted_items(&d),
        vec![("a".to_string(), "3".to_string()), ("b".to_string(), "2".to_string())]
    );
    let d = create_dict(&[], &strings(&["1"]));
    assert_eq!(d.len(), 0);
}

#[test]
fn static_dict_has_three_entries() {
    let d = static_dict();
    assert_eq!(d.len(), 3);
    assert_eq!(d.get("foo"), Some(&1));
    assert_eq!(d.get("bar"), Some(&2));
    assert_eq!(d.get("wombat"), Some(&3));
    assert_eq!(d.get("other"), None);
}

#[test]
fn dict_methods_leaves_foo_bar() {
    let mut d: Dict<String> = Dict::new();
    let printed = dict_methods(&mut d);
    assert_eq!(printed, strings(&["foo :  bar"]));
    assert_eq!(sorted_items(&d), vec![("foo".to_string(), "bar".to_string())]);

    let mut d = dict_of(&[("x", "y"), ("foo", "bar")]);
    let printed = dict_methods(&mut d);
    assert_eq!(printed, strings(&["foo :  bar"]));
    assert_eq!(sorted_items(&d), vec![("foo".to_string(), "bar".to_string())]);
}

#[test]
fn entry_line_format() {
    assert_eq!(entry_line("k", "v"), "k :  v");
}

#[test]
fn pop_with_default() {
    let mut d = dict_of(&[("a", "1")]);
    assert_eq!(d.pop("a", "d".to_string()), "1");
    assert_eq!(d.len(), 0);
    assert_eq!(d.pop("a", "d".to_string()), "d");
    assert_eq!(d.len(), 0);
    let mut d = dict_of(&[("a", "1"), ("b", "2")]);
    assert_eq!(d.pop("zz", "d".to_string()), "d");
    assert_eq!(d.len(), 2);
}

#[test]
fn get_or_default() {
    let d = dict_of(&[("a", "1")]);
    assert_eq!(d.get_or("a", "x"), "1");
    assert_eq!(d.get_or("b", "x"), "x");
}

#[test]
fn copy_is_equal_and_independent() {
    let mut d = dict_of(&[("a", "1"), ("b", "2")]);
    let mut c = d.copy();
    assert_eq!(sorted_items(&c), sorted_items(&d));
    assert_eq!(d.len(), 2);
    c.insert_text("c", "3");
    assert_eq!(d.len(), 2);
    assert!(!d.contains_key("c"));
    d.remove("a");
    assert_eq!(c.len(), 3);
    assert!(c.contains_key("a"));
}

#[test]
fn folding_entries_into_a_new_map_keeps_the_original() {
    let d = dict_of(&[("a", "1"), ("b", "2"), ("c", "3")]);
    let before = sorted_items(&d);
    let rebuilt = Dict::from_items(&d.items());
    assert_eq!(sorted_items(&rebuilt), before);
    assert_eq!(sorted_items(&d), before);
    assert_eq!(d.len(), 3);
}

#[test]
fn from_items_later_pair_wins() {
    let items = vec![
        ("a".to_string(), "1".to_string()),
        ("a".to_string(), "2".to_string()),
    ];
    let d = Dict::from_items(&items);
    assert_eq!(sorted_items(&d), vec![("a".to_string(), "2".to_string())]);
}

#[test]
fn update_prefers_the_other_map() {
    let mut d = dict_of(&[("a", "1"), ("b", "2")]);
    let other = dict_of(&[("b", "20"), ("c", "30")]);
    d.update(&other);
    assert_eq!(
        sorted_items(&d),
        vec![
            ("a".to_string(), "1".to_string()),
            ("b".to_string(), "20".to_string()),
            ("c".to_string(), "30".to_string())
        ]
    );
    assert_eq!(other.len(), 2);
}

#[test]
fn remove_clear_and_contains() {
    let mut d = dict_of(&[("a", "1"), ("b", "2")]);
    assert!(d.contains_key("a"));
    assert_eq!(d.remove("a"), Some("1".to_string()));
    assert_eq!(d.remove("a"), None);
    assert!(!d.contains_key("a"));
    assert_eq!(d.len(), 1);
    d.clear();
    assert_eq!(d.len(), 0);
    assert!(!d.contains_key("b"));
}

#[test]
fn insert_replaces_value() {
    let mut d: Dict<i64> = Dict::new();
    d.insert("a", 1);
    d.insert("a", 2);
    assert_eq!(d.len(), 1);
    assert_eq!(d.get("a"), Some(&2));
}
