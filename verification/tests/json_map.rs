//! Tests for the ordered-insertion map and its values.

use zino_sched::json::JsonMap;
use zino_sched::json::Value;

#[test]
fn insert_keeps_insertion_order() {
    let mut map = JsonMap::new();
    assert!(map.is_empty());
    map.insert("b".to_string(), Value::Int(1));
    map.insert("a".to_string(), Value::Int(2));
    assert_eq!(map.len(), 2);
    let items = map.items();
    assert_eq!(items[0].0, "b");
    assert_eq!(items[1].0, "a");
}

#[test]
fn insert_replaces_in_place() {
    let mut map = JsonMap::new();
    map.insert("a".to_string(), Value::Int(1));
    map.insert("b".to_string(), Value::Int(2));
    map.insert("a".to_string(), Value::Int(3));
    assert_eq!(map.len(), 2);
    let items = map.items();
    assert_eq!(items[0].0, "a");
    assert_eq!(items[0].1, Value::Int(3));
    assert_eq!(items[1].0, "b");
}

#[test]
fn get_and_contains_key() {
    let mut map = JsonMap::new();
    map.insert("key".to_string(), Value::Str("value".to_string()));
    assert!(map.contains_key("key"));
    assert!(!map.contains_key("other"));
    assert_eq!(map.get("key"), Some(&Value::Str("value".to_string())));
    assert_eq!(map.get("other"), None);
}

#[test]
fn append_moves_and_overrides() {
    let mut left = JsonMap::new();
    left.insert("a".to_string(), Value::Int(1));
    left.insert("b".to_string(), Value::Int(2));
    let mut right = JsonMap::new();
    right.insert("b".to_string(), Value::Int(20));
    right.insert("c".to_string(), Value::Int(30));
    left.append(&mut right);
    assert!(right.is_empty());
    assert_eq!(left.len(), 3);
    let items = left.items();
    assert_eq!(items[0], ("a".to_string(), Value::Int(1)));
    assert_eq!(items[1], ("b".to_string(), Value::Int(20)));
    assert_eq!(items[2], ("c".to_string(), Value::Int(30)));
}

#[test]
fn upsert_behaves_like_insert() {
    let mut map = JsonMap::new();
    map.upsert("k".to_string(), Value::Bool(true));
    map.upsert("k".to_string(), Value::Bool(false));
    assert_eq!(map.len(), 1);
    assert_eq!(map.get("k"), Some(&Value::Bool(false)));
}

#[test]
fn string_values_compare() {
    let v = Value::Str("all".to_string());
    assert!(v.is_str_value("all"));
    assert!(!v.is_str_value("some"));
    assert!(!Value::Null.is_str_value("all"));
}
