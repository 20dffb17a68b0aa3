//! Tests for the SQL query builder.

use zino_sched::json::JsonMap;
use zino_sched::json::Value;
use zino_sched::query::Query;

#[test]
fn new_query_defaults() {
    let query = Query::new();
    assert!(query.fields().is_empty());
    assert!(query.filter().is_empty());
    assert_eq!(query.order(), "");
    assert_eq!(query.limit(), 10);
    assert_eq!(query.offset(), 0);
}

#[test]
fn allow_fields_fills_empty_projection() {
    let mut query = Query::new();
    query.allow_fields(&vec!["id".to_string(), "name".to_string()]);
    assert_eq!(query.fields(), &["id".to_string(), "name".to_string()]);
}

#[test]
fn allow_fields_retains_matches_and_aliases() {
    let mut query = Query::new();
    query.allow_fields(&vec![
        "id".to_string(),
        "name".to_string(),
        "extra".to_string(),
        "total amount".to_string(),
    ]);
    query.allow_fields(&vec!["id".to_string(), "amount".to_string()]);
    assert_eq!(query.fields(), &["id".to_string(), "total amount".to_string()]);
}

#[test]
fn deny_fields_removes_matches() {
    let mut query = Query::new();
    query.allow_fields(&vec!["id".to_string(), "secret".to_string(), "name".to_string()]);
    query.deny_fields(&vec!["secret".to_string()]);
    assert_eq!(query.fields(), &["id".to_string(), "name".to_string()]);
}

#[test]
fn setters_and_accessors() {
    let mut query = Query::new();
    query.set_order("created_at DESC".to_string());
    query.set_limit(25);
    query.set_offset(50);
    assert_eq!(query.order(), "created_at DESC");
    assert_eq!(query.limit(), 25);
    assert_eq!(query.offset(), 50);
}

#[test]
fn filters_append_and_insert() {
    let mut query = Query::new();
    query.insert_filter("status".to_string(), Value::Str("active".to_string()));
    let mut more = JsonMap::new();
    more.insert("status".to_string(), Value::Str("archived".to_string()));
    more.insert("kind".to_string(), Value::Int(2));
    query.append_filter(&mut more);
    assert!(more.is_empty());
    let filter = query.filter();
    assert_eq!(filter.len(), 2);
    assert_eq!(filter.get("status"), Some(&Value::Str("archived".to_string())));
    assert_eq!(filter.get("kind"), Some(&Value::Int(2)));
}

#[test]
fn format_fields_star_or_join() {
    let mut query = Query::new();
    assert_eq!(query.format_fields(), "*");
    query.allow_fields(&vec!["id".to_string(), "name".to_string(), "status".to_string()]);
    assert_eq!(query.format_fields(), "id, name, status");
}

#[test]
fn format_sort_prefixes_order() {
    let mut query = Query::new();
    assert_eq!(query.format_sort(), "");
    query.set_order("name ASC".to_string());
    assert_eq!(query.format_sort(), "ORDER BY name ASC");
}

#[test]
fn format_pagination_includes_offset_by_default() {
    let mut query = Query::new();
    query.set_limit(20);
    query.set_offset(40);
    assert_eq!(query.format_pagination(), "LIMIT 20 OFFSET 40");
}

#[test]
fn format_pagination_drops_offset_for_filtered_sort_column() {
    let mut query = Query::new();
    query.set_limit(20);
    query.set_offset(40);
    query.set_order("created_at DESC".to_string());
    query.insert_filter("created_at".to_string(), Value::Str("2024-01-01".to_string()));
    assert_eq!(query.format_pagination(), "LIMIT 20");
}

#[test]
fn read_map_sets_scalars_and_order() {
    let mut query = Query::new();
    let mut data = JsonMap::new();
    data.insert("fields".to_string(), Value::Str("id,name".to_string()));
    data.insert("sort_by".to_string(), Value::Str("created_at".to_string()));
    data.insert("sort_order".to_string(), Value::Str("ASC".to_string()));
    data.insert("limit".to_string(), Value::UInt(25));
    data.insert("offset".to_string(), Value::Str("50".to_string()));
    let validation = query.read_map(data);
    assert!(validation.is_success());
    assert_eq!(query.fields(), &["id".to_string(), "name".to_string()]);
    assert_eq!(query.order(), "created_at ASC");
    assert_eq!(query.limit(), 25);
    assert_eq!(query.offset(), 50);
}

#[test]
fn read_map_order_gets_default_direction() {
    let mut query = Query::new();
    let mut data = JsonMap::new();
    data.insert("sort_by".to_string(), Value::Str("name".to_string()));
    let validation = query.read_map(data);
    assert!(validation.is_success());
    assert_eq!(query.order(), "name DESC");
}

#[test]
fn read_map_expands_sort_path() {
    let mut query = Query::new();
    let mut data = JsonMap::new();
    data.insert("sort_by".to_string(), Value::Str("meta.rank".to_string()));
    data.insert("sort_order".to_string(), Value::Str("desc".to_string()));
    query.read_map(data);
    assert_eq!(query.order(), "meta->'rank' DESC");
}

#[test]
fn read_map_records_bad_counts() {
    let mut query = Query::new();
    let mut data = JsonMap::new();
    data.insert("limit".to_string(), Value::Str("ten".to_string()));
    data.insert("offset".to_string(), Value::Int(-3));
    let validation = query.read_map(data);
    assert!(!validation.is_success());
    assert!(validation.contains_key("limit"));
    assert!(validation.contains_key("offset"));
    assert_eq!(query.limit(), 10);
    assert_eq!(query.offset(), 0);
}

#[test]
fn read_map_fills_the_filter() {
    let mut query = Query::new();
    let mut data = JsonMap::new();
    data.insert("status".to_string(), Value::Str("active".to_string()));
    data.insert("kind".to_string(), Value::Str("all".to_string()));
    data.insert("note".to_string(), Value::Str(String::new()));
    data.insert("timestamp".to_string(), Value::UInt(7));
    data.insert("$secret".to_string(), Value::Bool(true));
    let validation = query.read_map(data);
    assert!(validation.is_success());
    let filter = query.filter();
    assert_eq!(filter.len(), 1);
    assert_eq!(filter.get("status"), Some(&Value::Str("active".to_string())));
}

#[test]
fn read_map_builds_nested_arrays() {
    let mut query = Query::new();
    let mut data = JsonMap::new();
    data.insert("tags.1".to_string(), Value::Str("b".to_string()));
    data.insert("tags.0".to_string(), Value::Str("a".to_string()));
    let validation = query.read_map(data);
    assert!(validation.is_success());
    match query.filter().get("tags") {
        Some(Value::Array(items)) => {
            assert_eq!(items.len(), 3);
            assert_eq!(items[0], Value::Str("a".to_string()));
            assert_eq!(items[1], Value::Null);
            assert_eq!(items[2], Value::Str("b".to_string()));
        }
        other => panic!("unexpected filter entry: {:?}", other),
    }
}

#[test]
fn read_map_builds_nested_objects() {
    let mut query = Query::new();
    let mut data = JsonMap::new();
    data.insert("meta.rank".to_string(), Value::UInt(3));
    data.insert("meta.label".to_string(), Value::Str("x".to_string()));
    let validation = query.read_map(data);
    assert!(validation.is_success());
    match query.filter().get("meta") {
        Some(Value::Object(m)) => {
            assert_eq!(m.len(), 2);
            assert_eq!(m.get("rank"), Some(&Value::UInt(3)));
            assert_eq!(m.get("label"), Some(&Value::Str("x".to_string())));
        }
        other => panic!("unexpected filter entry: {:?}", other),
    }
}

#[test]
fn read_map_ignores_mismatched_nesting() {
    let mut query = Query::new();
    let mut data = JsonMap::new();
    data.insert("kind".to_string(), Value::Str("plain".to_string()));
    data.insert("kind.0".to_string(), Value::Str("dropped".to_string()));
    data.insert("kind.sub".to_string(), Value::Str("dropped".to_string()));
    query.read_map(data);
    assert_eq!(query.filter().get("kind"), Some(&Value::Str("plain".to_string())));
}

#[test]
fn read_map_reads_fields_from_an_array() {
    let mut query = Query::new();
    let mut data = JsonMap::new();
    data.insert(
        "fields".to_string(),
        Value::Array(vec![Value::Str("id".to_string()), Value::UInt(1), Value::Str("name".to_string())]),
    );
    query.read_map(data);
    assert_eq!(query.fields(), &["id".to_string(), "name".to_string()]);
}
