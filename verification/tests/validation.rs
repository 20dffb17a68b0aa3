//! Tests for the validation record and its format rules.

use zino_sched::json::Value;
use zino_sched::validation::Validation;

fn check(value: &str, format: &str) -> bool {
    let mut validation = Validation::new();
    validation.validate_format("field".to_string(), value, format);
    validation.is_success()
}

#[test]
fn record_and_query_entries() {
    let mut validation = Validation::new();
    assert!(validation.is_success());
    validation.record("name".to_string(), "should be nonempty".to_string());
    validation.record_fail("id".to_string(), "invalid uuid".to_string());
    assert!(!validation.is_success());
    assert!(validation.contains_key("name"));
    assert!(validation.contains_key("id"));
    assert!(!validation.contains_key("other"));
}

#[test]
fn from_entry_holds_one_failure() {
    let validation = Validation::from_entry("limit".to_string(), "out of range".to_string());
    assert!(!validation.is_success());
    assert!(validation.contains_key("limit"));
}

#[test]
fn into_map_collapses_entries() {
    let mut validation = Validation::new();
    validation.record("a".to_string(), "first".to_string());
    validation.record("b".to_string(), "second".to_string());
    validation.record("a".to_string(), "third".to_string());
    let map = validation.into_map();
    assert_eq!(map.len(), 2);
    assert_eq!(map.get("a"), Some(&Value::Str("third".to_string())));
    assert_eq!(map.get("b"), Some(&Value::Str("second".to_string())));
}

#[test]
fn validate_format_records_failures() {
    let mut validation = Validation::new();
    validation.validate_format("name".to_string(), "abc1", "alphabetic");
    assert!(!validation.is_success());
    assert!(validation.contains_key("name"));
    let map = validation.into_map();
    assert_eq!(map.get("name"), Some(&Value::Str("invalid alphabetic".to_string())));
}

#[test]
fn unknown_format_records_nothing() {
    assert!(check("anything at all", "no-such-format"));
}

#[test]
fn unicode_classes() {
    assert!(check("abc", "alphabetic"));
    assert!(!check("ab1", "alphabetic"));
    assert!(check("ab1", "alphanumeric"));
    assert!(!check("ab ", "alphanumeric"));
    assert!(check("abc", "lowercase"));
    assert!(!check("aBc", "lowercase"));
    assert!(check("ABC", "uppercase"));
    assert!(!check("AbC", "uppercase"));
    assert!(check("123", "numeric"));
    assert!(!check("12a", "numeric"));
}

#[test]
fn ascii_classes() {
    assert!(check("hello!", "ascii"));
    assert!(!check("héllo", "ascii"));
    assert!(check("abcDEF", "ascii-alphabetic"));
    assert!(!check("abc def", "ascii-alphabetic"));
    assert!(check("abc123", "ascii-alphanumeric"));
    assert!(!check("abc-123", "ascii-alphanumeric"));
    assert!(check("0123", "ascii-digit"));
    assert!(!check("012a", "ascii-digit"));
    assert!(check("Deadbeef09", "ascii-hexdigit"));
    assert!(!check("deadbeefg", "ascii-hexdigit"));
    assert!(check("abc", "ascii-lowercase"));
    assert!(!check("abC", "ascii-lowercase"));
    assert!(check("ABC", "ascii-uppercase"));
    assert!(!check("ABc", "ascii-uppercase"));
}

#[test]
fn dates_and_times() {
    assert!(check("2024-02-29", "date"));
    assert!(!check("2023-02-29", "date"));
    assert!(!check("2024-13-01", "date"));
    assert!(!check("2024-04-31", "date"));
    assert!(!check("2024-2-29", "date"));
    assert!(check("23:59:59", "time"));
    assert!(!check("24:00:00", "time"));
    assert!(!check("12:60:00", "time"));
    assert!(check("2024-02-29T23:59:59", "date-time"));
    assert!(check("2024-02-29 23:59:59", "date-time"));
    assert!(!check("2024-02-29x23:59:59", "date-time"));
    assert!(!check("2024-02-30T00:00:00", "date-time"));
}

#[test]
fn uuids() {
    assert!(check("67e55044-10b1-426f-9247-bb680e5fe0c8", "uuid"));
    assert!(!check("67e55044-10b1-426f-9247-bb680e5fe0c", "uuid"));
    assert!(!check("67e5504410b1426f9247bb680e5fe0c8", "uuid"));
    assert!(!check("67e55044-10b1-426f-9247-bb680e5fe0cg", "uuid"));
}

#[test]
fn addresses_and_hosts() {
    assert!(check("192.168.0.1", "ipv4"));
    assert!(check("0.0.0.0", "ipv4"));
    assert!(!check("256.0.0.1", "ipv4"));
    assert!(!check("01.2.3.4", "ipv4"));
    assert!(!check("1.2.3", "ipv4"));
    assert!(check("2001:db8::1", "ipv6"));
    assert!(!check("2001:zz8::1", "ipv6"));
    assert!(!check("192.168.0.1", "ipv6"));
    assert!(check("192.168.0.1", "ip"));
    assert!(check("::1", "ip"));
    assert!(!check("not an ip", "ip"));
    assert!(check("example.com", "hostname"));
    assert!(check("a-1.b-2.c", "hostname"));
    assert!(!check("-bad.com", "hostname"));
    assert!(!check("bad-.com", "hostname"));
    assert!(!check("bad..com", "hostname"));
    assert!(check("example.com", "host"));
    assert!(check("127.0.0.1", "host"));
}

#[test]
fn uris() {
    assert!(check("https://example.com", "uri"));
    assert!(check("mailto:someone", "uri"));
    assert!(!check("nocolon", "uri"));
    assert!(!check("1http://x", "uri"));
    assert!(!check("trailing:", "uri"));
}
