//! Tests for the small supporting types: strings, identifiers, timing
//! metrics and the log model.

use zino_sched::datetime::DateTime;
use zino_sched::datetime::Duration;
use zino_sched::json::JsonMap;
use zino_sched::json::Value;
use zino_sched::log::Log;
use zino_sched::request::AxumExtractor;
use zino_sched::strings::str_contains_char;
use zino_sched::strings::str_ends_with;
use zino_sched::strings::str_eq;
use zino_sched::strings::u64_to_string;
use zino_sched::trace::ServerTiming;
use zino_sched::trace::TimingMetric;
use zino_sched::uuid::Uuid;

#[test]
fn string_helpers() {
    assert!(str_eq("abc", "abc"));
    assert!(!str_eq("abc", "abd"));
    assert!(!str_eq("abc", "ab"));
    assert!(str_ends_with("total amount", " amount"));
    assert!(!str_ends_with("amount", " amount"));
    assert!(str_contains_char("a.b", '.'));
    assert!(!str_contains_char("ab", '.'));
}

#[test]
fn decimal_rendering() {
    assert_eq!(u64_to_string(0), "0");
    assert_eq!(u64_to_string(7), "7");
    assert_eq!(u64_to_string(105), "105");
    assert_eq!(u64_to_string(u64::MAX), "18446744073709551615");
}

#[test]
fn datetime_and_duration_round_trip() {
    let dt = DateTime::from_millis(-5);
    assert_eq!(dt.as_millis(), -5);
    let d = Duration::from_millis(1_500);
    assert_eq!(d.as_millis(), 1_500);
}

#[test]
fn uuid_parses_canonical_form() {
    let parsed = Uuid::from_hyphenated("00000000-0000-0000-0000-0000000000ff");
    assert_eq!(parsed, Some(Uuid::from_u128(255)));
    let parsed = Uuid::from_hyphenated("67e55044-10b1-426f-9247-bb680e5fe0c8");
    assert_eq!(parsed, Some(Uuid::from_u128(0x67e5504410b1426f9247bb680e5fe0c8)));
    assert_eq!(Uuid::from_hyphenated("not a uuid"), None);
    assert_eq!(Uuid::from_u128(42).as_u128(), 42);
}

#[test]
fn timing_metrics_render() {
    let metric = TimingMetric::new("db".to_string(), Duration::from_millis(42));
    assert_eq!(metric.format(), "db;dur=42");
    let mut timing = ServerTiming::new();
    assert_eq!(timing.format(), "");
    timing.push(TimingMetric::new("db".to_string(), Duration::from_millis(42)));
    timing.push(TimingMetric::new("render".to_string(), Duration::from_millis(7)));
    assert_eq!(timing.format(), "db;dur=42, render;dur=7");
}

#[test]
fn log_reads_id_and_name() {
    let mut log = Log::new();
    let mut data = JsonMap::new();
    data.insert(
        "id".to_string(),
        Value::Str("00000000-0000-0000-0000-0000000000ff".to_string()),
    );
    data.insert("name".to_string(), Value::Str("startup".to_string()));
    let validation = log.read_map(&data);
    assert!(validation.is_success());
    assert_eq!(log.id, Uuid::from_u128(255));
    assert_eq!(log.name, "startup");
}

#[test]
fn log_records_bad_id_and_empty_name() {
    let mut log = Log::new();
    let mut data = JsonMap::new();
    data.insert("id".to_string(), Value::Str("not a uuid".to_string()));
    let validation = log.read_map(&data);
    assert!(!validation.is_success());
    assert!(validation.contains_key("id"));
    assert!(validation.contains_key("name"));
    let map = validation.into_map();
    assert_eq!(map.get("id"), Some(&Value::Str("invalid uuid".to_string())));
    assert_eq!(map.get("name"), Some(&Value::Str("should be nonempty".to_string())));
}

#[test]
fn log_keeps_name_when_map_has_none() {
    let mut log = Log::new();
    log.name = "existing".to_string();
    let data = JsonMap::new();
    let validation = log.read_map(&data);
    assert!(validation.is_success());
    assert_eq!(log.name, "existing");
}

#[test]
fn extractor_wraps_and_unwraps() {
    let wrapped = AxumExtractor::new(41_u32);
    assert_eq!(*wrapped.get(), 41);
    assert_eq!(wrapped.into_inner(), 41);
}
