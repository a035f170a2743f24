use aeon_engine::definition::PipelineState;
use aeon_engine::error::AeonError;
use aeon_engine::name_map::NameMap;
use aeon_engine::partition_map::PartitionMap;
use aeon_engine::text::{
    eq_ignore_case, i64_text, is_before, is_white_space, join_listed, parse_digits, u64_text,
};
use aeon_engine::time::{has_elapsed, Duration};

#[test]
fn numbers_are_written_in_decimal() {
    assert_eq!(u64_text(0), "0");
    assert_eq!(u64_text(u64::MAX), "18446744073709551615");
    assert_eq!(i64_text(-7), "-7");
    assert_eq!(i64_text(i64::MIN), "-9223372036854775808");
}

#[test]
fn digits_are_read_back() {
    let read = |s: &str| {
        let chars: Vec<char> = s.chars().collect();
        parse_digits(&chars, 0, chars.len())
    };
    assert_eq!(read("0042"), Some(42));
    assert_eq!(read("18446744073709551615"), Some(u64::MAX));
    assert_eq!(read("18446744073709551616"), None);
}

#[test]
fn texts_are_ordered_by_their_characters() {
    assert!(is_before("a", "b"));
    assert!(is_before("a", "aa"));
    assert!(!is_before("b", "a"));
    assert!(!is_before("a", "a"));
}

#[test]
fn case_and_space() {
    assert!(eq_ignore_case("NaTive", "native"));
    assert!(!eq_ignore_case("natives", "native"));
    assert!(is_white_space('\u{3000}'));
    assert!(!is_white_space('x'));
}

#[test]
fn lists_are_joined_with_commas() {
    assert_eq!(join_listed(&vec!["a".to_string(), "b".to_string()]), "a, b");
    assert_eq!(join_listed(&Vec::new()), "");
}

#[test]
fn names_are_kept_in_order() {
    let mut m: NameMap<u8> = NameMap::new();
    m.insert("b".to_string(), 2);
    m.insert("a".to_string(), 1);
    m.insert("b".to_string(), 3);
    assert_eq!(m.len(), 2);
    assert_eq!(m.names(), vec!["a".to_string(), "b".to_string()]);
    assert_eq!(m.get("b"), Some(&3));
    assert_eq!(m.remove("a"), Some(1));
    assert_eq!(m.remove("a"), None);
    assert!(!m.contains("a"));
    if let Some(v) = m.get_mut("b") {
        *v = 9;
    }
    assert_eq!(m.duplicate().get("b"), Some(&9));
}

#[test]
fn partitions_of_different_pipelines_are_apart() {
    let mut m: PartitionMap<u8> = PartitionMap::new();
    m.insert("p", 1, 10);
    m.insert("q", 1, 20);
    assert_eq!(m.remove("p", 1), Some(10));
    assert_eq!(m.remove("p", 1), None);
    assert_eq!(m.remove("q", 1), Some(20));
}

#[test]
fn time_is_counted_in_nanoseconds() {
    let d = Duration::from_millis(1_500);
    assert_eq!((d.secs, d.nanos), (1, 500_000_000));
    assert_eq!(d.as_nanos(), 1_500_000_000);
    assert_eq!(Duration::from_total_nanos(1_500_000_000), d);
    assert!(Duration::zero().is_zero());
    assert!(has_elapsed(0, 1_500_000_000, d));
    assert!(!has_elapsed(1, 1_500_000_000, d));
    assert!(!has_elapsed(10, 5, d));
}

#[test]
fn errors_carry_their_message() {
    for e in [
        AeonError::config("m".to_string()),
        AeonError::not_found("m".to_string()),
        AeonError::state("m".to_string()),
        AeonError::processor("m".to_string()),
        AeonError::serialization("m".to_string()),
    ] {
        assert_eq!(e.message(), "m");
        assert!(!e.is_retryable());
    }
    assert!(AeonError::connection("m".to_string()).is_retryable());
    assert!(AeonError::timeout("m".to_string()).is_retryable());
}

#[test]
fn states_are_written_in_lower_case() {
    assert_eq!(PipelineState::Running.as_text(), "running");
}
