use aeon_engine::retention_probe::{
    parse_hold_duration, resolve_retention_plan, L2RetentionBlock, L3RetentionBlock,
    RetentionBlock, RetentionPlan,
};
use aeon_engine::time::Duration;

#[test]
fn default_block_resolves_to_inert_plan() {
    let p = resolve_retention_plan(&RetentionBlock::default()).unwrap();
    assert!(p.is_inert());
    assert_eq!(p.l2_hold_after_ack, Duration::zero());
    assert_eq!(p.l3_max_records, None);
}

#[test]
fn the_default_plan_holds_nothing_back() {
    let p = RetentionPlan::default();
    assert!(p.is_inert());
    assert_eq!(p, resolve_retention_plan(&RetentionBlock::default()).unwrap());
}

#[test]
fn parse_seconds() {
    assert_eq!(parse_hold_duration("300s").unwrap(), Duration::from_secs(300));
    assert_eq!(parse_hold_duration("0s").unwrap(), Duration::zero());
}

#[test]
fn parse_minutes_and_hours() {
    assert_eq!(parse_hold_duration("5m").unwrap(), Duration::from_secs(300));
    assert_eq!(parse_hold_duration("1h").unwrap(), Duration::from_secs(3600));
}

#[test]
fn parse_millis() {
    assert_eq!(parse_hold_duration("250ms").unwrap(), Duration::from_millis(250));
}

#[test]
fn trimmed_leading_and_trailing_whitespace() {
    assert_eq!(parse_hold_duration("  5m  ").unwrap(), Duration::from_secs(300));
}

#[test]
fn missing_unit_errors() {
    assert!(parse_hold_duration("300").is_err());
}

#[test]
fn unknown_unit_errors() {
    assert!(parse_hold_duration("5d").is_err());
    assert!(parse_hold_duration("5sec").is_err());
}

#[test]
fn empty_string_errors() {
    assert!(parse_hold_duration("").is_err());
    assert!(parse_hold_duration("   ").is_err());
}

#[test]
fn non_numeric_errors() {
    assert!(parse_hold_duration("abc").is_err());
    assert!(parse_hold_duration("m").is_err());
}

#[test]
fn populated_block_resolves_both_fields() {
    let b = RetentionBlock {
        l2_body: L2RetentionBlock {
            hold_after_ack: Some("30s".into()),
        },
        l3_ack: L3RetentionBlock {
            max_records: Some(1_000),
        },
    };
    let p = resolve_retention_plan(&b).unwrap();
    assert_eq!(p.l2_hold_after_ack, Duration::from_secs(30));
    assert_eq!(p.l3_max_records, Some(1_000));
    assert!(!p.is_inert());
}

#[test]
fn malformed_hold_string_is_config_error() {
    let b = RetentionBlock {
        l2_body: L2RetentionBlock {
            hold_after_ack: Some("notaduration".into()),
        },
        l3_ack: L3RetentionBlock { max_records: None },
    };
    assert!(resolve_retention_plan(&b).is_err());
}

#[test]
fn each_refusal_says_what_is_wrong() {
    let text = |s: &str| parse_hold_duration(s).unwrap_err().message().to_string();
    assert_eq!(text(" "), "retention: empty hold_after_ack string");
    assert_eq!(text("300"), "retention: hold_after_ack '300' requires a unit suffix (ms/s/m/h)");
    assert_eq!(text("abc"), "retention: hold_after_ack 'abc' has no numeric body");
    assert_eq!(text("5d"), "retention: unknown unit 'd' in '5d' (expected ms/s/m/h)");
    assert_eq!(
        text("99999999999999999999s"),
        "retention: bad number in '99999999999999999999s': number too large to fit in target type"
    );
}

#[test]
fn long_hold_times_stop_at_the_longest() {
    assert_eq!(
        parse_hold_duration("18446744073709551615h").unwrap(),
        Duration::from_secs(u64::MAX)
    );
}
