use collection_email_worker::scheduler::{
    cron_expression, parse_rfc3339_epoch, utc_parts, wake_up_cron, wake_up_plan,
};

#[test]
fn test_wake_up_plan_uses_earliest_pending() {
    let now = 1_700_000_000i64;
    assert_eq!(wake_up_plan(true, Some(1_700_000_500), now), Some(1_700_000_500));
}

#[test]
fn test_wake_up_plan_safety_wake_up() {
    let now = 1_700_000_000i64;
    assert_eq!(wake_up_plan(true, None, now), Some(now + 3600));
}

#[test]
fn test_wake_up_plan_without_lease_arms_nothing() {
    // Scheduler handoff: the loser of the lease makes no timer calls.
    let now = 1_700_000_000i64;
    assert_eq!(wake_up_plan(false, Some(1_700_000_500), now), None);
    assert_eq!(wake_up_plan(false, None, now), None);
}

#[test]
fn test_cron_expression_shape() {
    assert_eq!(cron_expression(30, 14, 1, 2, 2026), "cron(30 14 1 2 ? 2026)");
    assert_eq!(cron_expression(0, 0, 31, 12, 2025), "cron(0 0 31 12 ? 2025)");
}

#[test]
fn test_parse_rfc3339_epoch() {
    assert_eq!(parse_rfc3339_epoch("1970-01-01T00:00:00Z"), Some(0));
    assert_eq!(parse_rfc3339_epoch("1970-01-01T01:00:00+01:00"), Some(0));
    assert_eq!(parse_rfc3339_epoch("2026-02-01T14:30:00Z"), Some(1769956200));
    assert_eq!(parse_rfc3339_epoch("not a date"), None);
}

#[test]
fn test_utc_parts_epoch_zero() {
    let p = utc_parts(0).unwrap();
    assert_eq!(p.year, 1970);
    assert_eq!(p.month, 1);
    assert_eq!(p.day, 1);
    assert_eq!(p.hour, 0);
    assert_eq!(p.minute, 0);
}

#[test]
fn test_wake_up_cron_to_the_minute() {
    // 2026-02-01T14:30:00Z, seconds dropped by the minute encoding.
    let epoch = parse_rfc3339_epoch("2026-02-01T14:30:45Z").unwrap();
    assert_eq!(wake_up_cron(epoch).unwrap(), "cron(30 14 1 2 ? 2026)");
}

#[test]
fn test_wake_up_cron_succeeds_on_representable_instants() {
    // Every instant with a civil decomposition and a non-negative year
    // encodes; out-of-range or negative-year instants do not.
    assert!(utc_parts(0).is_some());
    assert!(wake_up_cron(0).is_some());
    assert!(utc_parts(i64::MIN).is_none());
    assert!(wake_up_cron(i64::MIN).is_none());
    let before_year_zero = -62_200_000_000i64;
    let parts = utc_parts(before_year_zero).unwrap();
    assert!(parts.year < 0);
    assert!(wake_up_cron(before_year_zero).is_none());
}
