use corun::timestamp::{format_name, parse_name, should_remove, stale_at, Timestamp};

fn ts(year: u32, month: u32, day: u32, hour: u32, minute: u32, second: u32, nanos: u32) -> Timestamp {
    Timestamp { year, month, day, hour, minute, second, nanos }
}

#[test]
fn parse_valid_name() {
    let t = parse_name("20260111-235959-123456789").unwrap();
    assert_eq!(t, ts(2026, 1, 11, 23, 59, 59, 123456789));
}

#[test]
fn parse_rejects_wrong_length() {
    assert_eq!(parse_name(""), None);
    assert_eq!(parse_name("20260111-235959-12345678"), None);
    assert_eq!(parse_name("20260111-235959-1234567890"), None);
}

#[test]
fn parse_rejects_wrong_separators() {
    assert_eq!(parse_name("20260111_235959-123456789"), None);
    assert_eq!(parse_name("20260111-235959_123456789"), None);
}

#[test]
fn parse_rejects_non_digits() {
    assert_eq!(parse_name("2026011a-235959-123456789"), None);
    assert_eq!(parse_name("20260111-23595x-123456789"), None);
    assert_eq!(parse_name("20260111-235959-12345678\u{0666}"), None);
}

#[test]
fn parse_rejects_bad_calendar_fields() {
    assert_eq!(parse_name("20260011-235959-123456789"), None); // month 0
    assert_eq!(parse_name("20261311-235959-123456789"), None); // month 13
    assert_eq!(parse_name("20260100-235959-123456789"), None); // day 0
    assert_eq!(parse_name("20260132-235959-123456789"), None); // day 32
    assert_eq!(parse_name("20260111-245959-123456789"), None); // hour 24
    assert_eq!(parse_name("20260111-236059-123456789"), None); // minute 60
    assert_eq!(parse_name("20260111-235960-123456789"), None); // second 60
}

#[test]
fn parse_honours_leap_years() {
    assert!(parse_name("20240229-000000-000000000").is_some());
    assert_eq!(parse_name("20230229-000000-000000000"), None);
    assert_eq!(parse_name("21000229-000000-000000000"), None); // century, not leap
    assert!(parse_name("20000229-000000-000000000").is_some()); // 400-year, leap
}

#[test]
fn format_writes_the_scheme() {
    assert_eq!(
        format_name(&ts(2026, 1, 11, 23, 59, 59, 123456789)),
        "20260111-235959-123456789"
    );
    assert_eq!(format_name(&ts(987, 6, 5, 4, 3, 2, 1)), "09870605-040302-000000001");
}

#[test]
fn format_then_parse_round_trips() {
    let t = ts(2026, 10, 8, 12, 34, 56, 7);
    assert_eq!(parse_name(&format_name(&t)), Some(t));
}

#[test]
fn forty_nine_days_and_a_bit_is_stale() {
    // now: 2026-03-01 00:00:00.000000001; 49 days before: 2026-01-11.
    let now = ts(2026, 3, 1, 0, 0, 0, 1);
    assert!(should_remove("20260111-000000-000000000", &now));
}

#[test]
fn exactly_seven_weeks_is_kept() {
    // Age is exactly 7 weeks: not strictly greater, so retained.
    let now = ts(2026, 3, 1, 0, 0, 0, 0);
    assert!(!should_remove("20260111-000000-000000000", &now));
}

#[test]
fn forty_eight_days_is_kept() {
    let now = ts(2026, 3, 1, 0, 0, 0, 1);
    assert!(!should_remove("20260112-000000-000000000", &now));
}

#[test]
fn unparsable_names_are_never_removed() {
    let now = ts(2026, 3, 1, 0, 0, 0, 0);
    assert!(!should_remove("not-a-timestamp", &now));
    assert!(!should_remove("1970-01-01T00:00:00", &now));
}

#[test]
fn staleness_crosses_leap_february() {
    // 2024-02-29 exists; 49 days later is 2024-04-18.
    let made = ts(2024, 2, 29, 12, 0, 0, 0);
    let same_age = ts(2024, 4, 18, 12, 0, 0, 0);
    assert!(!stale_at(&made, &same_age));
    let just_past = ts(2024, 4, 18, 12, 0, 0, 1);
    assert!(stale_at(&made, &just_past));
}

#[test]
fn future_names_are_kept() {
    let now = ts(2026, 3, 1, 0, 0, 0, 0);
    assert!(!should_remove("20270101-000000-000000000", &now));
}
