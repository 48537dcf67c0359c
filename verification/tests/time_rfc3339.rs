use crash_recorder::rfc3339::parse_rfc3339;
use crash_recorder::text::chars_of;
use crash_recorder::time::{Timestamp, days_in_month, elapsed_seconds, is_leap_year};

fn ts(year: u16, month: u8, day: u8, hour: u8, minute: u8, second: u8) -> Timestamp {
    Timestamp { year, month, day, hour, minute, second }
}

fn parse(s: &str) -> Option<Timestamp> {
    parse_rfc3339(&chars_of(s))
}

#[test]
fn parses_a_plain_utc_timestamp() {
    assert_eq!(parse("2024-05-06T07:08:09+00:00"), Some(ts(2024, 5, 6, 7, 8, 9)));
    assert_eq!(parse("2024-05-06T07:08:09Z"), Some(ts(2024, 5, 6, 7, 8, 9)));
    assert_eq!(parse("2024-05-06t07:08:09z"), Some(ts(2024, 5, 6, 7, 8, 9)));
}

#[test]
fn drops_fractional_seconds() {
    assert_eq!(parse("2024-05-06T07:08:09.123456789Z"), Some(ts(2024, 5, 6, 7, 8, 9)));
    assert_eq!(parse("2024-05-06T07:08:09.5+00:00"), Some(ts(2024, 5, 6, 7, 8, 9)));
    // a dot without digits is not RFC 3339
    assert_eq!(parse("2024-05-06T07:08:09.Z"), None);
}

#[test]
fn folds_numeric_offsets_into_utc() {
    // 00:30 at +01:00 is 23:30 the previous day in UTC
    assert_eq!(parse("2024-01-01T00:30:00+01:00"), Some(ts(2023, 12, 31, 23, 30, 0)));
    // 23:30 at -01:00 is 00:30 the next day in UTC
    assert_eq!(parse("2023-12-31T23:30:00-01:00"), Some(ts(2024, 1, 1, 0, 30, 0)));
    // crossing a month boundary backwards
    assert_eq!(parse("2024-03-01T00:15:00+00:30"), Some(ts(2024, 2, 29, 23, 45, 0)));
}

#[test]
fn rejects_malformed_timestamps() {
    assert_eq!(parse(""), None);
    assert_eq!(parse("not-a-date"), None);
    assert_eq!(parse("2024-05-06 07:08:09+00:00"), None);
    assert_eq!(parse("2024-13-06T07:08:09Z"), None);
    assert_eq!(parse("2024-00-06T07:08:09Z"), None);
    assert_eq!(parse("2024-02-30T07:08:09Z"), None);
    assert_eq!(parse("2023-02-29T00:00:00Z"), None);
    assert_eq!(parse("2024-05-06T24:08:09Z"), None);
    assert_eq!(parse("2024-05-06T07:60:09Z"), None);
    assert_eq!(parse("2024-05-06T07:08:61Z"), None);
    assert_eq!(parse("2024-05-06T07:08:09"), None);
    assert_eq!(parse("2024-05-06T07:08:09+0000"), None);
    assert_eq!(parse("2024-05-06T07:08:09Zx"), None);
}

#[test]
fn a_leap_second_reads_as_the_end_of_its_minute() {
    assert_eq!(parse("2024-05-06T23:59:60Z"), Some(ts(2024, 5, 6, 23, 59, 59)));
    assert_eq!(parse("2024-05-06T07:08:60+00:00"), Some(ts(2024, 5, 6, 7, 8, 59)));
}

#[test]
fn leap_years_follow_the_gregorian_rule() {
    assert!(is_leap_year(2024));
    assert!(!is_leap_year(2023));
    assert!(!is_leap_year(1900));
    assert!(is_leap_year(2000));
    assert_eq!(parse("2024-02-29T00:00:00Z"), Some(ts(2024, 2, 29, 0, 0, 0)));
    assert_eq!(days_in_month(2024, 2), 29);
    assert_eq!(days_in_month(2023, 2), 28);
    assert_eq!(days_in_month(2023, 4), 30);
    assert_eq!(days_in_month(2023, 12), 31);
}

#[test]
fn total_seconds_counts_from_year_zero() {
    let epoch = ts(1970, 1, 1, 0, 0, 0);
    assert_eq!(epoch.total_seconds(), 719528u64 * 86400u64);
    let t0 = ts(0, 1, 1, 0, 0, 0);
    assert_eq!(t0.total_seconds(), 0);
}

#[test]
fn elapsed_seconds_clamps_at_zero() {
    let a = ts(2024, 5, 6, 7, 8, 9);
    let b = ts(2024, 5, 6, 8, 8, 9);
    assert_eq!(elapsed_seconds(&b, &a), 3600);
    assert_eq!(elapsed_seconds(&a, &b), 0);
    let c = ts(2024, 5, 7, 7, 8, 10);
    assert_eq!(elapsed_seconds(&c, &a), 86401);
}

#[test]
fn validity_checks_every_field() {
    assert!(ts(2024, 5, 6, 7, 8, 9).check_valid());
    assert!(!ts(2024, 2, 30, 0, 0, 0).check_valid());
    assert!(!ts(2024, 0, 1, 0, 0, 0).check_valid());
    assert!(!ts(2024, 1, 1, 24, 0, 0).check_valid());
    assert!(ts(9999, 12, 31, 23, 59, 59).check_valid());
}
