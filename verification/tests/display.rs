use isq::display::{describe_age, relative_time};

// 2024-01-01T00:00:00Z in milliseconds since the Unix epoch
const NEW_YEAR: i64 = 1_704_067_200_000;
const MINUTE: i64 = 60_000;
const HOUR: i64 = 60 * MINUTE;
const DAY: i64 = 24 * HOUR;

#[test]
fn test_relative_time() {
    // Just test the function doesn't panic on various inputs
    assert_eq!(relative_time("invalid", NEW_YEAR + DAY), "invalid");
    assert!(!relative_time("2024-01-01T00:00:00Z", NEW_YEAR + DAY).is_empty());
}

#[test]
fn relative_time_reads_the_time_stamp() {
    assert_eq!(relative_time("2024-01-01T00:00:00Z", NEW_YEAR + 5 * DAY), "5d ago");
    assert_eq!(relative_time("2024-01-01T00:00:00Z", NEW_YEAR), "just now");
    assert_eq!(relative_time("2024-01-01T01:00:00+01:00", NEW_YEAR + 2 * HOUR), "2h ago");
    assert_eq!(relative_time("2023-12-31T23:59:59.500Z", NEW_YEAR + 59_499), "just now");
    assert_eq!(relative_time("2023-12-31T23:59:59.500Z", NEW_YEAR + 59_500), "1m ago");
    assert_eq!(relative_time("2024-01-01 00:00:00", NEW_YEAR + DAY), "2024-01-01 00:00:00");
    assert_eq!(relative_time("", NEW_YEAR), "");
}

#[test]
fn ages_are_shown_in_their_largest_unit() {
    assert_eq!(describe_age(0, -DAY), "just now");
    assert_eq!(describe_age(0, 0), "just now");
    assert_eq!(describe_age(0, MINUTE - 1), "just now");
    assert_eq!(describe_age(0, MINUTE), "1m ago");
    assert_eq!(describe_age(0, HOUR - 1), "59m ago");
    assert_eq!(describe_age(0, HOUR), "1h ago");
    assert_eq!(describe_age(0, DAY - 1), "23h ago");
    assert_eq!(describe_age(0, DAY), "1d ago");
    assert_eq!(describe_age(0, 7 * DAY - 1), "6d ago");
    assert_eq!(describe_age(0, 7 * DAY), "1w ago");
    assert_eq!(describe_age(0, 30 * DAY - 1), "4w ago");
    assert_eq!(describe_age(0, 30 * DAY), "1mo ago");
    assert_eq!(describe_age(0, 365 * DAY - 1), "12mo ago");
    assert_eq!(describe_age(0, 365 * DAY), "1y ago");
    assert_eq!(describe_age(0, 800 * DAY), "2y ago");
    assert_eq!(describe_age(i64::MIN, i64::MAX), "584942417y ago");
    assert_eq!(describe_age(i64::MAX, i64::MIN), "just now");
}
