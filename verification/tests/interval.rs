use auto_backup::interval::hours_of_seconds;
use auto_backup::{checked_hour_check, hour_check, instant_hours, IntervalError};

#[test]
fn an_empty_timestamp_counts_as_zero_hours() {
    assert_eq!(hour_check("", "2024-01-01T00:00:00Z"), 0);
    assert_eq!(hour_check("2024-01-01T00:00:00Z", ""), 0);
    assert_eq!(hour_check("", ""), 0);
    assert_eq!(checked_hour_check("", "2024-01-01T00:00:00Z"), Ok(0));
}

#[test]
fn an_empty_timestamp_hides_an_unreadable_one() {
    assert_eq!(hour_check("", "not a time"), 0);
    assert_eq!(checked_hour_check("not a time", ""), Ok(0));
}

#[test]
fn five_hours_apart_is_five() {
    assert_eq!(hour_check("2024-01-01T00:00:00Z", "2024-01-01T05:00:00Z"), 5);
    assert_eq!(checked_hour_check("2024-01-01T00:00:00Z", "2024-01-01T05:00:00Z"), Ok(5));
}

#[test]
fn the_interval_is_negative_where_the_first_is_later() {
    assert_eq!(hour_check("2024-01-01T05:00:00Z", "2024-01-01T00:00:00Z"), -5);
    assert_eq!(hour_check("2024-01-02T00:00:00Z", "2024-01-01T00:00:00Z"), -24);
}

#[test]
fn part_of_an_hour_does_not_count() {
    assert_eq!(hour_check("2024-01-01T00:00:00Z", "2024-01-01T00:59:59Z"), 0);
    assert_eq!(hour_check("2024-01-01T00:59:59Z", "2024-01-01T00:00:00Z"), 0);
    assert_eq!(hour_check("2024-01-01T00:00:00Z", "2024-01-01T01:59:59.999Z"), 1);
    assert_eq!(hour_check("2024-01-01T01:59:59.999Z", "2024-01-01T00:00:00Z"), -1);
    assert_eq!(hour_check("2024-01-01T00:00:00.5Z", "2024-01-01T01:00:00Z"), 0);
}

#[test]
fn the_interval_spans_days_and_years() {
    assert_eq!(hour_check("2024-02-28T00:00:00Z", "2024-03-01T00:00:00Z"), 48);
    assert_eq!(hour_check("2023-02-28T00:00:00Z", "2023-03-01T00:00:00Z"), 24);
    assert_eq!(hour_check("2023-01-01T00:00:00Z", "2024-01-01T00:00:00Z"), 8760);
}

#[test]
fn offsets_are_taken_into_account() {
    assert_eq!(hour_check("2024-01-01T09:00:00+09:00", "2024-01-01T05:00:00Z"), 5);
    assert_eq!(hour_check("2024-01-01T00:00:00-05:00", "2024-01-01T00:00:00+05:00"), -10);
}

#[test]
fn the_form_of_a_last_run_time_is_read() {
    assert_eq!(
        hour_check("2024-01-01 14:00:00.123456789 +09:00", "2024-01-01 17:30:00.000000001 +09:00"),
        3
    );
    assert_eq!(hour_check("2024-01-01 05:00:00 UTC", "2024-01-01 07:00:00 UTC"), 2);
}

#[test]
fn an_unreadable_first_timestamp_is_an_error() {
    assert_eq!(
        checked_hour_check("yesterday", "2024-01-01T05:00:00Z"),
        Err(IntervalError::InvalidStart)
    );
    assert_eq!(
        checked_hour_check("2024-13-01T00:00:00Z", "2024-01-01T05:00:00Z"),
        Err(IntervalError::InvalidStart)
    );
    assert_eq!(
        checked_hour_check("2024-01-01", "2024-01-01T05:00:00Z"),
        Err(IntervalError::InvalidStart)
    );
}

#[test]
fn an_unreadable_second_timestamp_is_an_error() {
    assert_eq!(
        checked_hour_check("2024-01-01T05:00:00Z", "tomorrow"),
        Err(IntervalError::InvalidEnd)
    );
    assert_eq!(
        checked_hour_check("2024-01-01T05:00:00Z", "2024-01-01T05:00:00Z trailing"),
        Err(IntervalError::InvalidEnd)
    );
}

#[test]
fn the_first_timestamp_is_read_first() {
    assert_eq!(checked_hour_check("x", "y"), Err(IntervalError::InvalidStart));
}

#[test]
fn whole_hours_round_toward_zero() {
    assert_eq!(hours_of_seconds(0), 0);
    assert_eq!(hours_of_seconds(3599), 0);
    assert_eq!(hours_of_seconds(3600), 1);
    assert_eq!(hours_of_seconds(18000), 5);
    assert_eq!(hours_of_seconds(-1), 0);
    assert_eq!(hours_of_seconds(-3599), 0);
    assert_eq!(hours_of_seconds(-3600), -1);
    assert_eq!(hours_of_seconds(-7201), -2);
    assert_eq!(hours_of_seconds(i64::MAX), 2562047788015215);
    assert_eq!(hours_of_seconds(i64::MIN), -2562047788015215);
}

#[test]
fn instants_are_counted_from_the_first_to_the_second() {
    assert_eq!(instant_hours((0, 0), (18000, 0)), Ok(5));
    assert_eq!(instant_hours((18000, 0), (0, 0)), Ok(-5));
    assert_eq!(instant_hours((1704067200, 0), (1704085200, 0)), Ok(5));
    assert_eq!(instant_hours((-7200, 0), (0, 0)), Ok(2));
}

#[test]
fn nanoseconds_count_toward_the_hour() {
    assert_eq!(instant_hours((0, 1), (3600, 0)), Ok(0));
    assert_eq!(instant_hours((0, 0), (3599, 999_999_999)), Ok(0));
    assert_eq!(instant_hours((0, 1), (3600, 1)), Ok(1));
    assert_eq!(instant_hours((3600, 0), (0, 1)), Ok(0));
}

#[test]
fn a_leap_second_is_an_instant() {
    assert_eq!(instant_hours((59, 1_500_000_000), (60, 0)), Ok(0));
    assert_eq!(instant_hours((59, 1_500_000_000), (59 + 7200, 0)), Ok(1));
}

#[test]
fn numbers_that_are_no_instant_are_out_of_range() {
    assert_eq!(instant_hours((i64::MAX, 0), (0, 0)), Err(IntervalError::OutOfRange));
    assert_eq!(instant_hours((0, 0), (i64::MIN, 0)), Err(IntervalError::OutOfRange));
    assert_eq!(instant_hours((0, 2_000_000_000), (0, 0)), Err(IntervalError::OutOfRange));
    assert_eq!(instant_hours((0, 1_000_000_000), (0, 0)), Err(IntervalError::OutOfRange));
}
