//! The interval between two runs: the whole hours from one timestamp to another.

use crate::clock::{parse_utc, seconds_between, utc_seconds_between, utc_timestamp};
use vstd::pervasive::unreached;
use vstd::prelude::*;

verus! {

/// Why two timestamps have no interval.
#[derive(Clone, Copy, PartialEq, Eq, Debug, Structural)]
pub enum IntervalError {
    /// The first timestamp is not empty and cannot be read.
    InvalidStart,
    /// The first timestamp can be read; the second is not empty and cannot.
    InvalidEnd,
    /// Both can be read, and the calendar does not reach one of them.
    OutOfRange,
}

/// The whole hours in a number of seconds, rounded toward zero.
pub open spec fn whole_hours(seconds: int) -> int {
    if seconds >= 0 {
        seconds / 3600
    } else {
        -((-seconds) / 3600)
    }
}

/// Computes the whole hours in a number of seconds.
pub fn hours_of_seconds(seconds: i64) -> (hours: i64)
    ensures
        hours == whole_hours(seconds as int),
{
    seconds / 3600
}

/// The whole hours from one instant to another, each given as the
/// seconds since the start of 1970 and the nanoseconds within the second:
/// negative where `end` is the earlier one, and an error where the
/// calendar does not reach one of the two.
pub open spec fn instant_interval(start: (i64, u32), end: (i64, u32)) -> Result<i64, IntervalError> {
    match utc_seconds_between(start, end) {
        None => Err(IntervalError::OutOfRange),
        Some(seconds) => Ok(whole_hours(seconds as int) as i64),
    }
}

/// Computes the whole hours from one instant to another.
pub fn instant_hours(start: (i64, u32), end: (i64, u32)) -> (hours: Result<i64, IntervalError>)
    ensures
        hours == instant_interval(start, end),
{
    match seconds_between(start, end) {
        None => Err(IntervalError::OutOfRange),
        Some(seconds) => Ok(hours_of_seconds(seconds)),
    }
}

/// The interval between two timestamps. Where either is empty the rule
/// has never run and the interval counts as zero hours. Otherwise both
/// are read, the first one first, and the interval is the whole hours from
/// the first to the second: negative where the first is the later one.
pub open spec fn interval_hours(first: Seq<char>, second: Seq<char>) -> Result<
    i64,
    IntervalError,
> {
    if first.len() == 0 || second.len() == 0 {
        Ok(0i64)
    } else {
        match utc_timestamp(first) {
            None => Err(IntervalError::InvalidStart),
            Some(start) => match utc_timestamp(second) {
                None => Err(IntervalError::InvalidEnd),
                Some(end) => instant_interval(start, end),
            },
        }
    }
}

/// The whole hours from `date1_str` to `date2_str`, for timestamps that
/// have an interval: zero where either is empty.
pub fn hour_check(date1_str: &str, date2_str: &str) -> (hours: i64)
    requires
        interval_hours(date1_str@, date2_str@) is Ok,
    ensures
        Ok::<i64, IntervalError>(hours) == interval_hours(date1_str@, date2_str@),
{
    if date1_str.is_empty() || date2_str.is_empty() {
        return 0;
    }
    let start = match parse_utc(date1_str) {
        Ok(instant) => instant,
        Err(_) => unreached(),
    };
    let end = match parse_utc(date2_str) {
        Ok(instant) => instant,
        Err(_) => unreached(),
    };
    match instant_hours(start, end) {
        Ok(hours) => hours,
        Err(_) => unreached(),
    }
}

/// The whole hours from `date1_str` to `date2_str`, or the reason why
/// there are none. A timestamp that cannot be read is an error and never
/// counts as zero hours.
pub fn checked_hour_check(date1_str: &str, date2_str: &str) -> (hours: Result<i64, IntervalError>)
    ensures
        hours == interval_hours(date1_str@, date2_str@),
{
    if date1_str.is_empty() || date2_str.is_empty() {
        return Ok(hour_check(date1_str, date2_str));
    }
    match parse_utc(date1_str) {
        Err(_) => Err(IntervalError::InvalidStart),
        Ok(start) => match parse_utc(date2_str) {
            Err(_) => Err(IntervalError::InvalidEnd),
            Ok(end) => match instant_hours(start, end) {
                Err(error) => Err(error),
                Ok(_) => Ok(hour_check(date1_str, date2_str)),
            },
        },
    }
}

} // verus!
