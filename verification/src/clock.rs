//! The calendar and the clock, which chrono keeps.
//!
//! Nothing in this file is proved. Each item states what is taken on
//! trust of one function of chrono, and the rest of the library is
//! verified against these statements.

use crate::number::{all_digits, is_digit};
use vstd::prelude::*;

verus! {

/// chrono's `ParseError`, which says why a text is no timestamp. Nothing
/// of its content is read here.
#[verifier::external_type_specification]
#[verifier::external_body]
pub struct ExParseError(chrono::ParseError);

/// The instant that chrono reads from `text` as a `DateTime<Utc>`, where
/// it reads one: the seconds since the start of 1970 and the nanoseconds
/// within that second, which pass a thousand million only within a leap
/// second. chrono reads a relaxed form of RFC 3339, such as
/// `2024-01-01T05:00:00Z` or `2024-01-01 14:00:00.5 +09:00`.
pub uninterp spec fn utc_timestamp(text: Seq<char>) -> Option<(i64, u32)>;

/// The whole seconds from one instant to another, as chrono counts them
/// from `DateTime::signed_duration_since`: negative where `to` is the
/// earlier one, rounded toward zero, and `None` where chrono has no
/// `DateTime` for one of the two instants.
pub uninterp spec fn utc_seconds_between(from: (i64, u32), to: (i64, u32)) -> Option<i64>;

/// Calls `str::parse::<DateTime<Utc>>`, chrono's `FromStr` for
/// `DateTime<Utc>`, and takes the instant apart with
/// `DateTime::timestamp` and `DateTime::timestamp_subsec_nanos`. The
/// claim is that the outcome depends on the characters of `text` alone:
/// the parser reads no clock, locale or time zone setting.
#[verifier::external_body]
pub(crate) fn parse_utc(text: &str) -> (parsed: Result<(i64, u32), chrono::ParseError>)
    ensures
        parsed is Ok <==> utc_timestamp(text@) is Some,
        parsed matches Ok(instant) ==> utc_timestamp(text@) == Some(instant),
{
    match text.parse::<chrono::DateTime<chrono::Utc>>() {
        Ok(at) => Ok((at.timestamp(), at.timestamp_subsec_nanos())),
        Err(error) => Err(error),
    }
}

/// Rebuilds the two instants with `DateTime::from_timestamp`, subtracts
/// them with `DateTime::signed_duration_since` and reads the difference
/// with `TimeDelta::num_seconds`. The claim is that the outcome depends
/// on the four numbers alone. `from_timestamp` answers `None` for numbers
/// that are no instant of chrono's calendar, and neither of the other two
/// functions fails.
#[verifier::external_body]
pub(crate) fn seconds_between(from: (i64, u32), to: (i64, u32)) -> (seconds: Option<i64>)
    ensures
        seconds == utc_seconds_between(from, to),
{
    let start = chrono::DateTime::from_timestamp(from.0, from.1)?;
    let end = chrono::DateTime::from_timestamp(to.0, to.1)?;
    Some(end.signed_duration_since(start).num_seconds())
}

/// The pattern of the time in a log entry: year, month, day, hour, minute
/// and second, as in `2024-01-01 05:00:00`.
pub open spec fn log_stamp_pattern() -> Seq<char> {
    "%Y-%m-%d %H:%M:%S"@
}

/// The pattern of the hour in an archive's name: two digits each of year,
/// month, day and hour.
pub open spec fn hour_stamp_pattern() -> Seq<char> {
    "%y%m%d%H"@
}

/// Whether `text` holds two decimal digits at `at`.
pub open spec fn two_digits_at(text: Seq<char>, at: int) -> bool {
    &&& 0 <= at
    &&& at + 1 < text.len()
    &&& is_digit(text[at])
    &&& is_digit(text[at + 1])
}

/// The form of a year as chrono writes it: four digits, or a sign and
/// four or more digits for a year before 0 or after 9999.
pub open spec fn is_year_text(text: Seq<char>) -> bool {
    ||| text.len() == 4 && all_digits(text)
    ||| text.len() >= 5 && (text[0] == '+' || text[0] == '-') && all_digits(text.drop_first())
}

/// The form of the time in a log entry: a year, and then month, day,
/// hour, minute and second in two digits each, as in
/// `2024-01-01 05:00:00`.
pub open spec fn is_log_stamp(text: Seq<char>) -> bool {
    &&& text.len() >= 19
    &&& is_year_text(text.take(text.len() - 15))
    &&& {
        let rest = text.skip(text.len() - 15);
        &&& rest[0] == '-'
        &&& two_digits_at(rest, 1)
        &&& rest[3] == '-'
        &&& two_digits_at(rest, 4)
        &&& rest[6] == ' '
        &&& two_digits_at(rest, 7)
        &&& rest[9] == ':'
        &&& two_digits_at(rest, 10)
        &&& rest[12] == ':'
        &&& two_digits_at(rest, 13)
    }
}

/// The form of the hour in an archive's name: eight digits, two each of
/// year, month, day and hour, as in `24010105`.
pub open spec fn is_hour_stamp(text: Seq<char>) -> bool {
    text.len() == 8 && all_digits(text)
}

/// Reads the clock with `Local::now` and writes the local time with
/// `DateTime::format` in the given pattern. Which time is written
/// depends on the clock and on the time zone of the machine; what is
/// claimed is the form of the text, as chrono documents it for each
/// specifier of the two patterns: `%y`, `%m`, `%d`, `%H`, `%M` and `%S`
/// are written in two digits, padded with a zero, and `%Y` in four, with
/// a sign and as many digits as it takes for a year before 0 or after
/// 9999. chrono fails on a pattern that it cannot read, so only the two
/// patterns of this library are let in; it reads both. `Local::now`
/// itself fails where the machine's clock stands before 1970.
#[verifier::external_body]
pub(crate) fn local_time_formatted(pattern: &str) -> (stamp: String)
    requires
        pattern@ == log_stamp_pattern() || pattern@ == hour_stamp_pattern(),
    ensures
        pattern@ == log_stamp_pattern() ==> is_log_stamp(stamp@),
        pattern@ == hour_stamp_pattern() ==> is_hour_stamp(stamp@),
{
    chrono::Local::now().format(pattern).to_string()
}

/// Reads the clock with `Local::now` and writes the local time as
/// chrono's `Display` for `DateTime` does: date, time and offset, as in
/// `2024-01-01 14:00:00.123456789 +09:00`. Nothing is claimed of the
/// text: it depends on the clock and on the time zone of the machine.
#[verifier::external_body]
pub(crate) fn local_time_text() -> (text: String) {
    chrono::Local::now().to_string()
}

} // verus!
