//! Times and dates as text. Times are whole seconds since 1970-01-01T00:00:00
//! UTC, dates are whole days since 1970-01-01; the calendar is chrono's.

use vstd::prelude::*;

verus! {

/// The first second that chrono can hold as a UTC time: midnight of
/// January 1 of the year -262143, the least date of its calendar.
pub const MIN_UTC_SECONDS: i64 = -8_334_601_228_800;

/// The last second that chrono can hold as a UTC time: 23:59:59 on
/// December 31 of the year 262142, the greatest date of its calendar.
pub const MAX_UTC_SECONDS: i64 = 8_210_266_876_799;

/// The least date of chrono's calendar, January 1 of the year -262143.
pub const MIN_EPOCH_DAY: i32 = -96_465_292;

/// The greatest date of chrono's calendar, December 31 of the year 262142.
pub const MAX_EPOCH_DAY: i32 = 95_026_236;

/// Whether a number of seconds is a time of the calendar.
pub open spec fn utc_representable(seconds: int) -> bool {
    MIN_UTC_SECONDS <= seconds <= MAX_UTC_SECONDS
}

/// Whether a number of days is a date of the calendar.
pub open spec fn date_representable(days: int) -> bool {
    MIN_EPOCH_DAY <= days <= MAX_EPOCH_DAY
}

/// The whole seconds of a number of milliseconds, rounded towards zero.
pub open spec fn whole_seconds(millis: i64) -> i64 {
    if millis >= 0 {
        (millis / 1000) as i64
    } else {
        (-((-millis) / 1000)) as i64
    }
}

/// Turns milliseconds into whole seconds, rounding towards zero.
pub fn seconds_of(millis: i64) -> (seconds: i64)
    ensures
        seconds == whole_seconds(millis),
{
    if millis >= 0 {
        millis / 1000
    } else if millis == i64::MIN {
        -9223372036854775
    } else {
        -((-millis) / 1000)
    }
}

/// The text that chrono writes for a UTC time under the format
/// `%Y-%m-%dT%H:%M:%S`, such as `2014-01-01T00:00:00`.
pub uninterp spec fn utc_text(seconds: i64) -> Seq<char>;

/// The text that chrono writes for a date, such as `2014-01-01`.
pub uninterp spec fn date_text(days: i32) -> Seq<char>;

/// Writes a UTC time as year, month, day, `T`, hour, minute and second.
///
/// Calls chrono's `DateTime::from_timestamp` and `DateTime::format`. What is
/// taken on trust: `from_timestamp` gives a time exactly for the seconds from
/// `MIN_UTC_SECONDS` to `MAX_UTC_SECONDS`, and the text depends on the
/// seconds alone.
#[verifier::external_body]
pub fn format_time(seconds: i64) -> (text: Option<String>)
    ensures
        text.is_some() == utc_representable(seconds as int),
        text matches Some(t) ==> t@ == utc_text(seconds),
{
    match chrono::DateTime::from_timestamp(seconds, 0) {
        Some(time) => Some(time.format("%Y-%m-%dT%H:%M:%S").to_string()),
        None => None,
    }
}

/// Tells whether a number of seconds is a time of the calendar.
pub fn is_utc_time(seconds: i64) -> (ok: bool)
    ensures
        ok == utc_representable(seconds as int),
{
    MIN_UTC_SECONDS <= seconds && seconds <= MAX_UTC_SECONDS
}

/// Writes a date as year, month and day.
///
/// Calls chrono's `NaiveDate::from_epoch_days` and the `to_string` of
/// `NaiveDate`. What is taken on trust: `from_epoch_days` gives a date exactly
/// for the days from `MIN_EPOCH_DAY` to `MAX_EPOCH_DAY`, and the text depends
/// on the day alone.
#[verifier::external_body]
pub(crate) fn format_date(days: i32) -> (text: Option<String>)
    ensures
        text.is_some() == date_representable(days as int),
        text matches Some(t) ==> t@ == date_text(days),
{
    match chrono::NaiveDate::from_epoch_days(days) {
        Some(date) => Some(date.to_string()),
        None => None,
    }
}

} // verus!
