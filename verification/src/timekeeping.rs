//! The date library behind the engine: reading dates out of text, placing an
//! instant on the calendar, binding a wall-clock reading to the machine's
//! zone, and reading the clock.
//!
//! Everything here is a thin call into `chrono`. The contracts below are
//! taken on trust from that crate; nothing in this module is proved.

use crate::civil::{CivilDate, CivilDateTime, MAX_INSTANT, MIN_INSTANT};
use crate::time_window::day_number;
use chrono::{DateTime, Datelike, Local, NaiveDate, NaiveDateTime, TimeZone, Timelike, Utc};
use vstd::prelude::*;

verus! {

/// What `chrono::NaiveDate::parse_from_str` reads out of `value` under
/// `format`; `None` when it reports an error.
pub uninterp spec fn parsed_date(value: Seq<char>, format: Seq<char>) -> Option<CivilDate>;

/// What `chrono::NaiveDateTime::parse_from_str` reads out of `value` under
/// `format`; `None` when it reports an error.
pub uninterp spec fn parsed_date_time(value: Seq<char>, format: Seq<char>) -> Option<
    CivilDateTime,
>;

/// Calls `chrono::NaiveDate::parse_from_str` and hands the date out as a
/// year/month/day triple.
///
/// Trusted: the result depends on the two texts alone, and a date that comes
/// out exists in the calendar and lies in the representable years.
#[verifier::external_body]
pub(crate) fn parse_date(value: &str, format: &str) -> (date: Option<CivilDate>)
    ensures
        date == parsed_date(value@, format@),
        date matches Some(d) ==> d.is_valid(),
{
    NaiveDate::parse_from_str(value, format).ok().map(
        |d| CivilDate { year: d.year(), month: d.month(), day: d.day() },
    )
}

/// Calls `chrono::NaiveDateTime::parse_from_str` and hands the reading out as
/// plain numbers.
///
/// Trusted: the result depends on the two texts alone, and a reading that
/// comes out is a valid date with a time of day below 24:00:00.
#[verifier::external_body]
pub(crate) fn parse_date_time(value: &str, format: &str) -> (reading: Option<CivilDateTime>)
    ensures
        reading == parsed_date_time(value@, format@),
        reading matches Some(r) ==> r.is_valid(),
{
    NaiveDateTime::parse_from_str(value, format).ok().map(
        |t| CivilDateTime {
            date: CivilDate { year: t.year(), month: t.month(), day: t.day() },
            hour: t.hour(),
            minute: t.minute(),
            second: t.second(),
        },
    )
}

/// Calls `chrono::DateTime::from_timestamp` with no sub-second part and hands
/// out the UTC date of the result.
///
/// Trusted: a date comes out exactly for the instants between the first
/// second of the earliest representable year and the last second of the
/// latest one, and it is the valid date whose day number is the instant's.
#[verifier::external_body]
pub(crate) fn utc_date(instant: i64) -> (date: Option<CivilDate>)
    ensures
        date is Some <==> MIN_INSTANT <= instant <= MAX_INSTANT,
        date matches Some(d) ==> d.is_valid() && d.day_number() == day_number(instant as int),
{
    DateTime::from_timestamp(instant, 0).map(|t| t.date_naive()).map(
        |d| CivilDate { year: d.year(), month: d.month(), day: d.day() },
    )
}

/// Calls `chrono::TimeZone::from_local_datetime` on `chrono::Local` and takes
/// the earliest instant that the machine's zone gives to the reading.
///
/// Nothing is promised of the result: it depends on the zone of the machine
/// that runs the call, and no instant comes out where the zone skips the
/// reading.
#[verifier::external_body]
pub(crate) fn local_instant(reading: &CivilDateTime) -> (instant: Option<i64>)
    requires
        reading.is_valid(),
{
    let date = NaiveDate::from_ymd_opt(reading.date.year, reading.date.month, reading.date.day)?;
    let naive = date.and_hms_opt(reading.hour, reading.minute, reading.second)?;
    Local.from_local_datetime(&naive).earliest().map(|t| t.timestamp())
}

/// Calls `chrono::Utc::now` and returns its instant in whole seconds.
///
/// Nothing is promised of the result: it is the machine's clock. The call
/// does not return on a machine whose clock reads a time before 1970.
#[verifier::external_body]
pub(crate) fn current_instant() -> (now: i64) {
    Utc::now().timestamp()
}

} // verus!
