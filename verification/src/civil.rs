//! Civil (proleptic Gregorian) dates and their position on the UTC timeline.
//!
//! A civil date is a plain year/month/day triple. Its position on the
//! timeline is the number of whole days between 1970-01-01 and the date; an
//! instant is that number times 86400 plus the seconds elapsed since midnight.

use vstd::prelude::*;

verus! {

/// Earliest year that the date library can represent.
pub const MIN_YEAR: i32 = -262143;

/// Latest year that the date library can represent.
pub const MAX_YEAR: i32 = 262142;

/// First instant of 1 January of [`MIN_YEAR`].
pub const MIN_INSTANT: i64 = -8334601228800;

/// Last instant of 31 December of [`MAX_YEAR`].
pub const MAX_INSTANT: i64 = 8210266876799;

/// A calendar date without a time zone.
#[derive(Clone, Copy, Debug, PartialEq, Eq, Structural)]
pub struct CivilDate {
    pub year: i32,
    pub month: u32,
    pub day: u32,
}

/// A calendar date with a wall-clock time, without a time zone.
#[derive(Clone, Copy, Debug, PartialEq, Eq, Structural)]
pub struct CivilDateTime {
    pub date: CivilDate,
    pub hour: u32,
    pub minute: u32,
    pub second: u32,
}

/// Gregorian leap-year rule.
pub open spec fn is_leap_year(year: int) -> bool {
    year % 4 == 0 && (year % 100 != 0 || year % 400 == 0)
}

/// Length of a month; months outside 1..=12 have no days.
pub open spec fn days_in_month(year: int, month: int) -> int {
    if month < 1 || month > 12 {
        0
    } else if month == 2 {
        if is_leap_year(year) {
            29
        } else {
            28
        }
    } else if month == 4 || month == 6 || month == 9 || month == 11 {
        30
    } else {
        31
    }
}

/// Number of leap years among the years 1 through `year` (negative for years
/// before the common era, by the same rule).
pub open spec fn leap_years_through(year: int) -> int {
    year / 4 - year / 100 + year / 400
}

/// Days between 1 January 1970 and 1 January of `year`.
pub open spec fn days_before_year(year: int) -> int {
    365 * (year - 1970) + leap_years_through(year - 1) - leap_years_through(1969)
}

/// Days between 1 January of `year` and the first day of `month`.
pub open spec fn days_before_month(year: int, month: int) -> int
    decreases month,
{
    if month <= 1 {
        0
    } else {
        days_before_month(year, month - 1) + days_in_month(year, month - 1)
    }
}

/// Days between 1 January 1970 and the given date.
pub open spec fn days_from_epoch(year: int, month: int, day: int) -> int {
    days_before_year(year) + days_before_month(year, month) + day - 1
}

/// Computes [`is_leap_year`].
pub fn leap_year(year: i32) -> (leap: bool)
    ensures
        leap == is_leap_year(year as int),
{
    // Shifting by a whole number of 400-year cycles keeps every remainder and
    // makes the dividend non-negative.
    let shifted: i64 = year as i64 + 2_160_000_000;
    shifted % 4 == 0 && (shifted % 100 != 0 || shifted % 400 == 0)
}

/// Computes [`days_before_year`].
fn year_offset(year: i32) -> (days: i64)
    ensures
        days == days_before_year(year as int),
        -784_400_000_000 <= days <= 784_400_000_000,
{
    let prior: i64 = year as i64 - 1 + 2_160_000_000;
    let by4: i64 = prior / 4 - 540_000_000;
    let by100: i64 = prior / 100 - 21_600_000;
    let by400: i64 = prior / 400 - 5_400_000;
    assert(by4 == (year - 1) / 4);
    assert(by100 == (year - 1) / 100);
    assert(by400 == (year - 1) / 400);
    365 * (year as i64 - 1970) + (by4 - by100 + by400) - 477
}

/// From the thirteenth month on, no further days are counted.
proof fn lemma_months_past_december(year: int, month: int)
    requires
        month >= 13,
    ensures
        days_before_month(year, month) == days_before_month(year, 13),
    decreases month,
{
    if month > 13 {
        lemma_months_past_december(year, month - 1);
    }
}

/// Computes [`days_before_month`] for a year whose leap status is known.
fn month_offset(leap: bool, month: u32) -> (days: i64)
    ensures
        forall|year: int| is_leap_year(year) == leap ==> days == #[trigger] days_before_month(
            year,
            month as int,
        ),
        0 <= days <= 366,
{
    let feb: i64 = if leap { 29 } else { 28 };
    proof {
        reveal_with_fuel(days_before_month, 14);
        if month >= 13 {
            assert forall|year: int| is_leap_year(year) == leap implies 337 + feb
                == #[trigger] days_before_month(year, month as int) by {
                lemma_months_past_december(year, month as int);
            }
        }
    }
    match month {
        0 => 0,
        1 => 0,
        2 => 31,
        3 => 31 + feb,
        4 => 62 + feb,
        5 => 92 + feb,
        6 => 123 + feb,
        7 => 153 + feb,
        8 => 184 + feb,
        9 => 215 + feb,
        10 => 245 + feb,
        11 => 276 + feb,
        12 => 306 + feb,
        _ => 337 + feb,
    }
}

impl CivilDate {
    /// The date exists in the calendar and lies in the representable years.
    pub open spec fn is_valid(&self) -> bool {
        &&& MIN_YEAR <= self.year <= MAX_YEAR
        &&& 1 <= self.month <= 12
        &&& 1 <= self.day <= days_in_month(self.year as int, self.month as int)
    }

    /// Days between 1 January 1970 and this date.
    pub open spec fn day_number(&self) -> int {
        days_from_epoch(self.year as int, self.month as int, self.day as int)
    }

    /// The instant of this date's midnight in UTC.
    pub open spec fn midnight_utc(&self) -> int {
        86400 * self.day_number()
    }

    /// Computes [`CivilDate::day_number`].
    pub fn days_since_epoch(&self) -> (days: i64)
        ensures
            days == self.day_number(),
            -790_000_000_000 <= days <= 790_000_000_000,
    {
        let year_days: i64 = year_offset(self.year);
        let month_days: i64 = month_offset(leap_year(self.year), self.month);
        year_days + month_days + self.day as i64 - 1
    }

    /// Computes [`CivilDate::midnight_utc`].
    pub fn midnight(&self) -> (instant: i64)
        ensures
            instant == self.midnight_utc(),
            -68_256_000_000_000_000 <= instant <= 68_256_000_000_000_000,
    {
        86400 * self.days_since_epoch()
    }
}

impl CivilDateTime {
    /// The date is valid and the time of day is a real wall-clock reading.
    pub open spec fn is_valid(&self) -> bool {
        &&& self.date.is_valid()
        &&& self.hour < 24
        &&& self.minute < 60
        &&& self.second < 60
    }

    /// The instant that this date and time denote when read as UTC.
    pub open spec fn instant_utc(&self) -> int {
        self.date.midnight_utc() + 3600 * self.hour + 60 * self.minute + self.second
    }

    /// Computes [`CivilDateTime::instant_utc`].
    pub fn to_instant_utc(&self) -> (instant: i64)
        ensures
            instant == self.instant_utc(),
            self.is_valid() ==> MIN_INSTANT <= instant <= MAX_INSTANT,
    {
        proof {
            if self.is_valid() {
                lemma_valid_date_in_range(self.date);
            }
        }
        self.date.midnight() + 3600 * (self.hour as i64) + 60 * (self.minute as i64)
            + self.second as i64
    }
}

/// Every valid date lies between the first and the last representable day.
pub proof fn lemma_valid_date_in_range(date: CivilDate)
    requires
        date.is_valid(),
    ensures
        MIN_INSTANT <= date.midnight_utc(),
        date.midnight_utc() + 86399 <= MAX_INSTANT,
{
    reveal_with_fuel(days_before_month, 13);
}

} // verus!
