//! Pure classification of event intervals relative to a wall-clock instant.
//!
//! All instants are seconds since the Unix epoch, in UTC. Nothing in this
//! module performs I/O or reads a clock.

use vstd::prelude::*;

verus! {

/// Number of seconds in one civil day.
pub const SECONDS_PER_DAY: i64 = 86400;

/// How far ahead of `now` an event may start and still count as "soon".
pub const SOON_WINDOW_SECONDS: i64 = 1800;

/// Number of the UTC day that holds `instant`, counted from the epoch day.
pub open spec fn day_number(instant: int) -> int {
    instant / 86400
}

/// First second of the UTC day that holds `now`.
pub open spec fn today_start(now: int) -> int {
    day_number(now) * 86400
}

/// Last second of the UTC day that holds `now`.
pub open spec fn today_end(now: int) -> int {
    today_start(now) + 86399
}

/// An interval is live when it has started and not yet ended.
pub open spec fn is_now(now: int, start: int, end: int) -> bool {
    start <= now && now < end
}

/// An interval is soon when it is not live and starts within the next half hour.
pub open spec fn is_soon(now: int, start: int, end: int) -> bool {
    !is_now(now, start, end) && now < start && start <= now + 1800
}

/// An interval belongs to today when it starts inside the today window, or
/// when it began no later than the window's first second and has not ended
/// before `now`.
pub open spec fn overlaps_today(now: int, start: int, end: int) -> bool {
    (today_start(now) <= start && start <= today_end(now))
        || (start <= today_start(now) && end >= now)
}

/// Computes [`day_number`].
pub fn day_number_of(instant: i64) -> (day: i64)
    ensures
        day == day_number(instant as int),
{
    if instant >= 0 {
        instant / SECONDS_PER_DAY
    } else {
        let shifted: i64 = instant + 1;
        let below: i64 = (0 - shifted) / SECONDS_PER_DAY;
        0 - below - 1
    }
}

/// Computes [`is_now`].
pub fn live_at(now: i64, start: i64, end: i64) -> (live: bool)
    ensures
        live == is_now(now as int, start as int, end as int),
{
    start <= now && now < end
}

/// Computes [`is_soon`].
pub fn soon_at(now: i64, start: i64, end: i64) -> (soon: bool)
    ensures
        soon == is_soon(now as int, start as int, end as int),
{
    if live_at(now, start, end) || start <= now {
        false
    } else if now > i64::MAX - SOON_WINDOW_SECONDS {
        true
    } else {
        start <= now + SOON_WINDOW_SECONDS
    }
}

/// Computes [`overlaps_today`].
pub fn in_today(now: i64, start: i64, end: i64) -> (today: bool)
    ensures
        today == overlaps_today(now as int, start as int, end as int),
{
    // An event starts inside the window exactly when it starts on the day of
    // `now`, and at or before the window's first second exactly when it
    // starts on an earlier day or on that first second.
    let start_day: i64 = day_number_of(start);
    let this_day: i64 = day_number_of(now);
    start_day == this_day || (start_day < this_day && end >= now)
}

} // verus!
