//! Days and instants.

use crate::platform::current_timestamp;
use crate::platform::Date;
use crate::platform::Timestamp;
use vstd::prelude::*;

verus! {

/// Seconds in a day.
pub const SECONDS_PER_DAY: i64 = 86400;

/// The first second of the day.
pub open spec fn day_start(date: Date) -> Timestamp {
    (date * SECONDS_PER_DAY) as i64
}

/// The last second of the day.
pub open spec fn day_end(date: Date) -> Timestamp {
    (date * SECONDS_PER_DAY + SECONDS_PER_DAY - 1) as i64
}

/// The first second of the day.
pub fn start_of_day(date: Date) -> (instant: Timestamp)
    ensures
        instant == day_start(date),
        instant == date * 86400,
{
    date as i64 * SECONDS_PER_DAY
}

/// The last second of the day.
pub fn end_of_day(date: Date) -> (instant: Timestamp)
    ensures
        instant == day_end(date),
        instant == date * 86400 + 86399,
{
    date as i64 * SECONDS_PER_DAY + (SECONDS_PER_DAY - 1)
}

/// The day that the instant falls on, in days since 1970-01-01.
pub open spec fn day_of(instant: Timestamp) -> int {
    instant as int / SECONDS_PER_DAY as int
}

/// The day that the instant falls on, in days since 1970-01-01.
pub fn day_of_instant(instant: Timestamp) -> (day: i64)
    ensures
        day == day_of(instant),
{
    if instant >= 0 {
        instant / SECONDS_PER_DAY
    } else {
        let before: i64 = -(instant + 1);
        -(before / SECONDS_PER_DAY) - 1
    }
}

/// The days from `start` to `end`; negative where `end` is the earlier day.
pub fn calculate_days_between(start: Date, end: Date) -> (days: i64)
    ensures
        days == end - start,
{
    end as i64 - start as i64
}

/// How long something that was announced on the given day has been open on
/// the day `today`: the days from the one to the other, and none where no
/// day of announcement is known.
pub open spec fn days_since(announced_at: Option<Date>, today: int) -> int {
    match announced_at {
        Some(day) => today - day,
        None => 0,
    }
}

/// How long something that was announced on the given day has been open on the day `today`.
pub fn days_open_on(announced_at: Option<Date>, today: Date) -> (days: i64)
    ensures
        days == days_since(announced_at, today as int),
{
    match announced_at {
        Some(day) => today as i64 - day as i64,
        None => 0,
    }
}

/// How long something that was announced on the given day has been open
/// today, by the clock of the machine: the days from that day to the day
/// that the clock stands on, and none where no day of announcement is known.
pub fn days_open(announced_at: Option<Date>) -> (days: i64)
    ensures
        announced_at is None ==> days == 0,
        exists|now: Timestamp| days == days_since(announced_at, #[trigger] day_of(now)),
{
    let now = current_timestamp();
    let days = days_open_at(announced_at, now);
    assert(days == days_since(announced_at, day_of(now)));
    days
}

/// How long something that was announced on the given day has been open at
/// the instant `now`: the days from that day to the day that the instant
/// falls on, and none where no day of announcement is known.
pub fn days_open_at(announced_at: Option<Date>, now: Timestamp) -> (days: i64)
    ensures
        days == days_since(announced_at, day_of(now)),
{
    match announced_at {
        Some(day) => day_of_instant(now) - day as i64,
        None => 0,
    }
}

} // verus!
