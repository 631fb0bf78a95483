//! Date ranges for activity searches, as unix timestamps.
use vstd::prelude::*;

use crate::text::str_equals;

verus! {

/// The day, counted from 1970-01-01, of a `MM/DD/YYYY` date; `None` when the
/// text is no such date.
pub uninterp spec fn epoch_day_of(s: Seq<char>) -> Option<i32>;

/// Relies on chrono's `NaiveDate::parse_from_str` with the format `%m/%d/%Y` to
/// read the date, and on `NaiveDate::to_epoch_days` for its day number.
#[verifier::external_body]
fn parse_epoch_day(s: &str) -> (r: Option<i32>)
    ensures
        r == epoch_day_of(s@),
{
    match chrono::NaiveDate::parse_from_str(s, "%m/%d/%Y") {
        Ok(date) => Some(date.to_epoch_days()),
        Err(_) => None,
    }
}

pub const SECONDS_PER_DAY: i64 = 86400;

/// The timestamp of the first second of a day.
pub open spec fn day_start(day: int) -> int {
    day * SECONDS_PER_DAY
}

/// The timestamp of the last second of a day.
pub open spec fn day_end(day: int) -> int {
    day * SECONDS_PER_DAY + (SECONDS_PER_DAY - 1)
}

/// From the start of the first day to the end of the last, unless the range is reversed.
pub open spec fn range_of_days(first: int, last: int) -> Option<(int, int)> {
    if first <= last {
        Some((day_start(first), day_end(last)))
    } else {
        None
    }
}

pub open spec fn as_timestamps(r: Option<(int, int)>) -> Option<(i64, i64)> {
    match r {
        Some(p) => Some((p.0 as i64, p.1 as i64)),
        None => None,
    }
}

/// The timestamps from the first second of `first_day` to the last second of
/// `last_day`; `None` when `last_day` comes before `first_day`.
pub fn day_range(first_day: i32, last_day: i32) -> (r: Option<(i64, i64)>)
    ensures
        r == as_timestamps(range_of_days(first_day as int, last_day as int)),
        r matches Some((from, to)) ==> from == day_start(first_day as int) && to == day_end(
            last_day as int,
        ),
{
    if first_day <= last_day {
        Some((first_day as i64 * SECONDS_PER_DAY, last_day as i64 * SECONDS_PER_DAY + (SECONDS_PER_DAY - 1)))
    } else {
        None
    }
}

/// The timestamps that cover the `MM/DD/YYYY` dates `start` to `end`, both
/// whole days included; `None` when either is no date or `end` comes first.
pub fn date_range(start: &str, end: &str) -> (r: Option<(i64, i64)>)
    ensures
        match (epoch_day_of(start@), epoch_day_of(end@)) {
            (Some(a), Some(b)) => r == as_timestamps(range_of_days(a as int, b as int)),
            _ => r is None,
        },
{
    let after = parse_epoch_day(start);
    let before = parse_epoch_day(end);
    match (after, before) {
        (Some(a), Some(b)) => day_range(a, b),
        _ => None,
    }
}

/// The Monday-to-Sunday week holding day `today`, which is `days_from_sunday`
/// days after the previous (or same) Sunday.
pub fn week_range(today: i32, days_from_sunday: u32) -> (r: (i64, i64))
    requires
        days_from_sunday < 7,
    ensures
        ({
            let back = (days_from_sunday + 6) % 7;
            r.0 == day_start(today - back) && r.1 == day_end(today - back + 6)
        }),
{
    let back: i64 = ((days_from_sunday + 6) % 7) as i64;
    let first: i64 = today as i64 - back;
    (first * SECONDS_PER_DAY, (first + 6) * SECONDS_PER_DAY + (SECONDS_PER_DAY - 1))
}

/// Whether an answer to a prompt asks to quit (`q` or `Q`).
pub fn is_quit(input: &str) -> (r: bool)
    ensures
        r == (input@ == "q"@ || input@ == "Q"@),
{
    str_equals(input, "q") || str_equals(input, "Q")
}

} // verus!
