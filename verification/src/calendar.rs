//! UTC calendar arithmetic on second-resolution timestamps.
//!
//! Timestamps are `i64` seconds since 1970-01-01T00:00:00Z. The calendar
//! itself (which day a second falls on, which weekday that day is) comes
//! from `chrono`; the two functions that ask it are the only unverified
//! code in this module.

use vstd::prelude::*;

verus! {

/// Seconds in one UTC day.
pub const SECONDS_PER_DAY: i64 = 86_400;

/// The earliest instant the calendar represents: -262143-01-01T00:00:00Z.
pub const MIN_TIMESTAMP: i64 = -8_334_601_228_800;

/// The latest instant the calendar represents: +262142-12-31T23:59:59Z.
pub const MAX_TIMESTAMP: i64 = 8_210_266_876_799;

/// Whether `t` is an instant the calendar represents.
pub open spec fn valid_timestamp(t: i64) -> bool {
    MIN_TIMESTAMP <= t <= MAX_TIMESTAMP
}

/// Whole days between the epoch and the UTC day that holds `t`
/// (negative before 1970).
pub open spec fn epoch_day(t: int) -> int {
    t / 86_400
}

/// The first second of the UTC day that holds `t`.
pub open spec fn midnight(t: int) -> int {
    t - t % 86_400
}

/// Days from the preceding Monday to the UTC day that holds `t`:
/// 0 on a Monday, 6 on a Sunday. 1970-01-01 was a Thursday.
pub open spec fn days_from_monday(t: int) -> int {
    (epoch_day(t) + 3) % 7
}

/// Executable test of [`valid_timestamp`].
pub fn is_valid_timestamp(t: i64) -> (ok: bool)
    ensures
        ok == valid_timestamp(t),
{
    MIN_TIMESTAMP <= t && t <= MAX_TIMESTAMP
}

/// Midnight UTC of the date of `t`, taken from `chrono`:
/// `DateTime::from_timestamp(t, 0)`, then `date_naive()`,
/// `and_hms_opt(0, 0, 0)`, `and_utc()` and `timestamp()`.
///
/// Trusted: `from_timestamp` splits `t` into a day number
/// `t.div_euclid(86_400)` and a second of the day, `timestamp()` puts a day
/// number and a second of the day back together, and the calls between keep
/// the day and set the second of the day to zero. The result is therefore
/// `t` less its Euclidean remainder by 86 400. Outside
/// [`valid_timestamp`] `from_timestamp` returns `None`.
#[verifier::external_body]
pub(crate) fn utc_midnight(t: i64) -> (start: i64)
    requires
        valid_timestamp(t),
    ensures
        start == midnight(t as int),
{
    chrono::DateTime::from_timestamp(t, 0)
        .unwrap()
        .date_naive()
        .and_hms_opt(0, 0, 0)
        .unwrap()
        .and_utc()
        .timestamp()
}

/// The weekday of the date of `t` as days since Monday, taken from
/// `chrono`: `DateTime::from_timestamp(t, 0)`, then `date_naive()`,
/// `weekday()` and `num_days_from_monday()`.
///
/// Trusted: `chrono` keeps the proleptic Gregorian calendar, in which
/// weekdays repeat every seven days and day 0 of the epoch is a Thursday,
/// three days after a Monday. Outside [`valid_timestamp`]
/// `from_timestamp` returns `None`.
#[verifier::external_body]
pub(crate) fn utc_days_from_monday(t: i64) -> (days: u32)
    requires
        valid_timestamp(t),
    ensures
        days == days_from_monday(t as int),
{
    chrono::Datelike::weekday(&chrono::DateTime::from_timestamp(t, 0).unwrap().date_naive())
        .num_days_from_monday()
}

} // verus!
