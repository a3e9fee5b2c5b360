//! Bucket alignment: which candle of a series a trade falls into.

use crate::calendar::{
    utc_days_from_monday, utc_midnight, valid_timestamp, MIN_TIMESTAMP, SECONDS_PER_DAY,
};
use crate::storage::candles::CandleStore;
use vstd::arithmetic::div_mod::{
    lemma_div_is_ordered, lemma_fundamental_div_mod, lemma_fundamental_div_mod_converse,
    lemma_mod_multiples_basic, lemma_mod_multiples_vanish,
};
use vstd::arithmetic::mul::lemma_mul_inequality;
use vstd::prelude::*;

verus! {

/// One week in seconds: the one interval whose buckets do not start at a
/// multiple of the interval since the epoch.
pub const WEEK: u64 = 604_800;

/// Monday 1969-12-29T00:00:00Z, the start of the week that holds the epoch.
pub const WEEK_ANCHOR: i64 = -259_200;

/// The longest supported interval (thirty days).
pub const MAX_INTERVAL: u64 = 2_592_000;

/// The candle widths a series can have, in seconds:
/// 1m, 3m, 5m, 15m, 30m, 1h, 1D, 1W and the thirty-day month.
pub open spec fn supported_interval(interval: u64) -> bool {
    ||| interval == 60
    ||| interval == 180
    ||| interval == 300
    ||| interval == 900
    ||| interval == 1_800
    ||| interval == 3_600
    ||| interval == 86_400
    ||| interval == 604_800
    ||| interval == 2_592_000
}

/// The instant from which the buckets of `interval` are counted: the Monday
/// before the epoch for weeks, the epoch itself for every other interval.
pub open spec fn bucket_anchor(interval: u64) -> int {
    if interval == WEEK {
        WEEK_ANCHOR as int
    } else {
        0
    }
}

/// The start of the bucket of width `interval` that holds the instant `t`:
/// the latest instant at or before `t` that lies a whole number of
/// intervals from the anchor. For a day that is midnight UTC, for a week
/// Monday 00:00 UTC, for the others `floor(t / interval) * interval`.
pub open spec fn period_start(t: int, interval: u64) -> int {
    t - (t - bucket_anchor(interval)) % (interval as int)
}

/// Whether `t` is the start of a bucket of width `interval`.
pub open spec fn aligned(t: int, interval: u64) -> bool {
    period_start(t, interval) == t
}

/// Executable test of [`supported_interval`].
pub fn is_supported_interval(interval: u64) -> (ok: bool)
    ensures
        ok == supported_interval(interval),
{
    interval == 60 || interval == 180 || interval == 300 || interval == 900 || interval == 1_800
        || interval == 3_600 || interval == 86_400 || interval == 604_800 || interval
        == 2_592_000
}

/// A bucket starts at or before the instant it holds, less than one
/// interval earlier.
pub proof fn lemma_period_start_bounds(t: int, interval: u64)
    requires
        interval > 0,
    ensures
        t - interval < period_start(t, interval) <= t,
{
}

/// Bucket starts are fixed points of alignment: aligning an instant twice
/// gives what aligning it once gives.
pub proof fn lemma_period_start_idempotent(t: int, interval: u64)
    requires
        interval > 0,
    ensures
        aligned(period_start(t, interval), interval),
{
    let a = bucket_anchor(interval);
    let i = interval as int;
    let d = t - a;
    lemma_fundamental_div_mod(d, i);
    // period_start - a == i * (d / i), a multiple of the interval
    lemma_mod_multiples_basic(d / i, i);
    assert(i * (d / i) == (d / i) * i) by (nonlinear_arith);
}

/// Whole intervals away from a bucket start lies another bucket start.
pub proof fn lemma_aligned_shift(t: int, interval: u64, k: int)
    requires
        interval > 0,
        aligned(t, interval),
    ensures
        aligned(t + k * interval, interval),
{
    let a = bucket_anchor(interval);
    let i = interval as int;
    lemma_mod_multiples_vanish(k, t - a, i);
    assert(i * k + (t - a) == t + k * i - a) by (nonlinear_arith);
}

/// Every instant of a bucket aligns to that bucket's start.
pub proof fn lemma_period_start_within(start: int, t: int, interval: u64)
    requires
        interval > 0,
        aligned(start, interval),
        start <= t < start + interval,
    ensures
        period_start(t, interval) == start,
{
    let a = bucket_anchor(interval);
    let i = interval as int;
    // (start - a) % i == 0 and 0 <= t - start < i
    lemma_fundamental_div_mod(start - a, i);
    let q = (start - a) / i;
    assert(start - a == i * q);
    lemma_fundamental_div_mod_converse(t - a, i, q, t - start);
}

/// Alignment keeps order: a later instant never falls into an earlier bucket.
pub proof fn lemma_period_start_monotone(t1: int, t2: int, interval: u64)
    requires
        interval > 0,
        t1 <= t2,
    ensures
        period_start(t1, interval) <= period_start(t2, interval),
{
    let a = bucket_anchor(interval);
    let i = interval as int;
    lemma_fundamental_div_mod(t1 - a, i);
    lemma_fundamental_div_mod(t2 - a, i);
    lemma_div_is_ordered(t1 - a, t2 - a, i);
    lemma_mul_inequality((t1 - a) / i, (t2 - a) / i, i);
    assert(i * ((t1 - a) / i) == ((t1 - a) / i) * i) by (nonlinear_arith);
    assert(i * ((t2 - a) / i) == ((t2 - a) / i) * i) by (nonlinear_arith);
}

impl CandleStore {
    /// The start of the bucket of width `interval` that holds `event_time`.
    ///
    /// Days and weeks are taken from the UTC calendar: midnight of the
    /// date, and for a week that midnight moved back by the weekday's
    /// distance from Monday. Every other interval is counted from the
    /// epoch.
    pub fn get_period_start(event_time: i64, interval: u64) -> (start: i64)
        requires
            valid_timestamp(event_time),
            supported_interval(interval),
        ensures
            start == period_start(event_time as int, interval),
            aligned(start as int, interval),
            MIN_TIMESTAMP - MAX_INTERVAL < start <= event_time,
    {
        proof {
            lemma_period_start_idempotent(event_time as int, interval);
        }
        if interval == 86_400 {
            utc_midnight(event_time)
        } else if interval == WEEK {
            let day_start: i64 = utc_midnight(event_time);
            let weekday: u32 = utc_days_from_monday(event_time);
            day_start - (weekday as i64) * SECONDS_PER_DAY
        } else {
            let into_bucket: i64 = event_time.checked_rem_euclid(interval as i64).unwrap();
            event_time - into_bucket
        }
    }
}

} // verus!
