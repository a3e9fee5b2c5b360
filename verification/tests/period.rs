use chrono::Datelike;
use spark_candles::calendar::{MAX_TIMESTAMP, MIN_TIMESTAMP};
use spark_candles::storage::candles::CandleStore;
use spark_candles::storage::period::is_supported_interval;

const INTERVALS: [u64; 9] = [60, 180, 300, 900, 1_800, 3_600, 86_400, 604_800, 2_592_000];

/// What the calendar itself says: midnight of the date, moved back to Monday for a week.
fn by_calendar(t: i64, interval: u64) -> i64 {
    let date = chrono::DateTime::from_timestamp(t, 0).unwrap().date_naive();
    let midnight = date.and_hms_opt(0, 0, 0).unwrap().and_utc().timestamp();
    match interval {
        86_400 => midnight,
        604_800 => midnight - 86_400 * date.weekday().num_days_from_monday() as i64,
        _ => t.div_euclid(interval as i64) * interval as i64,
    }
}

#[test]
fn supported_intervals_are_the_nine() {
    for interval in INTERVALS {
        assert!(is_supported_interval(interval));
    }
    for interval in [0u64, 1, 59, 61, 120, 600, 7_200, 43_200, 86_401, 1_209_600, u64::MAX] {
        assert!(!is_supported_interval(interval));
    }
}

#[test]
fn minute_family_is_floor_of_the_epoch_count() {
    let t = 1_700_000_000;
    assert_eq!(CandleStore::get_period_start(t, 60), 1_699_999_980);
    assert_eq!(CandleStore::get_period_start(t, 180), 1_699_999_920);
    assert_eq!(CandleStore::get_period_start(t, 300), 1_699_999_800);
    assert_eq!(CandleStore::get_period_start(t, 900), 1_699_999_200);
    assert_eq!(CandleStore::get_period_start(t, 1_800), 1_699_999_200);
    assert_eq!(CandleStore::get_period_start(t, 3_600), 1_699_999_200);
    assert_eq!(CandleStore::get_period_start(t, 2_592_000), 1_697_760_000);
}

#[test]
fn day_is_midnight_utc() {
    assert_eq!(CandleStore::get_period_start(1_700_000_000, 86_400), 1_699_920_000);
    assert_eq!(CandleStore::get_period_start(1_699_920_000, 86_400), 1_699_920_000);
    assert_eq!(CandleStore::get_period_start(1_699_919_999, 86_400), 1_699_833_600);
    assert_eq!(CandleStore::get_period_start(0, 86_400), 0);
    assert_eq!(CandleStore::get_period_start(-1, 86_400), -86_400);
}

#[test]
fn week_is_the_monday_before() {
    // Monday 2023-11-13 00:00:00 UTC
    let monday = 1_699_833_600;
    for day in 0..7i64 {
        assert_eq!(CandleStore::get_period_start(monday + day * 86_400, 604_800), monday);
        assert_eq!(CandleStore::get_period_start(monday + day * 86_400 + 86_399, 604_800), monday);
    }
    assert_eq!(CandleStore::get_period_start(monday - 1, 604_800), monday - 604_800);
    assert_eq!(CandleStore::get_period_start(monday + 604_800, 604_800), monday + 604_800);
}

#[test]
fn instants_before_the_epoch_round_down() {
    assert_eq!(CandleStore::get_period_start(-1, 60), -60);
    assert_eq!(CandleStore::get_period_start(-60, 60), -60);
    assert_eq!(CandleStore::get_period_start(-61, 60), -120);
    assert_eq!(CandleStore::get_period_start(-1, 2_592_000), -2_592_000);
    assert_eq!(CandleStore::get_period_start(-1, 604_800), -259_200);
    assert_eq!(CandleStore::get_period_start(-259_201, 604_800), -864_000);
}

#[test]
fn alignment_is_idempotent() {
    let samples = [MIN_TIMESTAMP, -1_000_000_007, -86_401, -1, 0, 1, 59, 1_700_000_000, 4_102_444_799, MAX_TIMESTAMP];
    for interval in INTERVALS {
        for t in samples {
            let start = CandleStore::get_period_start(t, interval);
            assert!(start <= t && t - start < interval as i64);
            if start >= MIN_TIMESTAMP {
                assert_eq!(CandleStore::get_period_start(start, interval), start);
            }
        }
    }
}

#[test]
fn alignment_agrees_with_the_calendar() {
    let mut t: i64 = -5_000_000_000;
    while t < 5_000_000_000 {
        for interval in INTERVALS {
            assert_eq!(CandleStore::get_period_start(t, interval), by_calendar(t, interval));
        }
        t += 7_654_321;
    }
    for t in [MIN_TIMESTAMP, MIN_TIMESTAMP + 1, MAX_TIMESTAMP - 1, MAX_TIMESTAMP] {
        assert_eq!(CandleStore::get_period_start(t, 86_400), by_calendar(t, 86_400));
    }
    for t in [MIN_TIMESTAMP + 7 * 86_400, MAX_TIMESTAMP] {
        assert_eq!(CandleStore::get_period_start(t, 604_800), by_calendar(t, 604_800));
    }
}

#[test]
fn buckets_are_counted_from_their_anchor() {
    // weeks from Monday 1969-12-29, everything else from the epoch
    let mut samples = vec![MIN_TIMESTAMP, MIN_TIMESTAMP + 1, -1, 0, 1, MAX_TIMESTAMP - 1, MAX_TIMESTAMP];
    let mut t: i64 = MIN_TIMESTAMP;
    while t < MAX_TIMESTAMP {
        samples.push(t);
        t += 1_234_567_891_011;
    }
    let mut t: i64 = -700_000;
    while t < 700_000 {
        samples.push(t);
        t += 3_599;
    }
    for t in samples {
        for interval in INTERVALS {
            let anchor = if interval == 604_800 { -259_200 } else { 0 };
            let expected = t - (t - anchor).rem_euclid(interval as i64);
            assert_eq!(CandleStore::get_period_start(t, interval), expected);
        }
    }
}

#[test]
fn alignment_keeps_order() {
    let mut t: i64 = 1_699_000_000;
    while t < 1_701_000_000 {
        for interval in INTERVALS {
            let here = CandleStore::get_period_start(t, interval);
            let later = CandleStore::get_period_start(t + 12_345, interval);
            assert!(here <= later);
        }
        t += 98_765;
    }
}
