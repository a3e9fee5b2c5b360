//! The `timestamps` queries: which buckets a series holds.

use crate::storage::candles::{Candle, CandleStore};
use crate::storage::series::{lemma_within_increasing, within};
use vstd::prelude::*;

verus! {

/// The bucket starts of one series, from the epoch on.
#[derive(Debug)]
pub struct TimestampsMeta {
    /// How many buckets there are.
    pub count: usize,
    pub first_timestamp: i64,
    pub last_timestamp: i64,
    /// Every bucket start, oldest first.
    pub timestamps: Vec<i64>,
}

/// The earliest and latest bucket start of the store, if it holds a candle.
pub fn get_timestamps(candle_store: &CandleStore) -> (range: Option<(i64, i64)>)
    requires
        candle_store.inv(),
    ensures
        range is None <==> forall|t: i64| !candle_store.has_timestamp(t),
        range matches Some((earliest, latest)) ==> {
            &&& candle_store.has_timestamp(earliest)
            &&& candle_store.has_timestamp(latest)
            &&& forall|t: i64| #[trigger] candle_store.has_timestamp(t) ==> earliest <= t <= latest
        },
{
    candle_store.get_min_max_timestamps()
}

/// The range that spans two ranges of bucket starts, either of which may
/// be missing: from the earlier of the two beginnings to the later of the
/// two ends.
pub fn span(first: Option<(i64, i64)>, second: Option<(i64, i64)>) -> (both: Option<(i64, i64)>)
    ensures
        both == match (first, second) {
            (Some((low, high)), Some((from, to))) => Some(
                (
                    if from < low {
                        from
                    } else {
                        low
                    },
                    if to > high {
                        to
                    } else {
                        high
                    },
                ),
            ),
            (Some(range), None) => Some(range),
            (None, other) => other,
        },
{
    match (first, second) {
        (Some((low, high)), Some((from, to))) => Some(
            (
                if from < low {
                    from
                } else {
                    low
                },
                if to > high {
                    to
                } else {
                    high
                },
            ),
        ),
        (Some(range), None) => Some(range),
        (None, other) => other,
    }
}

/// The bucket starts of `symbol` at `interval` that are not before the
/// epoch, or `None` where there is none. They come in ascending order and
/// none comes twice.
pub fn get_timestamps_meta(candle_store: &CandleStore, symbol: &str, interval: u64) -> (meta:
    Option<TimestampsMeta>)
    requires
        candle_store.inv(),
    ensures
        ({
            let bars = within(candle_store.series(symbol@, interval), 0, i64::MAX);
            match meta {
                None => bars.len() == 0,
                Some(meta) => {
                    &&& bars.len() > 0
                    &&& meta.count == bars.len()
                    &&& meta.timestamps@ == Seq::new(bars.len(), |i: int| bars[i].timestamp)
                    &&& meta.first_timestamp == bars[0].timestamp
                    &&& meta.last_timestamp == bars[bars.len() - 1].timestamp
                    &&& forall|i: int, j: int|
                        0 <= i < j < meta.timestamps.len() ==> meta.timestamps[i]
                            < meta.timestamps[j]
                },
            }
        }),
{
    let candles: Vec<Candle> = candle_store.get_candles_in_time_range(
        symbol,
        interval,
        0,
        i64::MAX,
    );
    let count: usize = candles.len();
    if count == 0 {
        return None;
    }
    let mut timestamps: Vec<i64> = Vec::new();
    let mut i: usize = 0;
    while i < count
        invariant
            count == candles.len(),
            i <= count,
            timestamps@ == Seq::new(i as nat, |k: int| candles[k].timestamp),
        decreases count - i,
    {
        timestamps.push(candles[i].timestamp);
        i = i + 1;
        assert(timestamps@ =~= Seq::new(i as nat, |k: int| candles[k].timestamp));
    }
    proof {
        let series = candle_store.series(symbol@, interval);
        candle_store.lemma_series_wf(symbol@, interval);
        candle_store.lemma_series_interval(symbol@, interval);
        lemma_within_increasing(series, interval, candle_store.max_candles(), 0, i64::MAX);
    }
    Some(
        TimestampsMeta {
            count,
            first_timestamp: timestamps[0],
            last_timestamp: timestamps[count - 1],
            timestamps,
        },
    )
}

} // verus!
