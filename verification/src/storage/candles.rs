//! Candles and the store that keeps one series of them per symbol and
//! interval.

use crate::calendar::valid_timestamp;
use crate::storage::period::{period_start, supported_interval};
use crate::storage::series::{
    candles_within, fold_into, fold_outcome, fold_trade, last_candles,
    lemma_series_increasing, newest_first, series_wf, within,
};
use vstd::prelude::*;

verus! {

/// One OHLCV bucket. Prices and volume are in the raw integer units of the
/// source chain; `timestamp` is the start of the bucket in seconds since the
/// epoch.
#[derive(Clone, Copy, Debug, PartialEq, Eq, Structural)]
pub struct Candle {
    pub open: u128,
    pub high: u128,
    pub low: u128,
    pub close: u128,
    pub volume: u128,
    pub timestamp: i64,
}

/// The sum of two volumes, held at `u128::MAX` where it would pass it.
pub open spec fn saturating_sum(a: u128, b: u128) -> u128 {
    if a + b > u128::MAX {
        u128::MAX
    } else {
        (a + b) as u128
    }
}

impl Candle {
    /// The OHLC ordering: the low is at or below open and close, the high at
    /// or above them.
    pub open spec fn ordered(self) -> bool {
        &&& self.low <= self.open <= self.high
        &&& self.low <= self.close <= self.high
    }

    /// The candle that the first trade of a bucket opens.
    pub open spec fn opening(timestamp: i64, price: u128, volume: u128) -> Candle {
        Candle { open: price, high: price, low: price, close: price, volume, timestamp }
    }

    /// The flat, empty candle that fills a bucket without trades: it carries
    /// the previous close forward.
    pub open spec fn carried(close: u128, timestamp: i64) -> Candle {
        Candle { open: close, high: close, low: close, close, volume: 0, timestamp }
    }

    /// This candle after one more trade of its bucket.
    pub open spec fn absorbing(self, price: u128, volume: u128) -> Candle {
        Candle {
            open: self.open,
            high: if price > self.high {
                price
            } else {
                self.high
            },
            low: if price < self.low {
                price
            } else {
                self.low
            },
            close: price,
            volume: saturating_sum(self.volume, volume),
            timestamp: self.timestamp,
        }
    }

    /// Opens a bucket at `timestamp` with its first trade.
    pub fn new(timestamp: i64, price: u128, volume: u128) -> (candle: Candle)
        ensures
            candle == Candle::opening(timestamp, price, volume),
            candle.ordered(),
    {
        Candle { open: price, high: price, low: price, close: price, volume, timestamp }
    }

    /// A bucket at `timestamp` in which nothing traded after a close at
    /// `close`.
    pub fn flat(close: u128, timestamp: i64) -> (candle: Candle)
        ensures
            candle == Candle::carried(close, timestamp),
            candle.ordered(),
    {
        Candle { open: close, high: close, low: close, close, volume: 0, timestamp }
    }

    /// Folds one more trade into the candle: the high and low widen to the
    /// price, the close becomes the price, the volume grows by `volume`.
    pub fn merge(&mut self, price: u128, volume: u128)
        ensures
            *final(self) == old(self).absorbing(price, volume),
            old(self).ordered() ==> final(self).ordered(),
    {
        if price > self.high {
            self.high = price;
        }
        if price < self.low {
            self.low = price;
        }
        self.close = price;
        self.volume = self.volume.saturating_add(volume);
    }
}

/// What folding a trade did to a series.
#[derive(Clone, Copy, Debug, PartialEq, Eq, Structural)]
pub enum FoldOutcome {
    /// The trade fell into the newest bucket and was merged into its candle.
    Merged,
    /// The trade opened a new bucket, after filling any gap before it.
    Appended,
    /// The trade belongs before the newest bucket; the series is untouched.
    OutOfOrder,
}

/// The candles of one symbol at one interval.
struct Series {
    symbol: String,
    interval: u64,
    candles: Vec<Candle>,
}

/// The candle series of a market, one per symbol and interval, each created
/// by the first trade folded into it.
pub struct CandleStore {
    entries: Vec<Series>,
    max_candles: usize,
}

/// How many candles a series retains unless the store is told otherwise.
pub const MAX_CANDLES: usize = 1_000_000;

impl Default for CandleStore {
    /// An empty store whose series retain [`MAX_CANDLES`] candles each.
    fn default() -> (store: Self)
        ensures
            store.is_empty_with(MAX_CANDLES as nat),
    {
        Self::new()
    }
}

impl CandleStore {
    /// Whether entry `i` is the series of `symbol` at `interval`.
    spec fn holds(&self, i: int, symbol: Seq<char>, interval: u64) -> bool {
        &&& 0 <= i < self.entries.len()
        &&& self.entries[i].symbol@ == symbol
        &&& self.entries[i].interval == interval
    }

    /// The most candles any series of this store retains.
    pub closed spec fn max_candles(&self) -> nat {
        self.max_candles as nat
    }

    /// The candles of `symbol` at `interval`, oldest first; empty where no
    /// trade has been folded for that pair yet.
    pub closed spec fn series(&self, symbol: Seq<char>, interval: u64) -> Seq<Candle> {
        if exists|i: int| self.holds(i, symbol, interval) {
            self.entries[choose|i: int| self.holds(i, symbol, interval)].candles@
        } else {
            Seq::empty()
        }
    }

    /// The store's invariant: it retains at least one candle per series, no
    /// symbol and interval has two series, and every series has a supported
    /// interval and is well formed.
    pub closed spec fn inv(&self) -> bool {
        &&& self.max_candles >= 1
        &&& forall|i: int, j: int|
            0 <= i < j < self.entries.len() ==> !(#[trigger] self.entries[i].symbol@
                == #[trigger] self.entries[j].symbol@ && self.entries[i].interval
                == self.entries[j].interval)
        &&& forall|i: int|
            0 <= i < self.entries.len() ==> {
                &&& supported_interval((#[trigger] self.entries[i]).interval)
                &&& series_wf(
                    self.entries[i].candles@,
                    self.entries[i].interval,
                    self.max_candles as nat,
                )
            }
    }

    /// An entry's candles are the series of the entry's symbol and interval.
    proof fn lemma_entry_is_series(&self, i: int)
        requires
            self.inv(),
            0 <= i < self.entries.len(),
        ensures
            self.series(self.entries[i].symbol@, self.entries[i].interval)
                == self.entries[i].candles@,
    {
        let symbol = self.entries[i].symbol@;
        let interval = self.entries[i].interval;
        assert(self.holds(i, symbol, interval));
        let j = choose|j: int| self.holds(j, symbol, interval);
        assert(self.holds(j, symbol, interval));
        if j < i {
            assert(self.entries[j].symbol@ == self.entries[i].symbol@);
        } else if i < j {
            assert(self.entries[i].symbol@ == self.entries[j].symbol@);
        }
    }

    /// Every series of a store is well formed: its candles are ordered and
    /// aligned, their buckets one interval apart, its length within the
    /// store's bound.
    pub proof fn lemma_series_wf(&self, symbol: Seq<char>, interval: u64)
        requires
            self.inv(),
        ensures
            series_wf(self.series(symbol, interval), interval, self.max_candles()),
    {
        if exists|i: int| self.holds(i, symbol, interval) {
            let i = choose|i: int| self.holds(i, symbol, interval);
            assert(series_wf(
                self.entries[i].candles@,
                self.entries[i].interval,
                self.max_candles as nat,
            ));
        }
    }

    /// Only series of a supported interval hold candles.
    pub proof fn lemma_series_interval(&self, symbol: Seq<char>, interval: u64)
        requires
            self.inv(),
            self.series(symbol, interval).len() > 0,
        ensures
            supported_interval(interval),
    {
        let i = choose|i: int| self.holds(i, symbol, interval);
        assert(supported_interval(self.entries[i].interval));
    }

    /// In every candle of the store the low is at or below the smaller
    /// of open and close, and the high at or above the larger.
    pub proof fn lemma_candles_ordered(&self, symbol: Seq<char>, interval: u64, i: int)
        requires
            self.inv(),
            0 <= i < self.series(symbol, interval).len(),
        ensures
            ({
                let candle = self.series(symbol, interval)[i];
                let (lesser, greater) = if candle.open <= candle.close {
                    (candle.open, candle.close)
                } else {
                    (candle.close, candle.open)
                };
                candle.low <= lesser <= greater <= candle.high
            }),
    {
        self.lemma_series_wf(symbol, interval);
    }

    /// In every series of two or more candles, each bucket starts exactly
    /// one interval after the bucket before it.
    pub proof fn lemma_buckets_contiguous(&self, symbol: Seq<char>, interval: u64, i: int)
        requires
            self.inv(),
            0 < i < self.series(symbol, interval).len(),
        ensures
            self.series(symbol, interval)[i].timestamp == self.series(symbol, interval)[i
                - 1].timestamp + interval,
    {
        self.lemma_series_wf(symbol, interval);
    }

    /// Every candle starts where its bucket starts: aligning its timestamp
    /// again gives the timestamp back.
    pub proof fn lemma_buckets_aligned(&self, symbol: Seq<char>, interval: u64, i: int)
        requires
            self.inv(),
            0 <= i < self.series(symbol, interval).len(),
        ensures
            period_start(self.series(symbol, interval)[i].timestamp as int, interval)
                == self.series(symbol, interval)[i].timestamp,
    {
        self.lemma_series_wf(symbol, interval);
    }

    /// No series is longer than the store's bound.
    pub proof fn lemma_length_bounded(&self, symbol: Seq<char>, interval: u64)
        requires
            self.inv(),
        ensures
            self.series(symbol, interval).len() <= self.max_candles(),
    {
        self.lemma_series_wf(symbol, interval);
    }

    /// Whether the store holds no candle yet and retains `max_candles` per
    /// series.
    pub open spec fn is_empty_with(&self, max_candles: nat) -> bool {
        &&& self.inv()
        &&& self.max_candles() == max_candles
        &&& forall|symbol: Seq<char>, interval: u64|
            #[trigger] self.series(symbol, interval) == Seq::<Candle>::empty()
    }

    /// An empty store whose series retain [`MAX_CANDLES`] candles each.
    pub fn new() -> (store: Self)
        ensures
            store.is_empty_with(MAX_CANDLES as nat),
    {
        CandleStore { entries: Vec::new(), max_candles: MAX_CANDLES }
    }

    /// An empty store whose series retain `max_candles` candles each.
    pub fn with_max_candles(max_candles: usize) -> (store: Self)
        requires
            max_candles >= 1,
        ensures
            store.is_empty_with(max_candles as nat),
    {
        CandleStore { entries: Vec::new(), max_candles }
    }

    /// The position of the series of `symbol` at `interval`, if it exists.
    fn find(&self, symbol: &String, interval: u64) -> (found: Option<usize>)
        ensures
            match found {
                Some(i) => self.holds(i as int, symbol@, interval),
                None => forall|i: int| !self.holds(i, symbol@, interval),
            },
    {
        let mut i: usize = 0;
        while i < self.entries.len()
            invariant
                i <= self.entries.len(),
                forall|j: int| 0 <= j < i ==> !self.holds(j, symbol@, interval),
            decreases self.entries.len() - i,
        {
            if self.entries[i].interval == interval && self.entries[i].symbol == *symbol {
                return Some(i);
            }
            i = i + 1;
        }
        None
    }

    /// Folds one trade into the series of `symbol` at `interval`, creating
    /// the series if this is its first trade. No other series changes.
    pub fn add_price(
        &mut self,
        symbol: &str,
        interval: u64,
        price: u128,
        volume: u128,
        event_time: i64,
    ) -> (outcome: FoldOutcome)
        requires
            old(self).inv(),
            supported_interval(interval),
            valid_timestamp(event_time),
        ensures
            final(self).inv(),
            final(self).max_candles() == old(self).max_candles(),
            final(self).series(symbol@, interval) == fold_trade(
                old(self).series(symbol@, interval),
                interval,
                old(self).max_candles(),
                price,
                volume,
                event_time,
            ),
            outcome == fold_outcome(old(self).series(symbol@, interval), interval, event_time),
            forall|other: Seq<char>, width: u64|
                other != symbol@ || width != interval ==> #[trigger] final(self).series(
                    other,
                    width,
                ) == old(self).series(other, width),
    {
        let key: String = symbol.to_owned();
        let found = self.find(&key, interval);
        let at: usize = match found {
            Some(i) => i,
            None => {
                self.entries.push(Series { symbol: key, interval, candles: Vec::new() });
                self.entries.len() - 1
            },
        };
        let ghost grown = *self;
        proof {
            // a series that was just created is empty: so far no series reads differently
            assert(key@ == symbol@);
            assert forall|i: int| 0 <= i < old(self).entries.len() implies #[trigger]
                grown.entries[i] == old(self).entries[i] by {}
            assert forall|i: int, j: int| 0 <= i < j < grown.entries.len() implies !(
            #[trigger] grown.entries[i].symbol@ == #[trigger] grown.entries[j].symbol@
                && grown.entries[i].interval == grown.entries[j].interval) by {
                if j >= old(self).entries.len() {
                    assert(!old(self).holds(i, symbol@, interval));
                }
            }
            assert(grown.inv());
            assert(grown.holds(at as int, symbol@, interval));
            grown.lemma_entry_is_series(at as int);
            assert forall|other: Seq<char>, width: u64| #[trigger]
                grown.series(other, width) == old(self).series(other, width) by {
                if exists|i: int| old(self).holds(i, other, width) {
                    let i = choose|i: int| old(self).holds(i, other, width);
                    old(self).lemma_entry_is_series(i);
                    assert(grown.holds(i, other, width));
                    grown.lemma_entry_is_series(i);
                } else if exists|i: int| grown.holds(i, other, width) {
                    let i = choose|i: int| grown.holds(i, other, width);
                    if i < old(self).entries.len() {
                        assert(old(self).holds(i, other, width));
                    }
                    grown.lemma_entry_is_series(i);
                }
            }
        }
        let outcome = fold_into(
            &mut self.entries[at].candles,
            interval,
            self.max_candles,
            price,
            volume,
            event_time,
        );
        proof {
            // the fold wrote to one entry's candles and to nothing else
            assert forall|i: int| 0 <= i < self.entries.len() implies #[trigger]
                self.entries[i].symbol@ == grown.entries[i].symbol@ && self.entries[i].interval
                == grown.entries[i].interval && (i != at ==> self.entries[i].candles@
                == grown.entries[i].candles@) by {}
            assert(self.inv());
            self.lemma_entry_is_series(at as int);
            assert forall|other: Seq<char>, width: u64|
                other != symbol@ || width != interval implies #[trigger] self.series(other, width)
                == old(self).series(other, width) by {
                assert(grown.series(other, width) == old(self).series(other, width));
                if exists|i: int| grown.holds(i, other, width) {
                    let i = choose|i: int| grown.holds(i, other, width);
                    grown.lemma_entry_is_series(i);
                    assert(self.holds(i, other, width));
                    self.lemma_entry_is_series(i);
                } else if exists|i: int| self.holds(i, other, width) {
                    let i = choose|i: int| self.holds(i, other, width);
                    assert(grown.holds(i, other, width));
                }
            }
        }
        outcome
    }

    /// The `count` most recent candles of `symbol` at `interval`, newest
    /// first; nothing where the pair has no series.
    pub fn get_candles(&self, symbol: &str, interval: u64, count: usize) -> (out: Vec<Candle>)
        requires
            self.inv(),
        ensures
            out@ == newest_first(self.series(symbol@, interval), count as nat),
    {
        let key: String = symbol.to_owned();
        match self.find(&key, interval) {
            Some(i) => {
                proof {
                    self.lemma_entry_is_series(i as int);
                }
                last_candles(&self.entries[i].candles, count)
            },
            None => {
                let out: Vec<Candle> = Vec::new();
                assert(out@ =~= newest_first(self.series(symbol@, interval), count as nat));
                out
            },
        }
    }

    /// The candles of `symbol` at `interval` whose bucket starts within
    /// `from ..= to`, oldest first; nothing where the pair has no series.
    pub fn get_candles_in_time_range(
        &self,
        symbol: &str,
        interval: u64,
        from: i64,
        to: i64,
    ) -> (out: Vec<Candle>)
        requires
            self.inv(),
        ensures
            out@ == within(self.series(symbol@, interval), from, to),
    {
        let key: String = symbol.to_owned();
        match self.find(&key, interval) {
            Some(i) => {
                proof {
                    self.lemma_entry_is_series(i as int);
                }
                candles_within(&self.entries[i].candles, from, to)
            },
            None => {
                let out: Vec<Candle> = Vec::new();
                proof {
                    reveal(Seq::filter);
                }
                assert(out@ =~= within(self.series(symbol@, interval), from, to));
                out
            },
        }
    }

    /// Whether some candle of some series of the store starts at `t`.
    pub open spec fn has_timestamp(&self, t: i64) -> bool {
        exists|symbol: Seq<char>, interval: u64, i: int|
            0 <= i < self.series(symbol, interval).len() && (#[trigger] self.series(
                symbol,
                interval,
            )[i]).timestamp == t
    }

    /// Whether candle `i` of entry `e` starts at `t`.
    spec fn entry_has(&self, e: int, i: int, t: i64) -> bool {
        &&& 0 <= e < self.entries.len()
        &&& 0 <= i < self.entries[e].candles.len()
        &&& self.entries[e].candles[i].timestamp == t
    }

    /// A store holds a timestamp exactly if one of its entries does.
    proof fn lemma_has_timestamp(&self, t: i64)
        requires
            self.inv(),
        ensures
            self.has_timestamp(t) <==> exists|e: int, i: int| self.entry_has(e, i, t),
    {
        if self.has_timestamp(t) {
            let (symbol, interval, i) = choose|symbol: Seq<char>, interval: u64, i: int|
                0 <= i < self.series(symbol, interval).len() && (#[trigger] self.series(
                    symbol,
                    interval,
                )[i]).timestamp == t;
            let e = choose|e: int| self.holds(e, symbol, interval);
            assert(self.entry_has(e, i, t));
        }
        if exists|e: int, i: int| self.entry_has(e, i, t) {
            let (e, i) = choose|e: int, i: int| self.entry_has(e, i, t);
            self.lemma_entry_is_series(e);
            let symbol = self.entries[e].symbol@;
            let interval = self.entries[e].interval;
            assert(self.series(symbol, interval)[i].timestamp == t);
        }
    }

    /// The earliest and the latest bucket start over all series of the
    /// store, or `None` while it holds no candle.
    pub fn get_min_max_timestamps(&self) -> (range: Option<(i64, i64)>)
        requires
            self.inv(),
        ensures
            range is None <==> forall|t: i64| !self.has_timestamp(t),
            range matches Some((earliest, latest)) ==> {
                &&& self.has_timestamp(earliest)
                &&& self.has_timestamp(latest)
                &&& forall|t: i64| #[trigger] self.has_timestamp(t) ==> earliest <= t <= latest
            },
    {
        let mut range: Option<(i64, i64)> = None;
        let mut e: usize = 0;
        while e < self.entries.len()
            invariant
                self.inv(),
                e <= self.entries.len(),
                range is None ==> forall|d: int, i: int, t: i64|
                    0 <= d < e ==> !self.entry_has(d, i, t),
                range matches Some((earliest, latest)) ==> {
                    &&& exists|d: int, i: int| self.entry_has(d, i, earliest)
                    &&& exists|d: int, i: int| self.entry_has(d, i, latest)
                    &&& forall|d: int, i: int, t: i64|
                        0 <= d < e && #[trigger] self.entry_has(d, i, t) ==> earliest <= t
                            <= latest
                },
            decreases self.entries.len() - e,
        {
            let candles = &self.entries[e].candles;
            let n: usize = candles.len();
            if n > 0 {
                // a series is in bucket order: its ends bound it
                let first: i64 = candles[0].timestamp;
                let last: i64 = candles[n - 1].timestamp;
                proof {
                    assert(self.entry_has(e as int, 0, first));
                    assert(self.entry_has(e as int, n - 1, last));
                    assert forall|i: int, t: i64| self.entry_has(e as int, i, t) implies first
                        <= t <= last by {
                        let width = self.entries[e as int].interval;
                        assert(series_wf(candles@, width, self.max_candles as nat));
                        if 0 < i {
                            lemma_series_increasing(
                                candles@,
                                width,
                                self.max_candles as nat,
                                0,
                                i,
                            );
                        }
                        if i < n - 1 {
                            lemma_series_increasing(
                                candles@,
                                width,
                                self.max_candles as nat,
                                i,
                                n - 1,
                            );
                        }
                    }
                }
                range = match range {
                    None => Some((first, last)),
                    Some((earliest, latest)) => {
                        let low: i64 = if first < earliest {
                            first
                        } else {
                            earliest
                        };
                        let high: i64 = if last > latest {
                            last
                        } else {
                            latest
                        };
                        Some((low, high))
                    },
                };
            }
            proof {
                // widened by this entry's ends, the range bounds this entry too
                if let Some((earliest, latest)) = range {
                    assert forall|d: int, i: int, t: i64|
                        0 <= d < e + 1 && #[trigger] self.entry_has(d, i, t) implies earliest <= t
                        <= latest by {}
                }
            }
            e = e + 1;
        }
        proof {
            assert forall|t: i64| #[trigger] self.has_timestamp(t) implies range is Some by {
                self.lemma_has_timestamp(t);
            }
            if let Some((earliest, latest)) = range {
                self.lemma_has_timestamp(earliest);
                self.lemma_has_timestamp(latest);
                assert forall|t: i64| #[trigger] self.has_timestamp(t) implies earliest <= t
                    <= latest by {
                    self.lemma_has_timestamp(t);
                }
            }
        }
        range
    }
}

} // verus!
