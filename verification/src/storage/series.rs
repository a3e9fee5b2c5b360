//! One candle series: the sequence of candles of one symbol at one interval,
//! what keeps it well formed, and how a trade is folded into it.

use crate::calendar::{valid_timestamp, MAX_TIMESTAMP, MIN_TIMESTAMP};
use crate::storage::candles::{saturating_sum, Candle, CandleStore, FoldOutcome};
use crate::storage::period::{
    aligned, bucket_anchor, lemma_aligned_shift, lemma_period_start_bounds,
    lemma_period_start_idempotent, lemma_period_start_monotone, period_start,
    supported_interval, MAX_INTERVAL,
};
use vstd::arithmetic::div_mod::{lemma_fundamental_div_mod, lemma_fundamental_div_mod_converse};
use vstd::prelude::*;

verus! {

/// Whether `candle` can stand in a series of width `interval`: its prices are
/// ordered and its timestamp is a bucket start within the calendar.
pub open spec fn candle_fits(candle: Candle, interval: u64) -> bool {
    &&& candle.ordered()
    &&& aligned(candle.timestamp as int, interval)
    &&& MIN_TIMESTAMP - MAX_INTERVAL < candle.timestamp <= MAX_TIMESTAMP
}

/// The invariant of a series of width `interval` that retains at most
/// `max_candles` candles: every candle fits, each bucket starts exactly one
/// interval after the one before it, and the length is within the bound.
pub open spec fn series_wf(s: Seq<Candle>, interval: u64, max_candles: nat) -> bool {
    &&& s.len() <= max_candles
    &&& forall|i: int| 0 <= i < s.len() ==> candle_fits(#[trigger] s[i], interval)
    &&& forall|i: int|
        0 < i < s.len() ==> (#[trigger] s[i]).timestamp == s[i - 1].timestamp + interval
}

/// How many buckets lie strictly between a bucket at `last` and a later one
/// at `start`: the number of whole intervals that can be added to `last`
/// before `start` is met or passed.
pub open spec fn gap_len(last: int, start: int, interval: u64) -> nat {
    if start > last {
        ((start - last - 1) / (interval as int)) as nat
    } else {
        0
    }
}

/// The flat candles that fill the buckets between `last` and a bucket at
/// `start`, oldest first. Each carries the close of `last` forward with no
/// volume.
pub open spec fn gap_fill(last: Candle, start: int, interval: u64) -> Seq<Candle> {
    Seq::new(
        gap_len(last.timestamp as int, start, interval),
        |k: int| Candle::carried(last.close, (last.timestamp + (k + 1) * interval) as i64),
    )
}

/// The newest `max_candles` candles of `s`, in order.
pub open spec fn keep_last(s: Seq<Candle>, max_candles: nat) -> Seq<Candle> {
    if s.len() <= max_candles {
        s
    } else {
        s.subrange(s.len() - max_candles, s.len() as int)
    }
}

/// What a series is after a trade at `event_time` with the given price and
/// volume:
/// - merged into the newest candle, if the trade falls into its bucket;
/// - unchanged, if the trade falls before the newest bucket;
/// - otherwise extended by the gap candles and the candle the trade opens,
///   then cut down to its newest `max_candles` candles.
pub open spec fn fold_trade(
    s: Seq<Candle>,
    interval: u64,
    max_candles: nat,
    price: u128,
    volume: u128,
    event_time: i64,
) -> Seq<Candle> {
    let start = period_start(event_time as int, interval);
    let fresh = Candle::opening(start as i64, price, volume);
    if s.len() == 0 {
        keep_last(seq![fresh], max_candles)
    } else if s.last().timestamp == start {
        s.update(s.len() - 1, s.last().absorbing(price, volume))
    } else if s.last().timestamp > start {
        s
    } else {
        keep_last((s + gap_fill(s.last(), start, interval)).push(fresh), max_candles)
    }
}

/// Which of the three things [`fold_trade`] does to `s`.
pub open spec fn fold_outcome(s: Seq<Candle>, interval: u64, event_time: i64) -> FoldOutcome {
    let start = period_start(event_time as int, interval);
    if s.len() == 0 {
        FoldOutcome::Appended
    } else if s.last().timestamp == start {
        FoldOutcome::Merged
    } else if s.last().timestamp > start {
        FoldOutcome::OutOfOrder
    } else {
        FoldOutcome::Appended
    }
}

/// The newest `count` candles of `s`, newest first; all of them where `s`
/// has fewer.
pub open spec fn newest_first(s: Seq<Candle>, count: nat) -> Seq<Candle> {
    Seq::new(
        if count < s.len() {
            count
        } else {
            s.len()
        },
        |k: int| s[s.len() - 1 - k],
    )
}

/// The candles of `s` whose bucket starts within `from ..= to`, in the
/// order of `s`.
pub open spec fn within(s: Seq<Candle>, from: i64, to: i64) -> Seq<Candle> {
    s.filter(|c: Candle| from <= c.timestamp <= to)
}

/// Between two bucket starts lies a whole number of intervals: one more than
/// the number of buckets in the gap.
pub proof fn lemma_gap_spans(last: int, start: int, interval: u64)
    requires
        interval > 0,
        aligned(last, interval),
        aligned(start, interval),
        last < start,
    ensures
        start == last + (gap_len(last, start, interval) + 1) * interval,
{
    let i = interval as int;
    let d = start - last;
    let a = bucket_anchor(interval);
    // both offsets from the anchor are multiples of the interval
    lemma_fundamental_div_mod(last - a, i);
    lemma_fundamental_div_mod(start - a, i);
    let ql = (last - a) / i;
    let qs = (start - a) / i;
    assert(d == i * qs - i * ql);
    assert(i * qs - i * ql == i * (qs - ql)) by (nonlinear_arith);
    let q = qs - ql;
    assert(q >= 1) by (nonlinear_arith)
        requires
            d == i * q,
            d > 0,
            i > 0,
    ;
    // d - 1 == i * (q - 1) + (i - 1)
    assert(d - 1 == i * (q - 1) + (i - 1)) by (nonlinear_arith)
        requires
            d == i * q,
    ;
    lemma_fundamental_div_mod_converse(d - 1, i, q - 1, i - 1);
    assert((q - 1 + 1) * i == d) by (nonlinear_arith)
        requires
            d == i * q,
    ;
}

/// The `k`-th gap candle stands `k + 1` intervals after `last`, before
/// `start`.
pub proof fn lemma_gap_step(last: int, start: int, interval: u64, k: int)
    requires
        interval > 0,
        last < start,
        0 <= k < gap_len(last, start, interval),
    ensures
        last < last + (k + 1) * interval < start,
        last + (k + 1) * interval == last + k * interval + interval,
{
    let i = interval as int;
    let g = gap_len(last, start, interval) as int;
    lemma_fundamental_div_mod(start - last - 1, i);
    assert(i * g <= start - last - 1);
    assert((k + 1) * i <= i * g) by (nonlinear_arith)
        requires
            k + 1 <= g,
            i > 0,
    ;
    assert((k + 1) * i > 0) by (nonlinear_arith)
        requires
            k >= 0,
            i > 0,
    ;
    assert((k + 1) * i == k * i + i) by (nonlinear_arith);
}

/// A series that is extended by its gap candles and a fresh candle at a
/// later bucket start is a well-formed series again, whatever its length.
proof fn lemma_extended_wf(s: Seq<Candle>, interval: u64, fresh: Candle)
    requires
        interval > 0,
        s.len() > 0,
        series_wf(s, interval, s.len()),
        candle_fits(fresh, interval),
        s.last().timestamp < fresh.timestamp,
    ensures
        ({
            let e = (s + gap_fill(s.last(), fresh.timestamp as int, interval)).push(fresh);
            series_wf(e, interval, e.len())
        }),
{
    let last = s.last();
    let start = fresh.timestamp as int;
    let g = gap_fill(last, start, interval);
    let e = (s + g).push(fresh);
    let n = s.len() as int;
    lemma_gap_spans(last.timestamp as int, start, interval);
    assert forall|i: int| 0 <= i < e.len() implies candle_fits(#[trigger] e[i], interval) by {
        if n <= i < n + g.len() {
            let k = i - n;
            lemma_gap_step(last.timestamp as int, start, interval, k);
            lemma_aligned_shift(last.timestamp as int, interval, k + 1);
        }
    }
    assert forall|i: int| 0 < i < e.len() implies (#[trigger] e[i]).timestamp == e[i
        - 1].timestamp + interval by {
        if i < n {
            assert(e[i] == s[i]);
            assert(e[i - 1] == s[i - 1]);
        } else if i < n + g.len() {
            let k = i - n;
            assert(e[i] == g[k]);
            lemma_gap_step(last.timestamp as int, start, interval, k);
            if k > 0 {
                assert(e[i - 1] == g[k - 1]);
                lemma_gap_step(last.timestamp as int, start, interval, k - 1);
            } else {
                assert(e[i - 1] == s[n - 1]);
                assert(k * interval == 0) by (nonlinear_arith)
                    requires
                        k == 0,
                ;
            }
        } else {
            let count = g.len() as int;
            assert(e[i] == fresh);
            assert((count + 1) * interval == count * interval + interval) by (nonlinear_arith);
            if count > 0 {
                assert(e[i - 1] == g[count - 1]);
                lemma_gap_step(last.timestamp as int, start, interval, count - 1);
            } else {
                assert(e[i - 1] == s[n - 1]);
                assert(count * interval == 0) by (nonlinear_arith)
                    requires
                        count == 0,
                ;
            }
        }
    }
}

/// Any run of consecutive candles of a well-formed series is well formed.
proof fn lemma_subrange_wf(s: Seq<Candle>, interval: u64, from: int, to: int)
    requires
        series_wf(s, interval, s.len()),
        0 <= from <= to <= s.len(),
    ensures
        series_wf(s.subrange(from, to), interval, (to - from) as nat),
{
    let r = s.subrange(from, to);
    assert forall|i: int| 0 <= i < r.len() implies candle_fits(#[trigger] r[i], interval) by {
        assert(r[i] == s[from + i]);
    }
    assert forall|i: int| 0 < i < r.len() implies (#[trigger] r[i]).timestamp == r[i
        - 1].timestamp + interval by {
        assert(r[i] == s[from + i]);
        assert(r[i - 1] == s[from + i - 1]);
    }
}

/// Folding a trade keeps a series well formed: candles stay ordered and
/// aligned, buckets stay one interval apart, the length stays within the
/// bound.
pub proof fn lemma_fold_keeps_wf(
    s: Seq<Candle>,
    interval: u64,
    max_candles: nat,
    price: u128,
    volume: u128,
    event_time: i64,
)
    requires
        supported_interval(interval),
        valid_timestamp(event_time),
        series_wf(s, interval, max_candles),
    ensures
        series_wf(
            fold_trade(s, interval, max_candles, price, volume, event_time),
            interval,
            max_candles,
        ),
{
    let start = period_start(event_time as int, interval);
    lemma_period_start_bounds(event_time as int, interval);
    lemma_period_start_idempotent(event_time as int, interval);
    let fresh = Candle::opening(start as i64, price, volume);
    assert(candle_fits(fresh, interval));
    let r = fold_trade(s, interval, max_candles, price, volume, event_time);
    if s.len() == 0 {
        let one = seq![fresh];
        assert(series_wf(one, interval, 1));
        if max_candles == 0 {
            lemma_subrange_wf(one, interval, 1, 1);
        }
    } else if s.last().timestamp == start {
        assert forall|i: int| 0 <= i < r.len() implies candle_fits(#[trigger] r[i], interval) by {
            if i < s.len() - 1 {
                assert(r[i] == s[i]);
            } else {
                assert(candle_fits(s[i], interval));
            }
        }
        assert forall|i: int| 0 < i < r.len() implies (#[trigger] r[i]).timestamp == r[i
            - 1].timestamp + interval by {
            assert(r[i].timestamp == s[i].timestamp);
            assert(r[i - 1].timestamp == s[i - 1].timestamp);
        }
    } else if s.last().timestamp > start {
    } else {
        lemma_extended_wf(s, interval, fresh);
        let e = (s + gap_fill(s.last(), start, interval)).push(fresh);
        if e.len() > max_candles {
            lemma_subrange_wf(e, interval, e.len() - max_candles, e.len() as int);
        }
    }
}

/// Trades that arrive in the order of their times are never refused: once
/// a series has taken a trade, it takes every trade that is not earlier.
pub proof fn lemma_in_order_is_accepted(
    s: Seq<Candle>,
    interval: u64,
    max_candles: nat,
    price: u128,
    volume: u128,
    event_time: i64,
    later: i64,
)
    requires
        supported_interval(interval),
        max_candles >= 1,
        valid_timestamp(event_time),
        fold_outcome(s, interval, event_time) != FoldOutcome::OutOfOrder,
        event_time <= later,
    ensures
        fold_outcome(
            fold_trade(s, interval, max_candles, price, volume, event_time),
            interval,
            later,
        ) != FoldOutcome::OutOfOrder,
{
    let start = period_start(event_time as int, interval);
    let after = fold_trade(s, interval, max_candles, price, volume, event_time);
    lemma_period_start_bounds(event_time as int, interval);
    lemma_period_start_monotone(event_time as int, later as int, interval);
    // the newest candle after the fold is the one the trade fell into
    assert(after.len() > 0 && after.last().timestamp == start) by {
        let fresh = Candle::opening(start as i64, price, volume);
        if s.len() == 0 {
            assert(seq![fresh].last() == fresh);
        } else if s.last().timestamp < start {
            let extended = (s + gap_fill(s.last(), start, interval)).push(fresh);
            assert(extended.last() == fresh);
            assert(keep_last(extended, max_candles).last() == fresh);
        }
    }
}

/// Two trades of one bucket, folded in order into an empty series, make one
/// candle: it opens at the first price and closes at the second, its high
/// and low are the larger and the smaller of the two, and its volume is the
/// sum of the two amounts (held at `u128::MAX` where the sum would pass it).
/// Swapping the trades changes the open and the close and nothing else.
pub proof fn lemma_two_trades_one_bucket(
    interval: u64,
    max_candles: nat,
    first_price: u128,
    first_amount: u128,
    first_time: i64,
    second_price: u128,
    second_amount: u128,
    second_time: i64,
)
    requires
        supported_interval(interval),
        max_candles >= 1,
        valid_timestamp(first_time),
        valid_timestamp(second_time),
        period_start(first_time as int, interval) == period_start(second_time as int, interval),
    ensures
        ({
            let once = fold_trade(
                Seq::empty(),
                interval,
                max_candles,
                first_price,
                first_amount,
                first_time,
            );
            let twice = fold_trade(
                once,
                interval,
                max_candles,
                second_price,
                second_amount,
                second_time,
            );
            &&& twice.len() == 1
            &&& twice[0].timestamp == period_start(first_time as int, interval)
            &&& twice[0].open == first_price
            &&& twice[0].close == second_price
            &&& twice[0].high == if first_price >= second_price {
                first_price
            } else {
                second_price
            }
            &&& twice[0].low == if first_price <= second_price {
                first_price
            } else {
                second_price
            }
            &&& twice[0].volume == saturating_sum(first_amount, second_amount)
            &&& first_amount + second_amount <= u128::MAX ==> twice[0].volume == first_amount
                + second_amount
        }),
{
    lemma_period_start_bounds(first_time as int, interval);
    let start = period_start(first_time as int, interval);
    let fresh = Candle::opening(start as i64, first_price, first_amount);
    let once = fold_trade(
        Seq::empty(),
        interval,
        max_candles,
        first_price,
        first_amount,
        first_time,
    );
    assert(once =~= seq![fresh]);
    assert(once.last() == fresh);
}

/// After a trade has opened a bucket beyond the newest one, every candle
/// that was inserted between the two is flat at the close of the candle
/// before it, which is the close of the formerly newest candle, and has no
/// volume.
pub proof fn lemma_gap_carries_close(
    s: Seq<Candle>,
    interval: u64,
    max_candles: nat,
    price: u128,
    volume: u128,
    event_time: i64,
)
    requires
        supported_interval(interval),
        valid_timestamp(event_time),
        series_wf(s, interval, max_candles),
        s.len() > 0,
        s.last().timestamp < period_start(event_time as int, interval),
    ensures
        ({
            let after = fold_trade(s, interval, max_candles, price, volume, event_time);
            forall|i: int|
                0 <= i < after.len() - 1 && s.last().timestamp < (#[trigger] after[i]).timestamp
                    ==> {
                    &&& after[i].open == s.last().close
                    &&& after[i].high == s.last().close
                    &&& after[i].low == s.last().close
                    &&& after[i].close == s.last().close
                    &&& after[i].volume == 0
                    &&& i > 0 ==> after[i - 1].close == s.last().close
                }
        }),
{
    let start = period_start(event_time as int, interval);
    lemma_period_start_bounds(event_time as int, interval);
    lemma_period_start_idempotent(event_time as int, interval);
    let fresh = Candle::opening(start as i64, price, volume);
    let last = s.last();
    let gap = gap_fill(last, start, interval);
    let extended = (s + gap).push(fresh);
    let after = fold_trade(s, interval, max_candles, price, volume, event_time);
    let n = s.len() as int;
    let cut = extended.len() - after.len();
    lemma_extended_wf(s, interval, fresh);
    assert forall|i: int|
        0 <= i < after.len() - 1 && last.timestamp < (#[trigger] after[i]).timestamp implies {
        &&& after[i] == Candle::carried(last.close, after[i].timestamp)
        &&& i > 0 ==> after[i - 1].close == last.close
    } by {
        let at = cut + i;
        assert(after[i] == extended[at]);
        assert(extended[n - 1] == last);
        if at < n - 1 {
            lemma_series_increasing(extended, interval, extended.len(), at, n - 1);
        }
        assert(n <= at < n + gap.len());
        assert(extended[at] == gap[at - n]);
        if i > 0 {
            assert(after[i - 1] == extended[at - 1]);
            if at - 1 >= n {
                assert(extended[at - 1] == gap[at - 1 - n]);
            }
        }
    }
}

/// The candles of a well-formed series stand in the order of their buckets:
/// a later candle has a later timestamp.
pub proof fn lemma_series_increasing(
    s: Seq<Candle>,
    interval: u64,
    max_candles: nat,
    i: int,
    j: int,
)
    requires
        interval > 0,
        series_wf(s, interval, max_candles),
        0 <= i < j < s.len(),
    ensures
        s[i].timestamp < s[j].timestamp,
    decreases j - i,
{
    if i + 1 < j {
        lemma_series_increasing(s, interval, max_candles, i, j - 1);
    }
    assert(s[j].timestamp == s[j - 1].timestamp + interval);
}

/// The candles of a well-formed series that start within a range stand
/// in bucket order, none twice, and none starts after the newest candle of
/// the series.
pub proof fn lemma_within_increasing(
    s: Seq<Candle>,
    interval: u64,
    max_candles: nat,
    from: i64,
    to: i64,
)
    requires
        interval > 0,
        series_wf(s, interval, max_candles),
    ensures
        forall|i: int, j: int|
            0 <= i < j < within(s, from, to).len() ==> (#[trigger] within(s, from, to)[i]).timestamp
                < (#[trigger] within(s, from, to)[j]).timestamp,
        forall|i: int|
            0 <= i < within(s, from, to).len() ==> (#[trigger] within(s, from, to)[i]).timestamp
                <= s.last().timestamp,
    decreases s.len(),
{
    reveal(Seq::filter);
    if s.len() > 0 {
        let rest = s.drop_last();
        assert(rest =~= s.subrange(0, s.len() - 1));
        lemma_subrange_wf(s, interval, 0, s.len() - 1);
        lemma_within_increasing(rest, interval, (s.len() - 1) as nat, from, to);
        let kept = within(rest, from, to);
        if rest.len() > 0 {
            assert(rest.last() == s[s.len() - 2]);
            assert(s[s.len() - 1].timestamp == s[s.len() - 2].timestamp + interval);
        } else {
            assert(kept.len() == 0);
        }
        assert forall|i: int| 0 <= i < kept.len() implies (#[trigger] kept[i]).timestamp
            < s.last().timestamp by {}
    }
}

/// The newest `count` candles of `series`, newest first.
pub fn last_candles(series: &Vec<Candle>, count: usize) -> (out: Vec<Candle>)
    ensures
        out@ == newest_first(series@, count as nat),
{
    let n: usize = series.len();
    let take: usize = if count < n {
        count
    } else {
        n
    };
    let mut out: Vec<Candle> = Vec::new();
    let mut k: usize = 0;
    while k < take
        invariant
            n == series.len(),
            k <= take <= n,
            out.len() == k,
            forall|j: int| 0 <= j < k ==> out[j] == series[n - 1 - j],
        decreases take - k,
    {
        out.push(series[n - 1 - k]);
        k = k + 1;
    }
    assert(out@ =~= newest_first(series@, count as nat));
    out
}

/// The candles of `series` whose bucket starts within `from ..= to`, oldest
/// first.
pub fn candles_within(series: &Vec<Candle>, from: i64, to: i64) -> (out: Vec<Candle>)
    ensures
        out@ == within(series@, from, to),
{
    let ghost wanted = |c: Candle| from <= c.timestamp <= to;
    let mut out: Vec<Candle> = Vec::new();
    let mut i: usize = 0;
    proof {
        reveal(Seq::filter);
        assert(series@.take(0) =~= Seq::<Candle>::empty());
    }
    while i < series.len()
        invariant
            i <= series.len(),
            wanted == (|c: Candle| from <= c.timestamp <= to),
            out@ == series@.take(i as int).filter(wanted),
        decreases series.len() - i,
    {
        let candle: Candle = series[i];
        proof {
            reveal(Seq::filter);
            assert(series@.take(i + 1).drop_last() =~= series@.take(i as int));
            assert(series@.take(i + 1).last() == candle);
        }
        if from <= candle.timestamp && candle.timestamp <= to {
            out.push(candle);
        }
        i = i + 1;
    }
    assert(series@.take(i as int) =~= series@);
    out
}

/// Folds one trade into `series`, the candles of one symbol at `interval`.
///
/// A trade in the newest bucket is merged into its candle. A trade in a
/// later bucket first fills the buckets between with flat candles at the
/// last close, then opens its own candle; the oldest candles beyond
/// `max_candles` are dropped. A trade before the newest bucket is refused
/// and leaves the series as it was.
pub fn fold_into(
    series: &mut Vec<Candle>,
    interval: u64,
    max_candles: usize,
    price: u128,
    volume: u128,
    event_time: i64,
) -> (outcome: FoldOutcome)
    requires
        supported_interval(interval),
        valid_timestamp(event_time),
        max_candles >= 1,
        series_wf(old(series)@, interval, max_candles as nat),
    ensures
        final(series)@ == fold_trade(
            old(series)@,
            interval,
            max_candles as nat,
            price,
            volume,
            event_time,
        ),
        outcome == fold_outcome(old(series)@, interval, event_time),
        series_wf(final(series)@, interval, max_candles as nat),
{
    proof {
        lemma_fold_keeps_wf(series@, interval, max_candles as nat, price, volume, event_time);
    }
    let start: i64 = CandleStore::get_period_start(event_time, interval);
    let fresh = Candle::new(start, price, volume);
    let n: usize = series.len();
    if n == 0 {
        series.push(fresh);
        assert(series@ =~= seq![fresh]);
        return FoldOutcome::Appended;
    }
    let last: Candle = series[n - 1];
    if last.timestamp == start {
        let mut merged = last;
        merged.merge(price, volume);
        series[n - 1] = merged;
        assert(series@ =~= old(series)@.update(n - 1, merged));
        return FoldOutcome::Merged;
    }
    if last.timestamp > start {
        return FoldOutcome::OutOfOrder;
    }
    let ghost before = series@;
    let ghost gap = gap_fill(last, start as int, interval);
    let ghost extended = (before + gap).push(fresh);
    let step: i64 = interval as i64;
    let gaps: u64 = ((start - last.timestamp - 1) / step) as u64;
    assert(gaps == gap.len());
    // how many of the oldest candles of the extended series have to go
    let total: u128 = n as u128 + gaps as u128 + 1;
    let surplus: u128 = if total > max_candles as u128 {
        total - max_candles as u128
    } else {
        0
    };
    let first_gap: u64 = if surplus >= n as u128 {
        series.clear();
        (surplus - n as u128) as u64
    } else {
        let kept = series.split_off(surplus as usize);
        *series = kept;
        0
    };
    let ghost kept_old = series@;
    let mut k: u64 = first_gap;
    while k < gaps
        invariant
            interval > 0,
            step == interval,
            first_gap <= k <= gaps,
            gaps == gap.len(),
            gap == gap_fill(last, start as int, interval),
            last.timestamp < start,
            MIN_TIMESTAMP - MAX_INTERVAL < last.timestamp,
            start <= MAX_TIMESTAMP,
            series@ == kept_old + gap.subrange(first_gap as int, k as int),
        decreases gaps - k,
    {
        proof {
            lemma_gap_step(last.timestamp as int, start as int, interval, k as int);
            assert((k + 1) * step < start - last.timestamp);
        }
        let offset: i64 = (k as i64 + 1) * step;
        let filler = Candle::flat(last.close, last.timestamp + offset);
        assert(filler == gap[k as int]);
        series.push(filler);
        k = k + 1;
        assert(series@ =~= kept_old + gap.subrange(first_gap as int, k as int));
    }
    series.push(fresh);
    assert(series@ =~= keep_last(extended, max_candles as nat));
    FoldOutcome::Appended
}

} // verus!
