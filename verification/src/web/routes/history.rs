//! The `history` and `candles` queries.

use crate::storage::candles::{Candle, CandleStore};
use crate::storage::series::{newest_first, within};
use crate::storage::trading_engine::TradingEngine;
use vstd::prelude::*;

verus! {

/// The resolution asked for where a request names none.
pub open spec fn default_resolution() -> Seq<char> {
    "60"@
}

/// The interval in seconds that a UDF resolution string stands for.
pub open spec fn resolution_interval(resolution: Seq<char>) -> Option<u64> {
    if resolution == "1"@ {
        Some(60u64)
    } else if resolution == "3"@ {
        Some(180u64)
    } else if resolution == "5"@ {
        Some(300u64)
    } else if resolution == "15"@ {
        Some(900u64)
    } else if resolution == "30"@ {
        Some(1_800u64)
    } else if resolution == "60"@ {
        Some(3_600u64)
    } else if resolution == "1D"@ || resolution == "D"@ {
        Some(86_400u64)
    } else if resolution == "1W"@ || resolution == "W"@ {
        Some(604_800u64)
    } else if resolution == "1M"@ || resolution == "M"@ {
        Some(2_592_000u64)
    } else {
        None
    }
}

/// Whether `text` reads `literal`.
fn reads(text: &String, literal: &str) -> (same: bool)
    ensures
        same == (text@ == literal@),
{
    *text == literal.to_owned()
}

/// The interval in seconds of a UDF resolution string, or `None` for a
/// string that names no supported resolution.
pub fn resolution_to_interval(resolution: &str) -> (interval: Option<u64>)
    ensures
        interval == resolution_interval(resolution@),
{
    let text: String = resolution.to_owned();
    if reads(&text, "1") {
        Some(60)
    } else if reads(&text, "3") {
        Some(180)
    } else if reads(&text, "5") {
        Some(300)
    } else if reads(&text, "15") {
        Some(900)
    } else if reads(&text, "30") {
        Some(1_800)
    } else if reads(&text, "60") {
        Some(3_600)
    } else if reads(&text, "1D") || reads(&text, "D") {
        Some(86_400)
    } else if reads(&text, "1W") || reads(&text, "W") {
        Some(604_800)
    } else if reads(&text, "1M") || reads(&text, "M") {
        Some(2_592_000)
    } else {
        None
    }
}

/// The UDF history payload: a status and one column per candle field.
/// Prices and volumes are in raw integer units; the display divisor is
/// applied by whoever renders them.
#[derive(Debug)]
pub struct AdvancedChartResponse {
    /// `"ok"`, `"no_data"` or `"error"`.
    pub s: String,
    pub t: Vec<i64>,
    pub o: Vec<u128>,
    pub h: Vec<u128>,
    pub l: Vec<u128>,
    pub c: Vec<u128>,
    pub v: Vec<u128>,
}

/// The newest `countback` candles of `found`, or all of them where no
/// count is given or `found` has no more.
pub open spec fn counted_back(found: Seq<Candle>, countback: Option<usize>) -> Seq<Candle> {
    match countback {
        Some(count) if found.len() > count => found.subrange(
            found.len() - count,
            found.len() as int,
        ),
        _ => found,
    }
}

/// The bars that a history request is answered with: the candles of the
/// symbol at the resolution's interval that start within `from ..= to`,
/// the newest `countback` of them where a count is given. `None` where the
/// resolution is not supported or the symbol is not known.
pub open spec fn history_bars(
    engine: TradingEngine,
    symbol: Seq<char>,
    resolution: Seq<char>,
    from: i64,
    to: i64,
    countback: Option<usize>,
) -> Option<Seq<Candle>> {
    match (resolution_interval(resolution), engine.store(symbol)) {
        (Some(interval), Some(store)) => Some(
            counted_back(within(store.series(symbol, interval), from, to), countback),
        ),
        _ => None,
    }
}

impl AdvancedChartResponse {
    /// Whether the reply has the given status and, column by column, the
    /// fields of `bars`.
    pub open spec fn carries(self, status: Seq<char>, bars: Seq<Candle>) -> bool {
        &&& self.s@ == status
        &&& self.t@ == Seq::new(bars.len(), |i: int| bars[i].timestamp)
        &&& self.o@ == Seq::new(bars.len(), |i: int| bars[i].open)
        &&& self.h@ == Seq::new(bars.len(), |i: int| bars[i].high)
        &&& self.l@ == Seq::new(bars.len(), |i: int| bars[i].low)
        &&& self.c@ == Seq::new(bars.len(), |i: int| bars[i].close)
        &&& self.v@ == Seq::new(bars.len(), |i: int| bars[i].volume)
    }

    /// A reply without bars.
    fn empty(status: &str) -> (reply: Self)
        ensures
            reply.carries(status@, Seq::empty()),
    {
        let reply = AdvancedChartResponse {
            s: status.to_owned(),
            t: Vec::new(),
            o: Vec::new(),
            h: Vec::new(),
            l: Vec::new(),
            c: Vec::new(),
            v: Vec::new(),
        };
        assert(reply.t@ =~= Seq::new(0, |i: int| Seq::<Candle>::empty()[i].timestamp));
        assert(reply.o@ =~= Seq::new(0, |i: int| Seq::<Candle>::empty()[i].open));
        assert(reply.h@ =~= Seq::new(0, |i: int| Seq::<Candle>::empty()[i].high));
        assert(reply.l@ =~= Seq::new(0, |i: int| Seq::<Candle>::empty()[i].low));
        assert(reply.c@ =~= Seq::new(0, |i: int| Seq::<Candle>::empty()[i].close));
        assert(reply.v@ =~= Seq::new(0, |i: int| Seq::<Candle>::empty()[i].volume));
        reply
    }

    /// The reply that carries `bars` with status `"ok"`.
    fn of_bars(bars: &Vec<Candle>) -> (reply: Self)
        ensures
            reply.carries("ok"@, bars@),
    {
        let mut t: Vec<i64> = Vec::new();
        let mut o: Vec<u128> = Vec::new();
        let mut h: Vec<u128> = Vec::new();
        let mut l: Vec<u128> = Vec::new();
        let mut c: Vec<u128> = Vec::new();
        let mut v: Vec<u128> = Vec::new();
        let mut i: usize = 0;
        while i < bars.len()
            invariant
                i <= bars.len(),
                t@ == Seq::new(i as nat, |k: int| bars[k].timestamp),
                o@ == Seq::new(i as nat, |k: int| bars[k].open),
                h@ == Seq::new(i as nat, |k: int| bars[k].high),
                l@ == Seq::new(i as nat, |k: int| bars[k].low),
                c@ == Seq::new(i as nat, |k: int| bars[k].close),
                v@ == Seq::new(i as nat, |k: int| bars[k].volume),
            decreases bars.len() - i,
        {
            let bar: Candle = bars[i];
            t.push(bar.timestamp);
            o.push(bar.open);
            h.push(bar.high);
            l.push(bar.low);
            c.push(bar.close);
            v.push(bar.volume);
            i = i + 1;
            assert(t@ =~= Seq::new(i as nat, |k: int| bars[k].timestamp));
            assert(o@ =~= Seq::new(i as nat, |k: int| bars[k].open));
            assert(h@ =~= Seq::new(i as nat, |k: int| bars[k].high));
            assert(l@ =~= Seq::new(i as nat, |k: int| bars[k].low));
            assert(c@ =~= Seq::new(i as nat, |k: int| bars[k].close));
            assert(v@ =~= Seq::new(i as nat, |k: int| bars[k].volume));
        }
        AdvancedChartResponse { s: "ok".to_owned(), t, o, h, l, c, v }
    }
}

/// Answers a UDF history request.
///
/// The resolution defaults to `"60"`, `from` to 0 and `to` to `now`. An
/// unsupported resolution or an unknown symbol gives `"error"`, a range
/// without candles `"no_data"`; both come with empty columns. Otherwise
/// the status is `"ok"` and the columns hold the candles of the range,
/// oldest first, cut down to the newest `countback` where that is given.
pub fn get_history(
    symbol: &str,
    resolution: Option<&str>,
    from: Option<i64>,
    to: Option<i64>,
    countback: Option<usize>,
    trading_engine: &TradingEngine,
    now: i64,
) -> (reply: AdvancedChartResponse)
    requires
        trading_engine.inv(),
    ensures
        ({
            let resolution = match resolution {
                Some(text) => text@,
                None => default_resolution(),
            };
            let from = from.unwrap_or(0);
            let to = to.unwrap_or(now);
            match history_bars(*trading_engine, symbol@, resolution, from, to, countback) {
                None => reply.carries("error"@, Seq::empty()),
                Some(bars) => if bars.len() == 0 {
                    reply.carries("no_data"@, Seq::empty())
                } else {
                    reply.carries("ok"@, bars)
                },
            }
        }),
{
    let resolution: &str = match resolution {
        Some(text) => text,
        None => "60",
    };
    let from: i64 = match from {
        Some(from) => from,
        None => 0,
    };
    let to: i64 = match to {
        Some(to) => to,
        None => now,
    };
    let interval: u64 = match resolution_to_interval(resolution) {
        Some(interval) => interval,
        None => { return AdvancedChartResponse::empty("error"); },
    };
    let store: &CandleStore = match trading_engine.get_store(symbol) {
        Some(store) => store,
        None => { return AdvancedChartResponse::empty("error"); },
    };
    let mut candles: Vec<Candle> = store.get_candles_in_time_range(symbol, interval, from, to);
    if let Some(count) = countback {
        if candles.len() > count {
            let newest = candles.split_off(candles.len() - count);
            candles = newest;
        }
    }
    if candles.len() == 0 {
        return AdvancedChartResponse::empty("no_data");
    }
    AdvancedChartResponse::of_bars(&candles)
}

/// The candles of `symbol` at `interval` that start within `from ..= to`,
/// as a history payload: `"no_data"` with empty columns where there is
/// none, `"ok"` with the candles oldest first otherwise.
pub fn get_candles(
    candle_store: &CandleStore,
    symbol: &str,
    interval: u64,
    from: i64,
    to: i64,
) -> (reply: AdvancedChartResponse)
    requires
        candle_store.inv(),
    ensures
        ({
            let bars = within(candle_store.series(symbol@, interval), from, to);
            if bars.len() == 0 {
                reply.carries("no_data"@, Seq::empty())
            } else {
                reply.carries("ok"@, bars)
            }
        }),
{
    let candles: Vec<Candle> = candle_store.get_candles_in_time_range(symbol, interval, from, to);
    if candles.len() == 0 {
        AdvancedChartResponse::empty("no_data")
    } else {
        AdvancedChartResponse::of_bars(&candles)
    }
}

/// The answer to a `candles` request.
#[derive(Debug)]
pub enum CandlesReply {
    /// The symbol is not known.
    NotFound,
    /// The symbol is known; the series holds no candle.
    NoData,
    /// Every candle of the series, newest first.
    Found(Vec<Candle>),
}

/// Answers a `candles` request with every candle of `symbol` at
/// `interval`, newest first.
pub fn get_all_candles(symbol: &str, interval: u64, trading_engine: &TradingEngine) -> (reply:
    CandlesReply)
    requires
        trading_engine.inv(),
    ensures
        match trading_engine.store(symbol@) {
            None => reply is NotFound,
            Some(store) => {
                let all = newest_first(store.series(symbol@, interval), usize::MAX as nat);
                if all.len() == 0 {
                    reply is NoData
                } else {
                    reply matches CandlesReply::Found(candles) && candles@ == all
                }
            },
        },
{
    match trading_engine.get_store(symbol) {
        None => CandlesReply::NotFound,
        Some(store) => {
            let candles: Vec<Candle> = store.get_candles(symbol, interval, usize::MAX);
            if candles.len() == 0 {
                CandlesReply::NoData
            } else {
                CandlesReply::Found(candles)
            }
        },
    }
}

} // verus!
