//! Decoding of upstream order events and the fold of a trade into every
//! interval of a symbol.

use crate::calendar::{is_valid_timestamp, valid_timestamp};
use crate::storage::candles::{CandleStore, FoldOutcome};
use crate::storage::period::supported_interval;
use crate::storage::series::{fold_outcome, fold_trade};
use vstd::prelude::*;

verus! {

/// One record of the upstream order stream, as the provider sends it.
#[derive(Debug, Clone)]
pub struct PangeaOrderEvent {
    pub chain: u64,
    pub block_number: i64,
    pub block_hash: String,
    pub block_timestamp: i64,
    pub transaction_hash: String,
    pub transaction_index: u64,
    pub log_index: u64,
    pub market_id: String,
    pub order_id: String,
    pub event_type: Option<String>,
    pub asset: Option<String>,
    pub amount: Option<u128>,
    pub asset_type: Option<String>,
    pub order_type: Option<String>,
    pub price: Option<u128>,
    pub user: Option<String>,
    pub order_matcher: Option<String>,
    pub owner: Option<String>,
    pub limit_type: Option<String>,
}

/// A trade ready to be folded: a record of type `Trade` that carries a price
/// and an amount and whose block time the calendar represents.
#[derive(Debug, Clone)]
pub struct TradeEvent {
    pub chain_id: u64,
    pub block_number: i64,
    pub block_timestamp: i64,
    pub market_id: String,
    pub price: u128,
    pub amount: u128,
    pub transaction_hash: String,
    pub log_index: u64,
}

/// Why a record is not folded.
#[derive(Clone, Copy, Debug, PartialEq, Eq, Structural)]
pub enum SkipReason {
    /// The record names no event type.
    MissingEventType,
    /// The record is of another type than `Trade`.
    NotTrade,
    /// A trade without a price or without an amount.
    IncompleteTrade,
    /// A trade whose block time lies outside the calendar.
    TimestampOutOfRange,
}

/// The nine intervals every trade is folded into, shortest first.
pub open spec fn intervals() -> Seq<u64> {
    seq![60, 180, 300, 900, 1_800, 3_600, 86_400, 604_800, 2_592_000]
}

/// Why `event` is skipped, or `None` if it is a trade to fold.
pub open spec fn skip_reason(event: PangeaOrderEvent) -> Option<SkipReason> {
    if event.event_type is None {
        Some(SkipReason::MissingEventType)
    } else if event.event_type.unwrap()@ != "Trade"@ {
        Some(SkipReason::NotTrade)
    } else if event.price is None || event.amount is None {
        Some(SkipReason::IncompleteTrade)
    } else if !valid_timestamp(event.block_timestamp) {
        Some(SkipReason::TimestampOutOfRange)
    } else {
        None
    }
}

/// Whether `trade` carries what `event` says of the trade.
pub open spec fn trade_of(event: PangeaOrderEvent, trade: TradeEvent) -> bool {
    &&& trade.chain_id == event.chain
    &&& trade.block_number == event.block_number
    &&& trade.block_timestamp == event.block_timestamp
    &&& trade.market_id@ == event.market_id@
    &&& event.price == Some(trade.price)
    &&& event.amount == Some(trade.amount)
    &&& trade.transaction_hash@ == event.transaction_hash@
    &&& trade.log_index == event.log_index
}

/// Turns a record into the trade it reports, or says why it reports none.
pub fn decode_order_event(event: &PangeaOrderEvent) -> (decoded: Result<TradeEvent, SkipReason>)
    ensures
        match decoded {
            Ok(trade) => skip_reason(*event) is None && trade_of(*event, trade)
                && valid_timestamp(trade.block_timestamp),
            Err(reason) => skip_reason(*event) == Some(reason),
        },
{
    let event_type: &String = match &event.event_type {
        Some(name) => name,
        None => { return Err(SkipReason::MissingEventType); },
    };
    let trade_tag: String = "Trade".to_owned();
    if !(*event_type == trade_tag) {
        return Err(SkipReason::NotTrade);
    }
    let (price, amount): (u128, u128) = match (event.price, event.amount) {
        (Some(price), Some(amount)) => (price, amount),
        _ => { return Err(SkipReason::IncompleteTrade); },
    };
    if !is_valid_timestamp(event.block_timestamp) {
        return Err(SkipReason::TimestampOutOfRange);
    }
    Ok(
        TradeEvent {
            chain_id: event.chain,
            block_number: event.block_number,
            block_timestamp: event.block_timestamp,
            market_id: event.market_id.clone(),
            price,
            amount,
            transaction_hash: event.transaction_hash.clone(),
            log_index: event.log_index,
        },
    )
}

/// The nine intervals every trade is folded into, shortest first.
pub fn all_intervals() -> (widths: [u64; 9])
    ensures
        widths@ == intervals(),
{
    let widths: [u64; 9] = [60, 180, 300, 900, 1_800, 3_600, 86_400, 604_800, 2_592_000];
    assert(widths@ =~= intervals());
    widths
}

/// How many of the series of `symbol` at the first `upto` intervals refuse
/// a trade at `event_time` because it falls before their newest bucket.
pub open spec fn refused_among(
    store: CandleStore,
    symbol: Seq<char>,
    event_time: i64,
    upto: nat,
) -> nat
    decreases upto,
{
    if upto == 0 {
        0
    } else {
        let width = intervals()[upto - 1];
        let rest = refused_among(store, symbol, event_time, (upto - 1) as nat);
        if fold_outcome(store.series(symbol, width), width, event_time)
            == FoldOutcome::OutOfOrder {
            rest + 1
        } else {
            rest
        }
    }
}

/// Whether `after` is `before` with one trade folded into the series of
/// `symbol` at every supported interval, and nothing else changed.
pub open spec fn trade_folded(
    before: CandleStore,
    after: CandleStore,
    symbol: Seq<char>,
    price: u128,
    amount: u128,
    event_time: i64,
) -> bool {
    &&& after.inv()
    &&& after.max_candles() == before.max_candles()
    &&& forall|width: u64|
        supported_interval(width) ==> #[trigger] after.series(symbol, width) == fold_trade(
            before.series(symbol, width),
            width,
            before.max_candles(),
            price,
            amount,
            event_time,
        )
    &&& forall|other: Seq<char>, width: u64|
        other != symbol || !supported_interval(width) ==> #[trigger] after.series(other, width)
            == before.series(other, width)
}

/// Folds the trade that `event` reports into the series of `symbol` at each
/// of the nine intervals, and returns how many of them refused it as out of
/// order. An event that reports no trade is skipped with its reason and
/// leaves the store as it was.
pub fn handle_order_event(
    candle_store: &mut CandleStore,
    event: &PangeaOrderEvent,
    symbol: &str,
) -> (handled: Result<usize, SkipReason>)
    requires
        old(candle_store).inv(),
    ensures
        final(candle_store).inv(),
        match handled {
            Ok(refused) => {
                &&& skip_reason(*event) is None
                &&& trade_folded(
                    *old(candle_store),
                    *final(candle_store),
                    symbol@,
                    event.price.unwrap(),
                    event.amount.unwrap(),
                    event.block_timestamp,
                )
                &&& refused == refused_among(
                    *old(candle_store),
                    symbol@,
                    event.block_timestamp,
                    9,
                )
            },
            Err(reason) => {
                &&& skip_reason(*event) == Some(reason)
                &&& *final(candle_store) == *old(candle_store)
            },
        },
{
    let trade = match decode_order_event(event) {
        Ok(trade) => trade,
        Err(reason) => { return Err(reason); },
    };
    let widths = all_intervals();
    let mut refused: usize = 0;
    let mut at: usize = 0;
    while at < 9
        invariant
            at <= 9,
            widths@ == intervals(),
            valid_timestamp(trade.block_timestamp),
            candle_store.inv(),
            candle_store.max_candles() == old(candle_store).max_candles(),
            refused == refused_among(*old(candle_store), symbol@, trade.block_timestamp, at as nat),
            refused <= at,
            forall|j: int|
                0 <= j < at ==> candle_store.series(symbol@, #[trigger] intervals()[j])
                    == fold_trade(
                    old(candle_store).series(symbol@, intervals()[j]),
                    intervals()[j],
                    old(candle_store).max_candles(),
                    trade.price,
                    trade.amount,
                    trade.block_timestamp,
                ),
            forall|j: int|
                at <= j < 9 ==> candle_store.series(symbol@, #[trigger] intervals()[j]) == old(
                    candle_store,
                ).series(symbol@, intervals()[j]),
            forall|other: Seq<char>, width: u64|
                other != symbol@ || !supported_interval(width) ==> #[trigger] candle_store.series(
                    other,
                    width,
                ) == old(candle_store).series(other, width),
        decreases 9 - at,
    {
        let width: u64 = widths[at];
        let ghost earlier = *candle_store;
        assert(width == intervals()[at as int]);
        let outcome = candle_store.add_price(
            symbol,
            width,
            trade.price,
            trade.amount,
            trade.block_timestamp,
        );
        if outcome == FoldOutcome::OutOfOrder {
            refused = refused + 1;
        }
        proof {
            assert forall|j: int| 0 <= j < 9 && j != at implies candle_store.series(
                symbol@,
                #[trigger] intervals()[j],
            ) == earlier.series(symbol@, intervals()[j]) by {
                assert(intervals()[j] != width);
            }
        }
        at = at + 1;
    }
    proof {
        assert forall|width: u64| supported_interval(width) implies #[trigger]
            candle_store.series(symbol@, width) == fold_trade(
            old(candle_store).series(symbol@, width),
            width,
            old(candle_store).max_candles(),
            trade.price,
            trade.amount,
            trade.block_timestamp,
        ) by {
            let j = choose|j: int| 0 <= j < 9 && intervals()[j] == width;
            assert(0 <= j < 9 && intervals()[j] == width) by {
                assert(intervals()[0] == 60 && intervals()[1] == 180 && intervals()[2] == 300
                    && intervals()[3] == 900 && intervals()[4] == 1_800 && intervals()[5]
                    == 3_600 && intervals()[6] == 86_400 && intervals()[7] == 604_800
                    && intervals()[8] == 2_592_000);
            }
        }
    }
    Ok(refused)
}

} // verus!
