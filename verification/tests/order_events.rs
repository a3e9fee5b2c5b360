use spark_candles::calendar::{MAX_TIMESTAMP, MIN_TIMESTAMP};
use spark_candles::indexer::order_event_handler::{
    all_intervals, decode_order_event, handle_order_event, PangeaOrderEvent, SkipReason,
};
use spark_candles::storage::candles::{Candle, CandleStore};

fn record(event_type: Option<&str>, price: Option<u128>, amount: Option<u128>, block: i64, time: i64) -> PangeaOrderEvent {
    PangeaOrderEvent {
        chain: 9889,
        block_number: block,
        block_hash: "0xb10c".to_string(),
        block_timestamp: time,
        transaction_hash: "0x7ac7".to_string(),
        transaction_index: 3,
        log_index: 14,
        market_id: "0x3a4e".to_string(),
        order_id: "0x0d".to_string(),
        event_type: event_type.map(|s| s.to_string()),
        asset: None,
        amount,
        asset_type: None,
        order_type: Some("Buy".to_string()),
        price,
        user: None,
        order_matcher: None,
        owner: None,
        limit_type: None,
    }
}

fn trade(price: u128, amount: u128, block: i64, time: i64) -> PangeaOrderEvent {
    record(Some("Trade"), Some(price), Some(amount), block, time)
}

fn all(store: &CandleStore, symbol: &str, interval: u64) -> Vec<Candle> {
    store.get_candles_in_time_range(symbol, interval, i64::MIN, i64::MAX)
}

#[test]
fn the_nine_intervals() {
    assert_eq!(all_intervals(), [60, 180, 300, 900, 1_800, 3_600, 86_400, 604_800, 2_592_000]);
}

#[test]
fn a_trade_is_decoded_with_its_fields() {
    let decoded = decode_order_event(&trade(100, 5, 77, 1_700_000_000)).unwrap();
    assert_eq!(decoded.chain_id, 9889);
    assert_eq!(decoded.block_number, 77);
    assert_eq!(decoded.block_timestamp, 1_700_000_000);
    assert_eq!(decoded.market_id, "0x3a4e");
    assert_eq!(decoded.price, 100);
    assert_eq!(decoded.amount, 5);
    assert_eq!(decoded.transaction_hash, "0x7ac7");
    assert_eq!(decoded.log_index, 14);
}

#[test]
fn prices_and_amounts_keep_all_128_bits() {
    let decoded = decode_order_event(&trade(u128::MAX, u128::MAX - 1, 1, 0)).unwrap();
    assert_eq!(decoded.price, u128::MAX);
    assert_eq!(decoded.amount, u128::MAX - 1);
}

#[test]
fn records_that_are_no_trades_are_skipped() {
    let skip = |r: PangeaOrderEvent| decode_order_event(&r).unwrap_err();
    assert_eq!(skip(record(None, Some(1), Some(1), 1, 0)), SkipReason::MissingEventType);
    assert_eq!(skip(record(Some("Open"), Some(1), Some(1), 1, 0)), SkipReason::NotTrade);
    assert_eq!(skip(record(Some("trade"), Some(1), Some(1), 1, 0)), SkipReason::NotTrade);
    assert_eq!(skip(record(Some(""), Some(1), Some(1), 1, 0)), SkipReason::NotTrade);
    assert_eq!(skip(record(Some("Trade"), None, Some(1), 1, 0)), SkipReason::IncompleteTrade);
    assert_eq!(skip(record(Some("Trade"), Some(1), None, 1, 0)), SkipReason::IncompleteTrade);
    assert_eq!(skip(record(Some("Trade"), None, None, 1, 0)), SkipReason::IncompleteTrade);
    assert_eq!(skip(trade(1, 1, 1, MAX_TIMESTAMP + 1)), SkipReason::TimestampOutOfRange);
    assert_eq!(skip(trade(1, 1, 1, MIN_TIMESTAMP - 1)), SkipReason::TimestampOutOfRange);
    assert_eq!(skip(trade(1, 1, 1, i64::MAX)), SkipReason::TimestampOutOfRange);
    // the first reason that applies is the one given
    assert_eq!(skip(record(None, None, None, 1, i64::MIN)), SkipReason::MissingEventType);
    assert_eq!(skip(record(Some("Cancel"), None, None, 1, i64::MIN)), SkipReason::NotTrade);
    assert_eq!(skip(record(Some("Trade"), None, Some(2), 1, i64::MIN)), SkipReason::IncompleteTrade);
    assert!(decode_order_event(&trade(0, 0, 1, MAX_TIMESTAMP)).is_ok());
    assert!(decode_order_event(&trade(0, 0, 1, MIN_TIMESTAMP)).is_ok());
}

#[test]
fn a_trade_reaches_all_nine_series() {
    let mut store = CandleStore::new();
    assert_eq!(handle_order_event(&mut store, &trade(100, 5, 1, 1_700_000_000), "ETH"), Ok(0));
    let starts = [
        (60u64, 1_699_999_980i64),
        (180, 1_699_999_920),
        (300, 1_699_999_800),
        (900, 1_699_999_200),
        (1_800, 1_699_999_200),
        (3_600, 1_699_999_200),
        (86_400, 1_699_920_000),
        (604_800, 1_699_833_600),
        (2_592_000, 1_697_760_000),
    ];
    for (interval, start) in starts {
        assert_eq!(
            all(&store, "ETH", interval),
            vec![Candle { open: 100, high: 100, low: 100, close: 100, volume: 5, timestamp: start }]
        );
    }
    assert_eq!(all(&store, "BTC", 60), vec![]);
}

#[test]
fn skipped_records_leave_the_store_alone() {
    let mut store = CandleStore::new();
    handle_order_event(&mut store, &trade(100, 5, 1, 1_700_000_000), "ETH").unwrap();
    let before = all(&store, "ETH", 60);
    assert_eq!(
        handle_order_event(&mut store, &record(Some("Open"), Some(7), Some(7), 2, 1_700_000_100), "ETH"),
        Err(SkipReason::NotTrade)
    );
    assert_eq!(
        handle_order_event(&mut store, &record(None, Some(7), Some(7), 2, 1_700_000_100), "ETH"),
        Err(SkipReason::MissingEventType)
    );
    assert_eq!(
        handle_order_event(&mut store, &record(Some("Trade"), Some(7), None, 2, 1_700_000_100), "ETH"),
        Err(SkipReason::IncompleteTrade)
    );
    assert_eq!(
        handle_order_event(&mut store, &trade(7, 7, 2, i64::MAX), "ETH"),
        Err(SkipReason::TimestampOutOfRange)
    );
    assert_eq!(all(&store, "ETH", 60), before);
    assert_eq!(store.get_min_max_timestamps(), Some((1_697_760_000, 1_699_999_980)));
}

#[test]
fn an_older_trade_is_refused_by_the_finer_series_only() {
    let mut store = CandleStore::new();
    handle_order_event(&mut store, &trade(100, 5, 1, 1_700_000_000), "ETH").unwrap();
    // ten minutes earlier: before the buckets of 1m, 3m and 5m, within those of 15m and wider
    assert_eq!(handle_order_event(&mut store, &trade(90, 1, 2, 1_699_999_400), "ETH"), Ok(3));
    assert_eq!(all(&store, "ETH", 60)[0].volume, 5);
    assert_eq!(all(&store, "ETH", 300)[0].volume, 5);
    assert_eq!(all(&store, "ETH", 900)[0].volume, 6);
    assert_eq!(all(&store, "ETH", 900)[0].low, 90);
    assert_eq!(all(&store, "ETH", 2_592_000)[0].close, 90);
    // a year earlier: before every bucket
    assert_eq!(handle_order_event(&mut store, &trade(1, 1, 3, 1_668_000_000), "ETH"), Ok(9));
    assert_eq!(all(&store, "ETH", 2_592_000)[0].volume, 6);
}
