use spark_candles::storage::candles::{Candle, CandleStore};
use spark_candles::storage::trading_engine::{TradingEngine, TradingPairConfig};
use spark_candles::web::routes::config::get_config;
use spark_candles::web::routes::history::{
    get_all_candles, get_candles, get_history, resolution_to_interval, AdvancedChartResponse, CandlesReply,
};
use spark_candles::web::routes::search::{search, SearchHit, DEFAULT_LIMIT};
use spark_candles::web::routes::symbols::{get_symbols, get_symbols_meta, SymbolInfo, SymbolsReply};
use spark_candles::web::routes::timestamps::{get_timestamps, get_timestamps_meta, span};
use spark_candles::web::server::CORS;

fn pair(symbol: &str, description: &str) -> TradingPairConfig {
    TradingPairConfig {
        symbol: symbol.to_string(),
        contract_id: "0x01".to_string(),
        start_block: 42,
        description: description.to_string(),
        decimals: 9,
    }
}

/// ETH with five one-minute candles from 1_699_999_980 on, BTC without candles.
fn engine() -> TradingEngine {
    let mut engine = TradingEngine::new(vec![pair("ETH", "Ether / USDC"), pair("BTC", "Bitcoin / USDC")]);
    let store = engine.get_store_mut("ETH").unwrap();
    for k in 0..5i64 {
        store.add_price("ETH", 60, 100 + k as u128, 10 + k as u128, 1_700_000_000 + 60 * k);
        store.add_price("ETH", 60, 90 + k as u128, 1, 1_700_000_010 + 60 * k);
    }
    engine
}

fn strings(list: &[&str]) -> Vec<String> {
    list.iter().map(|s| s.to_string()).collect()
}

fn assert_empty(reply: &AdvancedChartResponse, status: &str) {
    assert_eq!(reply.s, status);
    assert!(reply.t.is_empty() && reply.o.is_empty() && reply.h.is_empty());
    assert!(reply.l.is_empty() && reply.c.is_empty() && reply.v.is_empty());
}

#[test]
fn resolutions_map_to_intervals() {
    let table = [
        ("1", 60u64), ("3", 180), ("5", 300), ("15", 900), ("30", 1_800), ("60", 3_600),
        ("1D", 86_400), ("D", 86_400), ("1W", 604_800), ("W", 604_800), ("1M", 2_592_000), ("M", 2_592_000),
    ];
    for (resolution, interval) in table {
        assert_eq!(resolution_to_interval(resolution), Some(interval));
    }
    for resolution in ["", "0", "2", "10", "120", "d", "1d", "1 D", "2W", "1Y", "60 ", " 1", "1M1"] {
        assert_eq!(resolution_to_interval(resolution), None);
    }
}

#[test]
fn history_returns_the_range_column_by_column() {
    let engine = engine();
    let reply = get_history("ETH", Some("1"), Some(1_700_000_040), Some(1_700_000_160), None, &engine, 0);
    assert_eq!(reply.s, "ok");
    assert_eq!(reply.t, vec![1_700_000_040, 1_700_000_100, 1_700_000_160]);
    assert_eq!(reply.o, vec![101, 102, 103]);
    assert_eq!(reply.h, vec![101, 102, 103]);
    assert_eq!(reply.l, vec![91, 92, 93]);
    assert_eq!(reply.c, vec![91, 92, 93]);
    assert_eq!(reply.v, vec![12, 13, 14]);
}

#[test]
fn history_counts_back_from_the_newest() {
    let engine = engine();
    let reply = get_history("ETH", Some("1"), Some(0), Some(2_000_000_000), Some(2), &engine, 0);
    assert_eq!(reply.s, "ok");
    assert_eq!(reply.t, vec![1_700_000_160, 1_700_000_220]);
    assert_eq!(reply.v, vec![14, 15]);
    let all = get_history("ETH", Some("1"), Some(0), Some(2_000_000_000), Some(5), &engine, 0);
    assert_eq!(all.t.len(), 5);
    let more = get_history("ETH", Some("1"), Some(0), Some(2_000_000_000), Some(50), &engine, 0);
    assert_eq!(more.t.len(), 5);
    let none = get_history("ETH", Some("1"), Some(0), Some(2_000_000_000), Some(0), &engine, 0);
    assert_empty(&none, "no_data");
}

#[test]
fn history_defaults() {
    let engine = engine();
    // no resolution means "60": ETH has no hourly series
    assert_empty(&get_history("ETH", None, None, None, None, &engine, 2_000_000_000), "no_data");
    // no range means from the epoch until now
    let until_now = get_history("ETH", Some("1"), None, None, None, &engine, 1_700_000_100);
    assert_eq!(until_now.t, vec![1_699_999_980, 1_700_000_040, 1_700_000_100]);
    let from_then = get_history("ETH", Some("1"), Some(1_700_000_100), None, None, &engine, 1_700_000_159);
    assert_eq!(from_then.t, vec![1_700_000_100]);
    let to_then = get_history("ETH", Some("1"), None, Some(1_699_999_980), None, &engine, 0);
    assert_eq!(to_then.t, vec![1_699_999_980]);
}

#[test]
fn history_errors_and_no_data() {
    let engine = engine();
    assert_empty(&get_history("ETH", Some("7"), Some(0), Some(i64::MAX), None, &engine, 0), "error");
    assert_empty(&get_history("SOL", Some("1"), Some(0), Some(i64::MAX), None, &engine, 0), "error");
    assert_empty(&get_history("SOL", Some("7"), Some(0), Some(i64::MAX), None, &engine, 0), "error");
    assert_empty(&get_history("BTC", Some("1"), Some(0), Some(i64::MAX), None, &engine, 0), "no_data");
    assert_empty(&get_history("ETH", Some("1"), Some(0), Some(1_000), None, &engine, 0), "no_data");
    assert_empty(&get_history("ETH", Some("1"), Some(2_000_000_000), Some(0), None, &engine, 0), "no_data");
    assert_empty(&get_history("ETH", Some("D"), Some(0), Some(i64::MAX), None, &engine, 0), "no_data");
}

#[test]
fn candles_of_a_range_as_payload() {
    let engine = engine();
    let store = engine.get_store("ETH").unwrap();
    let reply = get_candles(store, "ETH", 60, 1_700_000_200, 1_700_000_300);
    assert_eq!(reply.s, "ok");
    assert_eq!(reply.t, vec![1_700_000_220]);
    assert_eq!((reply.o[0], reply.h[0], reply.l[0], reply.c[0], reply.v[0]), (104, 104, 94, 94, 15));
    assert_empty(&get_candles(store, "ETH", 60, 0, 10), "no_data");
    assert_empty(&get_candles(store, "ETH", 300, 0, i64::MAX), "no_data");
}

#[test]
fn all_candles_come_newest_first() {
    let engine = engine();
    match get_all_candles("ETH", 60, &engine) {
        CandlesReply::Found(candles) => {
            assert_eq!(candles.len(), 5);
            assert_eq!(candles[0], Candle { open: 104, high: 104, low: 94, close: 94, volume: 15, timestamp: 1_700_000_220 });
            assert_eq!(candles[4].timestamp, 1_699_999_980);
        }
        other => panic!("no candles: {:?}", other),
    }
    assert!(matches!(get_all_candles("ETH", 3_600, &engine), CandlesReply::NoData));
    assert!(matches!(get_all_candles("ETH", 61, &engine), CandlesReply::NoData));
    assert!(matches!(get_all_candles("BTC", 60, &engine), CandlesReply::NoData));
    assert!(matches!(get_all_candles("SOL", 60, &engine), CandlesReply::NotFound));
}

#[test]
fn timestamps_of_a_store() {
    let engine = engine();
    assert_eq!(get_timestamps(engine.get_store("ETH").unwrap()), Some((1_699_999_980, 1_700_000_220)));
    assert_eq!(get_timestamps(engine.get_store("BTC").unwrap()), None);
    assert_eq!(get_timestamps(&CandleStore::new()), None);
}

#[test]
fn ranges_are_spanned() {
    assert_eq!(span(None, None), None);
    assert_eq!(span(Some((3, 9)), None), Some((3, 9)));
    assert_eq!(span(None, Some((3, 9))), Some((3, 9)));
    assert_eq!(span(Some((3, 9)), Some((5, 7))), Some((3, 9)));
    assert_eq!(span(Some((5, 7)), Some((3, 9))), Some((3, 9)));
    assert_eq!(span(Some((3, 7)), Some((5, 9))), Some((3, 9)));
    assert_eq!(span(Some((8, 9)), Some((-5, -1))), Some((-5, 9)));
}

#[test]
fn timestamps_of_a_series() {
    let engine = engine();
    let meta = get_timestamps_meta(engine.get_store("ETH").unwrap(), "ETH", 60).unwrap();
    assert_eq!(meta.count, 5);
    assert_eq!(meta.first_timestamp, 1_699_999_980);
    assert_eq!(meta.last_timestamp, 1_700_000_220);
    assert_eq!(meta.timestamps, vec![1_699_999_980, 1_700_000_040, 1_700_000_100, 1_700_000_160, 1_700_000_220]);
    assert!(get_timestamps_meta(engine.get_store("ETH").unwrap(), "ETH", 300).is_none());
    assert!(get_timestamps_meta(engine.get_store("BTC").unwrap(), "BTC", 60).is_none());
    // buckets before the epoch are left out
    let mut store = CandleStore::new();
    store.add_price("ETH", 60, 1, 1, -61);
    store.add_price("ETH", 60, 1, 1, 60);
    let meta = get_timestamps_meta(&store, "ETH", 60).unwrap();
    assert_eq!(meta.timestamps, vec![0, 60]);
    assert_eq!((meta.count, meta.first_timestamp, meta.last_timestamp), (2, 0, 60));
}

fn assert_common(info: &SymbolInfo) {
    assert_eq!(info.type_, "crypto");
    assert_eq!(info.minmov, 1);
    assert!(info.has_intraday && info.has_daily);
    assert_eq!(info.supported_resolutions, strings(&["1", "5", "15", "30", "60", "D", "W", "M"]));
    assert_eq!(info.intraday_multipliers, strings(&["1", "5", "15", "30", "60"]));
    assert_eq!(info.format, "price");
}

#[test]
fn one_symbol_is_resolved() {
    let engine = engine();
    match get_symbols(Some("ETH"), &engine) {
        SymbolsReply::Resolved { info, default_resolution } => {
            assert_common(&info);
            assert_eq!(info.symbol, "ETH");
            assert_eq!(info.ticker, "ETH");
            assert_eq!(info.name, "ETH");
            assert_eq!(info.description, "ETH");
            assert_eq!(info.exchange, "ETH");
            assert_eq!(info.timezone, "UTC");
            assert_eq!(info.pricescale, 100_000);
            assert_eq!(info.session, "0000-2400");
            assert_eq!(default_resolution, "D");
        }
        other => panic!("not resolved: {:?}", other),
    }
    assert!(matches!(get_symbols(Some("SOL"), &engine), SymbolsReply::NotFound));
    assert!(matches!(get_symbols(Some(""), &engine), SymbolsReply::NotFound));
}

#[test]
fn all_symbols_are_listed_in_order() {
    let engine = engine();
    match get_symbols(None, &engine) {
        SymbolsReply::Listing(all) => {
            assert_eq!(all.len(), 2);
            assert_common(&all[0]);
            assert_eq!(all[0].symbol, "ETH");
            assert_eq!(all[0].ticker, "ETH");
            assert_eq!(all[0].name, "Ether / USDC");
            assert_eq!(all[0].description, "Ether / USDC");
            assert_eq!(all[0].exchange, "CryptoExchange");
            assert_eq!(all[0].timezone, "Etc/UTC");
            assert_eq!(all[0].pricescale, 100);
            assert_eq!(all[0].session, "24x7");
            assert_eq!(all[1].symbol, "BTC");
            assert_eq!(all[1].name, "Bitcoin / USDC");
        }
        other => panic!("no listing: {:?}", other),
    }
    assert_eq!(engine.get_symbols().len(), 2);
}

#[test]
fn symbols_meta_tells_contract_and_first_block() {
    let engine = engine();
    let meta = get_symbols_meta(&engine);
    assert_eq!(meta.len(), 2);
    assert_eq!(meta[0].symbol, "ETH");
    assert_eq!(meta[0].contract_id, "0x01");
    assert_eq!(meta[0].start_block, 42);
    assert_eq!(meta[0].description, "Ether / USDC");
    assert_eq!(meta[1].symbol, "BTC");
}

fn symbols(hits: &[SearchHit]) -> Vec<&str> {
    hits.iter().map(|h| h.symbol.as_str()).collect()
}

#[test]
fn search_matches_symbol_or_description_without_case() {
    let engine = engine();
    assert_eq!(symbols(&search(None, None, None, None, &engine)), vec!["ETH", "BTC"]);
    assert_eq!(symbols(&search(Some(""), Some(""), Some(""), None, &engine)), vec!["ETH", "BTC"]);
    assert_eq!(symbols(&search(Some("eth"), None, None, None, &engine)), vec!["ETH"]);
    assert_eq!(symbols(&search(Some("BITCOIN"), None, None, None, &engine)), vec!["BTC"]);
    assert_eq!(symbols(&search(Some("usdc"), None, None, None, &engine)), vec!["ETH", "BTC"]);
    assert_eq!(symbols(&search(Some("T"), None, None, None, &engine)), vec!["ETH", "BTC"]);
    assert_eq!(symbols(&search(Some("doge"), None, None, None, &engine)), Vec::<&str>::new());
    assert_eq!(symbols(&search(Some("ethx"), None, None, None, &engine)), Vec::<&str>::new());
}

#[test]
fn search_by_type_and_exchange() {
    let engine = engine();
    assert_eq!(search(None, Some("crypto"), None, None, &engine).len(), 2);
    assert_eq!(search(None, Some("stock"), None, None, &engine).len(), 0);
    assert_eq!(search(None, Some("Crypto"), None, None, &engine).len(), 0);
    assert_eq!(search(None, None, Some("CryptoExchange"), None, &engine).len(), 2);
    assert_eq!(search(None, None, Some("NASDAQ"), None, &engine).len(), 0);
    assert_eq!(search(Some("btc"), Some("crypto"), Some("CryptoExchange"), None, &engine).len(), 1);
}

#[test]
fn search_is_limited() {
    let engine = engine();
    assert_eq!(symbols(&search(None, None, None, Some(1), &engine)), vec!["ETH"]);
    assert_eq!(symbols(&search(Some("bit"), None, None, Some(1), &engine)), vec!["BTC"]);
    assert_eq!(search(None, None, None, Some(0), &engine).len(), 0);
    assert_eq!(search(None, None, None, Some(usize::MAX), &engine).len(), 2);
    let mut many = Vec::new();
    for k in 0..40 {
        many.push(pair(&format!("TOKEN{}", k), "pair"));
    }
    let crowded = TradingEngine::new(many);
    assert_eq!(DEFAULT_LIMIT, 30);
    let hits = search(Some("token"), None, None, None, &crowded);
    assert_eq!(hits.len(), 30);
    assert_eq!(hits[29].symbol, "TOKEN29");
    assert_eq!(search(Some("token"), None, None, Some(35), &crowded).len(), 35);
}

#[test]
fn a_search_hit_names_the_exchange() {
    let engine = engine();
    let hits = search(Some("bitcoin"), None, None, None, &engine);
    assert_eq!(hits.len(), 1);
    assert_eq!(hits[0].symbol, "BTC");
    assert_eq!(hits[0].full_name, "CryptoExchange:BTC");
    assert_eq!(hits[0].description, "Bitcoin / USDC");
    assert_eq!(hits[0].exchange, "CryptoExchange");
    assert_eq!(hits[0].type_, "crypto");
}

#[test]
fn feed_configuration() {
    let config = get_config();
    assert!(config.supports_search);
    assert!(!config.supports_group_request);
    assert!(config.supports_marks);
    assert!(config.supports_timescale_marks);
    assert!(config.supports_time);
    assert_eq!(config.supported_resolutions, strings(&["1", "5", "15", "30", "60", "1D", "1W", "1M"]));
    assert_eq!(config.exchanges.len(), 1);
    assert_eq!(config.exchanges[0].value, "CryptoExchange");
    assert_eq!(config.exchanges[0].name, "CryptoExchange");
    assert_eq!(config.exchanges[0].desc, "Crypto Exchange");
    assert_eq!(config.symbols_types.len(), 1);
    assert_eq!(config.symbols_types[0].name, "Crypto");
    assert_eq!(config.symbols_types[0].value, "crypto");
}

#[test]
fn cross_origin_headers() {
    let headers = CORS.headers();
    let pairs: Vec<(&str, &str)> = headers.iter().map(|h| (h.name.as_str(), h.value.as_str())).collect();
    assert_eq!(
        pairs,
        vec![
            ("Access-Control-Allow-Origin", "*"),
            ("Access-Control-Allow-Methods", "GET, POST, PUT, DELETE, OPTIONS"),
            ("Access-Control-Allow-Headers", "Content-Type, Authorization"),
        ]
    );
    assert_eq!(CORS.info(), "Add CORS headers to responses");
}
