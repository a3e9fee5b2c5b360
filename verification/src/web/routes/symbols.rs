//! The `symbols` and `symbols_meta` queries: what a charting front-end is
//! told about the configured pairs.

use crate::storage::trading_engine::{TradingEngine, TradingPairConfig};
use vstd::prelude::*;

verus! {

/// The UDF description of one symbol.
#[derive(Debug)]
pub struct SymbolInfo {
    pub symbol: String,
    pub ticker: String,
    pub name: String,
    pub description: String,
    pub type_: String,
    pub exchange: String,
    pub timezone: String,
    pub minmov: u32,
    pub pricescale: u32,
    pub session: String,
    pub has_intraday: bool,
    pub has_daily: bool,
    pub supported_resolutions: Vec<String>,
    pub intraday_multipliers: Vec<String>,
    pub format: String,
}

/// What `symbols_meta` tells of one pair.
#[derive(Debug)]
pub struct SymbolMeta {
    pub symbol: String,
    pub contract_id: String,
    pub start_block: i64,
    pub description: String,
}

/// The answer to a `symbols` request.
#[derive(Debug)]
pub enum SymbolsReply {
    /// The one symbol asked for, with the resolution to show it at.
    Resolved { info: SymbolInfo, default_resolution: String },
    /// The symbol asked for is not configured.
    NotFound,
    /// No symbol was asked for: all configured ones.
    Listing(Vec<SymbolInfo>),
}

/// The texts of a list of strings.
pub open spec fn texts(list: Seq<String>) -> Seq<Seq<char>> {
    Seq::new(list.len(), |i: int| list[i]@)
}

/// The resolutions every symbol is offered at.
pub open spec fn offered_resolutions() -> Seq<Seq<char>> {
    seq!["1"@, "5"@, "15"@, "30"@, "60"@, "D"@, "W"@, "M"@]
}

/// The resolutions within a day.
pub open spec fn offered_multipliers() -> Seq<Seq<char>> {
    seq!["1"@, "5"@, "15"@, "30"@, "60"@]
}

impl SymbolInfo {
    /// What is said of every symbol alike.
    pub open spec fn is_crypto(self) -> bool {
        &&& self.type_@ == "crypto"@
        &&& self.minmov == 1
        &&& self.has_intraday
        &&& self.has_daily
        &&& texts(self.supported_resolutions@) == offered_resolutions()
        &&& texts(self.intraday_multipliers@) == offered_multipliers()
        &&& self.format@ == "price"@
    }

    /// Whether this is the entry of `config` in the listing of all symbols.
    pub open spec fn lists(self, config: TradingPairConfig) -> bool {
        &&& self.is_crypto()
        &&& self.symbol@ == config.symbol@
        &&& self.ticker@ == config.symbol@
        &&& self.name@ == config.description@
        &&& self.description@ == config.description@
        &&& self.exchange@ == "CryptoExchange"@
        &&& self.timezone@ == "Etc/UTC"@
        &&& self.pricescale == 100
        &&& self.session@ == "24x7"@
    }

    /// Whether this is the answer to a request for the symbol of `config`.
    pub open spec fn resolves(self, config: TradingPairConfig) -> bool {
        &&& self.is_crypto()
        &&& self.symbol@ == config.symbol@
        &&& self.ticker@ == config.symbol@
        &&& self.name@ == config.symbol@
        &&& self.description@ == config.symbol@
        &&& self.exchange@ == config.symbol@
        &&& self.timezone@ == "UTC"@
        &&& self.pricescale == 100_000
        &&& self.session@ == "0000-2400"@
    }

    /// The resolutions every symbol is offered at.
    fn resolutions() -> (list: Vec<String>)
        ensures
            texts(list@) == offered_resolutions(),
    {
        let mut list: Vec<String> = Vec::new();
        list.push("1".to_owned());
        list.push("5".to_owned());
        list.push("15".to_owned());
        list.push("30".to_owned());
        list.push("60".to_owned());
        list.push("D".to_owned());
        list.push("W".to_owned());
        list.push("M".to_owned());
        assert(texts(list@) =~= offered_resolutions());
        list
    }

    /// The resolutions within a day.
    fn multipliers() -> (list: Vec<String>)
        ensures
            texts(list@) == offered_multipliers(),
    {
        let mut list: Vec<String> = Vec::new();
        list.push("1".to_owned());
        list.push("5".to_owned());
        list.push("15".to_owned());
        list.push("30".to_owned());
        list.push("60".to_owned());
        assert(texts(list@) =~= offered_multipliers());
        list
    }

    /// The entry of `config` in the listing of all symbols.
    pub fn listed(config: &TradingPairConfig) -> (info: Self)
        ensures
            info.lists(*config),
    {
        SymbolInfo {
            symbol: config.symbol.clone(),
            ticker: config.symbol.clone(),
            name: config.description.clone(),
            description: config.description.clone(),
            type_: "crypto".to_owned(),
            exchange: "CryptoExchange".to_owned(),
            timezone: "Etc/UTC".to_owned(),
            minmov: 1,
            pricescale: 100,
            session: "24x7".to_owned(),
            has_intraday: true,
            has_daily: true,
            supported_resolutions: SymbolInfo::resolutions(),
            intraday_multipliers: SymbolInfo::multipliers(),
            format: "price".to_owned(),
        }
    }

    /// The answer to a request for the symbol of `config`.
    pub fn resolved(config: &TradingPairConfig) -> (info: Self)
        ensures
            info.resolves(*config),
    {
        SymbolInfo {
            symbol: config.symbol.clone(),
            ticker: config.symbol.clone(),
            name: config.symbol.clone(),
            description: config.symbol.clone(),
            type_: "crypto".to_owned(),
            exchange: config.symbol.clone(),
            timezone: "UTC".to_owned(),
            minmov: 1,
            pricescale: 100_000,
            session: "0000-2400".to_owned(),
            has_intraday: true,
            has_daily: true,
            supported_resolutions: SymbolInfo::resolutions(),
            intraday_multipliers: SymbolInfo::multipliers(),
            format: "price".to_owned(),
        }
    }
}

impl SymbolMeta {
    /// Whether this is what `symbols_meta` tells of `config`.
    pub open spec fn describes(self, config: TradingPairConfig) -> bool {
        &&& self.symbol@ == config.symbol@
        &&& self.contract_id@ == config.contract_id@
        &&& self.start_block == config.start_block
        &&& self.description@ == config.description@
    }

    /// What `symbols_meta` tells of `config`.
    pub fn of(config: &TradingPairConfig) -> (meta: Self)
        ensures
            meta.describes(*config),
    {
        SymbolMeta {
            symbol: config.symbol.clone(),
            contract_id: config.contract_id.clone(),
            start_block: config.start_block,
            description: config.description.clone(),
        }
    }
}

/// Answers a `symbols` request: the one symbol asked for, at the default
/// resolution `"D"`, or that it is not configured; all configured symbols
/// where none is asked for.
pub fn get_symbols(symbol: Option<&str>, trading_engine: &TradingEngine) -> (reply: SymbolsReply)
    requires
        trading_engine.inv(),
    ensures
        match (symbol, reply) {
            (Some(symbol), SymbolsReply::Resolved { info, default_resolution }) => {
                &&& trading_engine.config(symbol@) matches Some(config)
                &&& info.resolves(config)
                &&& default_resolution@ == "D"@
            },
            (Some(symbol), SymbolsReply::NotFound) => trading_engine.config(symbol@) is None,
            (None, SymbolsReply::Listing(all)) => {
                &&& all.len() == trading_engine.len()
                &&& forall|i: int|
                    0 <= i < all.len() ==> (#[trigger] all[i]).lists(trading_engine.config_at(i))
            },
            _ => false,
        },
{
    match symbol {
        Some(symbol) => match trading_engine.get_config(symbol) {
            Some(config) => SymbolsReply::Resolved {
                info: SymbolInfo::resolved(config),
                default_resolution: "D".to_owned(),
            },
            None => SymbolsReply::NotFound,
        },
        None => SymbolsReply::Listing(trading_engine.get_symbols()),
    }
}

/// Answers a `symbols_meta` request: every configured pair with its
/// contract and first block, in the order of registration.
pub fn get_symbols_meta(trading_engine: &TradingEngine) -> (all: Vec<SymbolMeta>)
    requires
        trading_engine.inv(),
    ensures
        all.len() == trading_engine.len(),
        forall|i: int|
            0 <= i < all.len() ==> (#[trigger] all[i]).describes(trading_engine.config_at(i)),
{
    trading_engine.get_symbols_meta()
}

} // verus!
