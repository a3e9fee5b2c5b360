//! The `config` query.

use crate::web::routes::symbols::texts;
use vstd::prelude::*;

verus! {

/// An exchange a symbol can be listed on.
#[derive(Debug)]
pub struct Exchange {
    pub value: String,
    pub name: String,
    pub desc: String,
}

/// A kind of symbol.
#[derive(Debug)]
pub struct SymbolType {
    pub name: String,
    pub value: String,
}

/// What the data feed tells a front-end about itself.
#[derive(Debug)]
pub struct ConfigResponse {
    pub supports_search: bool,
    pub supports_group_request: bool,
    pub supports_marks: bool,
    pub supports_timescale_marks: bool,
    pub supports_time: bool,
    pub exchanges: Vec<Exchange>,
    pub symbols_types: Vec<SymbolType>,
    pub supported_resolutions: Vec<String>,
}

/// The resolutions the feed declares.
pub open spec fn declared_resolutions() -> Seq<Seq<char>> {
    seq!["1"@, "5"@, "15"@, "30"@, "60"@, "1D"@, "1W"@, "1M"@]
}

impl ConfigResponse {
    /// Whether this is the feed's one configuration: search, marks and
    /// server time are supported, group requests are not; there is one
    /// exchange and one symbol type.
    pub open spec fn is_the_feed(self) -> bool {
        &&& self.supports_search
        &&& !self.supports_group_request
        &&& self.supports_marks
        &&& self.supports_timescale_marks
        &&& self.supports_time
        &&& self.exchanges.len() == 1
        &&& self.exchanges[0].value@ == "CryptoExchange"@
        &&& self.exchanges[0].name@ == "CryptoExchange"@
        &&& self.exchanges[0].desc@ == "Crypto Exchange"@
        &&& self.symbols_types.len() == 1
        &&& self.symbols_types[0].name@ == "Crypto"@
        &&& self.symbols_types[0].value@ == "crypto"@
        &&& texts(self.supported_resolutions@) == declared_resolutions()
    }
}

/// Answers a `config` request.
pub fn get_config() -> (config: ConfigResponse)
    ensures
        config.is_the_feed(),
{
    let mut exchanges: Vec<Exchange> = Vec::new();
    exchanges.push(
        Exchange {
            value: "CryptoExchange".to_owned(),
            name: "CryptoExchange".to_owned(),
            desc: "Crypto Exchange".to_owned(),
        },
    );
    let mut symbols_types: Vec<SymbolType> = Vec::new();
    symbols_types.push(SymbolType { name: "Crypto".to_owned(), value: "crypto".to_owned() });
    let mut supported_resolutions: Vec<String> = Vec::new();
    supported_resolutions.push("1".to_owned());
    supported_resolutions.push("5".to_owned());
    supported_resolutions.push("15".to_owned());
    supported_resolutions.push("30".to_owned());
    supported_resolutions.push("60".to_owned());
    supported_resolutions.push("1D".to_owned());
    supported_resolutions.push("1W".to_owned());
    supported_resolutions.push("1M".to_owned());
    assert(texts(supported_resolutions@) =~= declared_resolutions());
    ConfigResponse {
        supports_search: true,
        supports_group_request: false,
        supports_marks: true,
        supports_timescale_marks: true,
        supports_time: true,
        exchanges,
        symbols_types,
        supported_resolutions,
    }
}

} // verus!
