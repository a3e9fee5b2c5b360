//! The `search` query: which configured pairs a typed text could mean.

use crate::storage::trading_engine::{TradingEngine, TradingPairConfig};
use vstd::prelude::*;
use vstd::string::StringExecFns;

verus! {

/// How many hits a search shows where the request sets no limit.
pub const DEFAULT_LIMIT: usize = 30;

/// One pair that a search found.
#[derive(Debug)]
pub struct SearchHit {
    pub symbol: String,
    pub full_name: String,
    pub description: String,
    pub exchange: String,
    pub type_: String,
}

/// The lower-case form that `str::to_lowercase` of the standard library
/// gives a text.
pub uninterp spec fn lowercased(text: Seq<char>) -> Seq<char>;

/// Whether `needle` stands somewhere in `haystack`, character by character.
pub open spec fn occurs_in(needle: Seq<char>, haystack: Seq<char>) -> bool {
    exists|at: int|
        0 <= at <= haystack.len() - needle.len() && #[trigger] haystack.subrange(
            at,
            at + needle.len(),
        ) == needle
}

/// The lower-case form of `text`, by `str::to_lowercase`.
///
/// Trusted: the result is a function of the text alone (the mapping is
/// Unicode's, the same in every locale), named [`lowercased`].
#[verifier::external_body]
fn to_lowercase(text: &str) -> (lower: String)
    ensures
        lower@ == lowercased(text@),
{
    text.to_lowercase()
}

/// Whether `haystack` contains `needle`, by `str::contains`.
///
/// Trusted: `contains` returns true exactly if the pattern matches a
/// substring of the text; between two strings that is an occurrence of the
/// one's characters in the other's.
#[verifier::external_body]
fn contains(haystack: &str, needle: &str) -> (found: bool)
    ensures
        found == occurs_in(needle@, haystack@),
{
    haystack.contains(needle)
}

/// Whether a request for `query`, `type_` and `exchange` finds `config`:
/// the query occurs in the symbol or in the description, letter case
/// aside; the type is left open or is `crypto`; the exchange is left open
/// or is `CryptoExchange`.
pub open spec fn finds(
    config: TradingPairConfig,
    query: Seq<char>,
    type_: Seq<char>,
    exchange: Seq<char>,
) -> bool {
    &&& occurs_in(lowercased(query), lowercased(config.symbol@)) || occurs_in(
        lowercased(query),
        lowercased(config.description@),
    )
    &&& type_.len() == 0 || type_ == "crypto"@
    &&& exchange.len() == 0 || exchange == "CryptoExchange"@
}

/// The test that a request puts to each configuration.
pub open spec fn finder(query: Seq<char>, type_: Seq<char>, exchange: Seq<char>) -> spec_fn(
    TradingPairConfig,
) -> bool {
    |config: TradingPairConfig| finds(config, query, type_, exchange)
}

/// The registered configurations, in the order of registration.
pub open spec fn registered(engine: TradingEngine) -> Seq<TradingPairConfig> {
    Seq::new(engine.len(), |i: int| engine.config_at(i))
}

/// The configurations of `engine` that a request finds, in the order of
/// registration.
pub open spec fn found(
    engine: TradingEngine,
    query: Seq<char>,
    type_: Seq<char>,
    exchange: Seq<char>,
) -> Seq<TradingPairConfig> {
    registered(engine).filter(finder(query, type_, exchange))
}

impl SearchHit {
    /// Whether this hit shows `config`.
    pub open spec fn shows(self, config: TradingPairConfig) -> bool {
        &&& self.symbol@ == config.symbol@
        &&& self.full_name@ == "CryptoExchange:"@ + config.symbol@
        &&& self.description@ == config.description@
        &&& self.exchange@ == "CryptoExchange"@
        &&& self.type_@ == "crypto"@
    }

    /// The hit that shows `config`.
    pub fn of(config: &TradingPairConfig) -> (hit: Self)
        ensures
            hit.shows(*config),
    {
        SearchHit {
            symbol: config.symbol.clone(),
            full_name: "CryptoExchange:".to_owned().concat(config.symbol.as_str()),
            description: config.description.clone(),
            exchange: "CryptoExchange".to_owned(),
            type_: "crypto".to_owned(),
        }
    }
}

/// Whether `text` is empty or reads `literal`.
fn open_or(text: &str, literal: &str) -> (fits: bool)
    ensures
        fits == (text@.len() == 0 || text@ == literal@),
{
    let text: String = text.to_owned();
    text.as_str().is_empty() || text == literal.to_owned()
}

/// Answers a `search` request with the first `limit` pairs it finds, in
/// the order of registration. A query, type or exchange that is missing
/// counts as the empty text, a missing limit as [`DEFAULT_LIMIT`].
pub fn search(
    query: Option<&str>,
    type_: Option<&str>,
    exchange: Option<&str>,
    limit: Option<usize>,
    trading_engine: &TradingEngine,
) -> (hits: Vec<SearchHit>)
    ensures
        ({
            let all = found(
                *trading_engine,
                match query {
                    Some(query) => query@,
                    None => Seq::empty(),
                },
                match type_ {
                    Some(type_) => type_@,
                    None => Seq::empty(),
                },
                match exchange {
                    Some(exchange) => exchange@,
                    None => Seq::empty(),
                },
            );
            let limit = limit.unwrap_or(DEFAULT_LIMIT);
            &&& hits.len() == if all.len() < limit {
                all.len()
            } else {
                limit as nat
            }
            &&& forall|i: int| 0 <= i < hits.len() ==> (#[trigger] hits[i]).shows(all[i])
        }),
{
    let query: &str = match query {
        Some(query) => query,
        None => "",
    };
    let type_: &str = match type_ {
        Some(type_) => type_,
        None => "",
    };
    let exchange: &str = match exchange {
        Some(exchange) => exchange,
        None => "",
    };
    let limit: usize = match limit {
        Some(limit) => limit,
        None => DEFAULT_LIMIT,
    };
    proof {
        reveal_strlit("");
        assert(""@ =~= Seq::<char>::empty());
    }
    let wanted: String = to_lowercase(query);
    let facets_fit: bool = open_or(type_, "crypto") && open_or(exchange, "CryptoExchange");
    let ghost configs = registered(*trading_engine);
    let ghost pred = finder(query@, type_@, exchange@);
    let mut hits: Vec<SearchHit> = Vec::new();
    let count: usize = trading_engine.pair_count();
    let mut i: usize = 0;
    proof {
        reveal(Seq::filter);
        assert(configs.take(0) =~= Seq::<TradingPairConfig>::empty());
    }
    while i < count
        invariant
            count == trading_engine.len(),
            i <= count,
            wanted@ == lowercased(query@),
            facets_fit == ((type_@.len() == 0 || type_@ == "crypto"@) && (exchange@.len() == 0
                || exchange@ == "CryptoExchange"@)),
            configs == registered(*trading_engine),
            pred == finder(query@, type_@, exchange@),
            hits.len() == if configs.take(i as int).filter(pred).len() < limit {
                configs.take(i as int).filter(pred).len()
            } else {
                limit as nat
            },
            forall|k: int|
                0 <= k < hits.len() ==> (#[trigger] hits[k]).shows(
                    configs.take(i as int).filter(pred)[k],
                ),
        decreases count - i,
    {
        let config: &TradingPairConfig = trading_engine.config_of(i);
        proof {
            reveal(Seq::filter);
            assert(configs.take(i + 1).drop_last() =~= configs.take(i as int));
            assert(configs.take(i + 1).last() == *config);
            configs.take(i as int).lemma_filter_len(pred);
        }
        let fits: bool = facets_fit && (contains(
            to_lowercase(config.symbol.as_str()).as_str(),
            wanted.as_str(),
        ) || contains(to_lowercase(config.description.as_str()).as_str(), wanted.as_str()));
        assert(fits == pred(*config));
        if fits && hits.len() < limit {
            hits.push(SearchHit::of(config));
        }
        i = i + 1;
    }
    assert(configs.take(i as int) =~= configs);
    hits
}

} // verus!
