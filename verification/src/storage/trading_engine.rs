//! The registry of trading pairs: the configuration of each pair and the
//! candle store that belongs to it.

use crate::storage::candles::{CandleStore, MAX_CANDLES};
use crate::web::routes::symbols::{SymbolInfo, SymbolMeta};
use vstd::prelude::*;

verus! {

/// The configuration of one trading pair.
#[derive(Debug, Clone)]
pub struct TradingPairConfig {
    /// The pair's unique name.
    pub symbol: String,
    /// The market's 32-byte identifier, hex encoded.
    pub contract_id: String,
    /// The first block to read events from.
    pub start_block: i64,
    pub description: String,
    /// The power of ten by which prices and volumes are divided for display.
    pub decimals: i32,
}

/// The decimals assumed for a symbol without a configuration.
pub const DEFAULT_DECIMALS: i32 = 9;

/// One registered pair with its store.
struct Pair {
    config: TradingPairConfig,
    store: CandleStore,
}

/// The configured pairs, each with its own candle store.
pub struct TradingEngine {
    pairs: Vec<Pair>,
}

/// The configuration that a list registers for `symbol`: the last one in the
/// list that names it.
pub open spec fn last_config(
    configs: Seq<TradingPairConfig>,
    symbol: Seq<char>,
) -> Option<TradingPairConfig>
    decreases configs.len(),
{
    if configs.len() == 0 {
        None
    } else if configs.last().symbol@ == symbol {
        Some(configs.last())
    } else {
        last_config(configs.drop_last(), symbol)
    }
}

/// The symbols that a list of configurations names, each once, in the order
/// in which the list first names them.
pub open spec fn symbols_in_order(configs: Seq<TradingPairConfig>) -> Seq<Seq<char>>
    decreases configs.len(),
{
    if configs.len() == 0 {
        Seq::empty()
    } else {
        let before = symbols_in_order(configs.drop_last());
        if before.contains(configs.last().symbol@) {
            before
        } else {
            before.push(configs.last().symbol@)
        }
    }
}

impl TradingEngine {
    /// Whether pair `i` is the pair of `symbol`.
    spec fn at(&self, i: int, symbol: Seq<char>) -> bool {
        0 <= i < self.pairs.len() && self.pairs[i].config.symbol@ == symbol
    }

    /// The engine's invariant: no symbol is registered twice, and every
    /// store satisfies its own invariant.
    pub closed spec fn inv(&self) -> bool {
        &&& self.distinct()
        &&& forall|i: int| 0 <= i < self.pairs.len() ==> (#[trigger] self.pairs[i]).store.inv()
    }

    /// Whether no two pairs share a symbol.
    spec fn distinct(&self) -> bool {
        forall|i: int, j: int|
            0 <= i < j < self.pairs.len() ==> #[trigger] self.pairs[i].config.symbol@
                != #[trigger] self.pairs[j].config.symbol@
    }

    /// How many pairs are registered.
    pub closed spec fn len(&self) -> nat {
        self.pairs.len() as nat
    }

    /// The configuration of the `i`-th registered pair.
    pub closed spec fn config_at(&self, i: int) -> TradingPairConfig {
        self.pairs[i].config
    }

    /// The symbols of the registered pairs, in the order of registration.
    pub open spec fn symbols(&self) -> Seq<Seq<char>> {
        Seq::new(self.len(), |i: int| self.config_at(i).symbol@)
    }

    /// The configuration registered for `symbol`, if any.
    pub closed spec fn config(&self, symbol: Seq<char>) -> Option<TradingPairConfig> {
        if exists|i: int| self.at(i, symbol) {
            Some(self.pairs[choose|i: int| self.at(i, symbol)].config)
        } else {
            None
        }
    }

    /// The candle store of `symbol`, if the symbol is registered.
    pub closed spec fn store(&self, symbol: Seq<char>) -> Option<CandleStore> {
        if exists|i: int| self.at(i, symbol) {
            Some(self.pairs[choose|i: int| self.at(i, symbol)].store)
        } else {
            None
        }
    }

    /// A registered pair is found under its symbol.
    proof fn lemma_pair_at(&self, i: int)
        requires
            self.distinct(),
            0 <= i < self.pairs.len(),
        ensures
            self.config(self.pairs[i].config.symbol@) == Some(self.pairs[i].config),
            self.store(self.pairs[i].config.symbol@) == Some(self.pairs[i].store),
    {
        let symbol = self.pairs[i].config.symbol@;
        assert(self.at(i, symbol));
        let j = choose|j: int| self.at(j, symbol);
        if j < i {
            assert(self.pairs[j].config.symbol@ == self.pairs[i].config.symbol@);
        } else if i < j {
            assert(self.pairs[i].config.symbol@ == self.pairs[j].config.symbol@);
        }
    }

    /// Every registered pair is listed once, and what is listed is
    /// registered: the listing and the lookup agree.
    pub proof fn lemma_listing(&self, symbol: Seq<char>)
        requires
            self.inv(),
        ensures
            self.config(symbol) is Some <==> exists|i: int|
                0 <= i < self.len() && #[trigger] self.config_at(i).symbol@ == symbol,
            self.config(symbol) is Some <==> self.store(symbol) is Some,
            forall|i: int|
                0 <= i < self.len() && #[trigger] self.config_at(i).symbol@ == symbol
                    ==> self.config(symbol) == Some(self.config_at(i)),
            self.config(symbol) matches Some(config) ==> config.symbol@ == symbol,
            self.store(symbol) matches Some(store) ==> store.inv(),
    {
        if exists|i: int| self.at(i, symbol) {
            let i = choose|i: int| self.at(i, symbol);
            assert(self.config_at(i).symbol@ == symbol);
        }
        if exists|i: int| 0 <= i < self.len() && #[trigger] self.config_at(i).symbol@ == symbol {
            let i = choose|i: int|
                0 <= i < self.len() && #[trigger] self.config_at(i).symbol@ == symbol;
            assert(self.at(i, symbol));
        }
        assert forall|i: int|
            0 <= i < self.len() && #[trigger] self.config_at(i).symbol@
                == symbol implies self.config(symbol) == Some(self.config_at(i)) by {
            self.lemma_pair_at(i);
        }
    }

    /// The position of the pair of `symbol`, if it is registered.
    fn find(&self, symbol: &String) -> (found: Option<usize>)
        ensures
            match found {
                Some(i) => self.at(i as int, symbol@),
                None => forall|i: int| !self.at(i, symbol@),
            },
    {
        let mut i: usize = 0;
        while i < self.pairs.len()
            invariant
                i <= self.pairs.len(),
                forall|j: int| 0 <= j < i ==> !self.at(j, symbol@),
            decreases self.pairs.len() - i,
        {
            if self.pairs[i].config.symbol == *symbol {
                return Some(i);
            }
            i = i + 1;
        }
        None
    }

    /// Registers every pair of `configs` with an empty store of its own, in
    /// the order in which the list first names their symbols. Where two
    /// configurations name one symbol, the later one stands.
    pub fn new(configs: Vec<TradingPairConfig>) -> (engine: Self)
        ensures
            engine.inv(),
            engine.symbols() == symbols_in_order(configs@),
            forall|symbol: Seq<char>| #[trigger]
                engine.config(symbol) == last_config(configs@, symbol),
            forall|symbol: Seq<char>|
                last_config(configs@, symbol) is Some ==> (#[trigger] engine.store(symbol))
                    is Some && engine.store(symbol).unwrap().is_empty_with(MAX_CANDLES as nat),
            forall|symbol: Seq<char>|
                last_config(configs@, symbol) is None ==> (#[trigger] engine.store(symbol))
                    is None,
    {
        let mut engine = TradingEngine { pairs: Vec::new() };
        let mut next: usize = 0;
        while next < configs.len()
            invariant
                next <= configs.len(),
                engine.inv(),
                engine.symbols() == symbols_in_order(configs@.take(next as int)),
                forall|symbol: Seq<char>| #[trigger]
                    engine.config(symbol) == last_config(configs@.take(next as int), symbol),
                forall|i: int|
                    0 <= i < engine.pairs.len() ==> (#[trigger] engine.pairs[i])
                        .store.is_empty_with(MAX_CANDLES as nat),
            decreases configs.len() - next,
        {
            let config = configs[next].duplicate();
            let ghost before = engine;
            proof {
                assert(configs@.take(next + 1).drop_last() =~= configs@.take(next as int));
                assert(configs@.take(next + 1).last() == config);
            }
            match engine.find(&config.symbol) {
                Some(i) => {
                    engine.pairs[i].config = config;
                    proof {
                        assert forall|j: int| 0 <= j < engine.pairs.len() implies #[trigger]
                            engine.pairs[j].config.symbol@ == before.pairs[j].config.symbol@
                            && engine.pairs[j].store == before.pairs[j].store by {}
                        assert(engine.inv());
                        engine.lemma_pair_at(i as int);
                        assert(before.symbols()[i as int] == config.symbol@);
                        assert(engine.symbols() =~= before.symbols());
                    }
                },
                None => {
                    engine.pairs.push(Pair { config, store: CandleStore::new() });
                    proof {
                        let last = engine.pairs.len() - 1;
                        assert(!before.symbols().contains(config.symbol@)) by {
                            if before.symbols().contains(config.symbol@) {
                                let i = choose|i: int|
                                    0 <= i < before.symbols().len() && before.symbols()[i]
                                        == config.symbol@;
                                assert(before.at(i, config.symbol@));
                            }
                        }
                        assert(engine.symbols() =~= before.symbols().push(config.symbol@));
                        assert forall|j: int| 0 <= j < last implies #[trigger] engine.pairs[j]
                            == before.pairs[j] by {}
                        assert forall|i: int, j: int|
                            0 <= i < j < engine.pairs.len() implies #[trigger]
                            engine.pairs[i].config.symbol@
                            != #[trigger] engine.pairs[j].config.symbol@ by {
                            if j == last {
                                assert(!before.at(i, config.symbol@));
                            }
                        }
                        assert(engine.inv());
                        engine.lemma_pair_at(last);
                    }
                },
            }
            proof {
                assert forall|symbol: Seq<char>| #[trigger]
                    engine.config(symbol) == last_config(
                        configs@.take(next + 1),
                        symbol,
                    ) by {
                    if symbol != config.symbol@ {
                        assert(before.config(symbol) == last_config(
                            configs@.take(next as int),
                            symbol,
                        ));
                        if exists|i: int| before.at(i, symbol) {
                            let i = choose|i: int| before.at(i, symbol);
                            before.lemma_pair_at(i);
                            assert(engine.at(i, symbol));
                            engine.lemma_pair_at(i);
                        } else if exists|i: int| engine.at(i, symbol) {
                            let i = choose|i: int| engine.at(i, symbol);
                            assert(before.at(i, symbol));
                        }
                    }
                }
            }
            next = next + 1;
        }
        proof {
            assert(configs@.take(next as int) =~= configs@);
            assert forall|symbol: Seq<char>|
                last_config(configs@, symbol) is Some implies (#[trigger] engine.store(symbol))
                is Some && engine.store(symbol).unwrap().is_empty_with(MAX_CANDLES as nat) by {
                assert(engine.config(symbol) is Some);
            }
            assert forall|symbol: Seq<char>|
                last_config(configs@, symbol) is None implies (#[trigger] engine.store(symbol))
                is None by {
                assert(engine.config(symbol) is None);
            }
        }
        engine
    }

    /// The store of `symbol`, if the symbol is registered.
    pub fn get_store(&self, symbol: &str) -> (store: Option<&CandleStore>)
        requires
            self.inv(),
        ensures
            match store {
                Some(store) => self.store(symbol@) == Some(*store) && store.inv(),
                None => self.store(symbol@) is None,
            },
    {
        let key: String = symbol.to_owned();
        match self.find(&key) {
            Some(i) => {
                proof {
                    self.lemma_pair_at(i as int);
                }
                Some(&self.pairs[i].store)
            },
            None => None,
        }
    }

    /// The store of `symbol` for writing, if the symbol is registered. What
    /// the caller writes to it is what the engine then holds for `symbol`;
    /// no other pair and no configuration changes.
    pub fn get_store_mut(&mut self, symbol: &str) -> (store: Option<&mut CandleStore>)
        requires
            old(self).inv(),
        ensures
            match store {
                Some(store) => {
                    &&& old(self).store(symbol@) == Some(*store)
                    &&& store.inv()
                    &&& final(self).store(symbol@) == Some(*final(store))
                    &&& forall|other: Seq<char>|
                        other != symbol@ ==> #[trigger] final(self).store(other) == old(
                            self,
                        ).store(other)
                    &&& forall|other: Seq<char>| #[trigger]
                        final(self).config(other) == old(self).config(other)
                    &&& final(store).inv() ==> final(self).inv()
                },
                None => old(self).store(symbol@) is None && *final(self) == *old(self),
            },
    {
        let key: String = symbol.to_owned();
        match self.find(&key) {
            Some(i) => {
                proof {
                    self.lemma_pair_at(i as int);
                }
                let store = &mut self.pairs[i].store;
                proof {
                    let after = after_borrow(*self);
                    assert forall|j: int| 0 <= j < after.pairs.len() implies #[trigger]
                        after.pairs[j].config == old(self).pairs[j].config && (j != i
                        ==> after.pairs[j].store == old(self).pairs[j].store) by {}
                    assert(after.distinct());
                    after.lemma_pair_at(i as int);
                    assert(after.pairs[i as int].store == *final(store));
                    assert(final(store).inv() ==> after.inv());
                    assert forall|other: Seq<char>|
                        after.config(other) == old(self).config(other) && (other != symbol@
                            ==> after.store(other) == old(self).store(other)) by {
                        if exists|j: int| old(self).at(j, other) {
                            let j = choose|j: int| old(self).at(j, other);
                            old(self).lemma_pair_at(j);
                            assert(after.at(j, other));
                            after.lemma_pair_at(j);
                        } else if exists|j: int| after.at(j, other) {
                            let j = choose|j: int| after.at(j, other);
                            assert(old(self).at(j, other));
                        }
                    }
                }
                Some(store)
            },
            None => None,
        }
    }

    /// The configuration of `symbol`, if the symbol is registered.
    pub fn get_config(&self, symbol: &str) -> (config: Option<&TradingPairConfig>)
        requires
            self.inv(),
        ensures
            match config {
                Some(config) => self.config(symbol@) == Some(*config),
                None => self.config(symbol@) is None,
            },
    {
        let key: String = symbol.to_owned();
        match self.find(&key) {
            Some(i) => {
                proof {
                    self.lemma_pair_at(i as int);
                }
                Some(&self.pairs[i].config)
            },
            None => None,
        }
    }
}

impl TradingEngine {
    /// The UDF description of every registered pair, in the order of
    /// registration.
    pub fn get_symbols(&self) -> (all: Vec<SymbolInfo>)
        ensures
            all.len() == self.len(),
            forall|i: int| 0 <= i < all.len() ==> (#[trigger] all[i]).lists(self.config_at(i)),
    {
        let mut all: Vec<SymbolInfo> = Vec::new();
        let mut i: usize = 0;
        while i < self.pairs.len()
            invariant
                i <= self.pairs.len(),
                all.len() == i,
                forall|j: int| 0 <= j < i ==> (#[trigger] all[j]).lists(self.config_at(j)),
            decreases self.pairs.len() - i,
        {
            all.push(SymbolInfo::listed(&self.pairs[i].config));
            i = i + 1;
        }
        all
    }

    /// The contract and first block of every registered pair, in the order
    /// of registration.
    pub fn get_symbols_meta(&self) -> (all: Vec<SymbolMeta>)
        ensures
            all.len() == self.len(),
            forall|i: int|
                0 <= i < all.len() ==> (#[trigger] all[i]).describes(self.config_at(i)),
    {
        let mut all: Vec<SymbolMeta> = Vec::new();
        let mut i: usize = 0;
        while i < self.pairs.len()
            invariant
                i <= self.pairs.len(),
                all.len() == i,
                forall|j: int| 0 <= j < i ==> (#[trigger] all[j]).describes(self.config_at(j)),
            decreases self.pairs.len() - i,
        {
            all.push(SymbolMeta::of(&self.pairs[i].config));
            i = i + 1;
        }
        all
    }

    /// How many pairs are registered.
    pub fn pair_count(&self) -> (count: usize)
        ensures
            count == self.len(),
    {
        self.pairs.len()
    }

    /// The configuration of the `i`-th registered pair.
    pub fn config_of(&self, i: usize) -> (config: &TradingPairConfig)
        requires
            i < self.len(),
        ensures
            *config == self.config_at(i as int),
    {
        &self.pairs[i].config
    }

    /// The display decimals of `symbol`; [`DEFAULT_DECIMALS`] for a symbol
    /// that is not registered.
    pub fn decimals(&self, symbol: &str) -> (decimals: i32)
        requires
            self.inv(),
        ensures
            decimals == match self.config(symbol@) {
                Some(config) => config.decimals,
                None => DEFAULT_DECIMALS,
            },
    {
        match self.get_config(symbol) {
            Some(config) => config.decimals,
            None => DEFAULT_DECIMALS,
        }
    }
}

impl TradingPairConfig {
    /// A copy of this configuration.
    pub fn duplicate(&self) -> (copy: Self)
        ensures
            copy == *self,
    {
        TradingPairConfig {
            symbol: self.symbol.clone(),
            contract_id: self.contract_id.clone(),
            start_block: self.start_block,
            description: self.description.clone(),
            decimals: self.decimals,
        }
    }
}

} // verus!
