//! The per-pair ingestor as a state machine.
//!
//! The ingestor decides; whoever drives it performs. Each call of
//! [`Ingestor::step`] takes what just happened upstream (an [`IngestEvent`])
//! and answers with what to do next (an [`IngestAction`]): connect, ask for
//! the chain's latest block, request a historical range or a live stream,
//! read the next record, sleep before a retry, or stop. Records are folded
//! into the pair's candle store on the way.

use crate::indexer::order_event_handler::{
    handle_order_event, refused_among, skip_reason, trade_folded, PangeaOrderEvent, SkipReason,
};
use crate::storage::candles::CandleStore;
use crate::storage::trading_engine::TradingPairConfig;
use std::str::FromStr;
use vstd::prelude::*;

verus! {

/// The delay before the first retry, in seconds.
pub const INITIAL_RETRY_DELAY: u64 = 1;

/// The longest delay between retries, in seconds.
pub const MAX_RETRY_DELAY: u64 = 60;

/// How long a live request may take to be established, in seconds.
pub const SUBSCRIBE_TIMEOUT: u64 = 10;

/// Where an ingestor stands.
#[derive(Clone, Copy, Debug, PartialEq, Eq, Structural)]
pub enum IngestState {
    /// Created, not started.
    Init,
    /// Waiting for the session with the provider to open.
    Connect,
    /// Catching up from the cursor to the chain's head.
    Backfill,
    /// Following the live stream.
    Subscribe,
    /// Sleeping before the next connection attempt.
    Reconnect,
    /// Stopped for good.
    Shutdown,
}

/// What happened upstream since the last action.
#[derive(Debug, Clone)]
pub enum IngestEvent {
    /// The ingestor is asked to begin.
    Start,
    /// The session with the provider is open.
    Connected,
    /// The session could not be opened.
    ConnectFailed,
    /// The chain's latest block, as asked for.
    LatestBlock(i64),
    /// The requested stream is established.
    StreamOpened,
    /// The stream delivered a record.
    Record(PangeaOrderEvent),
    /// The stream delivered something that is no record.
    Undecodable,
    /// The stream came to its end.
    StreamEnded,
    /// The request or the stream failed, or the request timed out.
    StreamFailed,
    /// The retry delay has passed.
    Woke,
    /// The configured chain is not one the provider knows.
    UnknownChain,
    /// The process is shutting down.
    Shutdown,
}

/// What the driver is to do next.
#[derive(Clone, Copy, Debug, PartialEq, Eq, Structural)]
pub enum IngestAction {
    /// Open a session with the provider.
    Connect,
    /// Ask the chain for its latest block.
    FetchLatestBlock,
    /// Request the records of the blocks `from_block ..= to_block`.
    RequestHistorical { from_block: i64, to_block: i64 },
    /// Request the records from `from_block` on, without end, and give the
    /// request `timeout_secs` to be established.
    RequestLive { from_block: i64, timeout_secs: u64 },
    /// Read the next record of the stream.
    NextRecord,
    /// Sleep for `secs` seconds.
    Sleep { secs: u64 },
    /// Stop driving this ingestor.
    Stop,
}

/// What became of a record that arrived on an established stream.
#[derive(Clone, Copy, Debug, PartialEq, Eq, Structural)]
pub enum RecordFate {
    /// A trade, folded into every interval; `refused` of the nine series
    /// turned it down as out of order.
    Folded { refused: usize },
    /// No trade to fold, for the reason given.
    Skipped(SkipReason),
    /// From a block behind the cursor: passed over.
    Behind,
}

/// The answer to one event: what to do next, and what became of the
/// record if the event brought one.
#[derive(Clone, Copy, Debug, PartialEq, Eq, Structural)]
pub struct Step {
    /// `None` where the event has no place in the ingestor's state.
    pub action: Option<IngestAction>,
    /// `None` where the event brought no record to an established stream.
    pub fate: Option<RecordFate>,
}

/// Why a pair cannot be ingested.
#[derive(Clone, Copy, Debug, PartialEq, Eq, Structural)]
pub enum ConfigError {
    /// The contract id is not the hex form of a 32-byte identifier.
    InvalidContractId,
}

/// The ingestor of one pair: its identity, its cursor and its place in the
/// connect, backfill, subscribe and reconnect cycle.
pub struct Ingestor {
    symbol: String,
    contract_id: [u8; 32],
    start_block: i64,
    cursor: IngestCursor,
    retry_delay: u64,
    state: IngestState,
    backfilled: bool,
    target: Option<i64>,
    streaming: bool,
}

/// The watermark of one pair: the highest block folded so far. It only
/// moves forward.
#[derive(Clone, Copy, Debug)]
pub struct IngestCursor {
    last_processed_block: i64,
}

/// What an ingestor is, as plain values.
pub struct IngestorModel {
    pub symbol: Seq<char>,
    pub contract_id: Seq<u8>,
    pub start_block: i64,
    /// The highest block folded so far; `start_block` at first.
    pub cursor: i64,
    /// The seconds to sleep after the next failure.
    pub retry_delay: u64,
    pub state: IngestState,
    /// Whether a backfill has run to its end.
    pub backfilled: bool,
    /// The last block of the backfill under way.
    pub target: Option<i64>,
    /// Whether the stream of the current state is established.
    pub streaming: bool,
}

/// The block after `block`; `block` itself at the end of the range.
pub open spec fn following_block(block: i64) -> i64 {
    if block < i64::MAX {
        (block + 1) as i64
    } else {
        block
    }
}

/// The retry delay after one more failure: doubled, at most
/// [`MAX_RETRY_DELAY`].
pub open spec fn backed_off(delay: u64) -> u64 {
    if delay >= 30 {
        MAX_RETRY_DELAY
    } else {
        (2 * delay) as u64
    }
}

/// The cursor after a record of `block_number`: cursors only move forward.
pub open spec fn advanced(cursor: i64, block_number: i64) -> i64 {
    if block_number > cursor {
        block_number
    } else {
        cursor
    }
}

impl IngestorModel {
    /// What holds of every ingestor: the retry delay is between one second
    /// and a minute, a stream is only established while backfilling or
    /// subscribed, and a backfill that streams knows its last block.
    pub open spec fn wf(self) -> bool {
        &&& INITIAL_RETRY_DELAY <= self.retry_delay <= MAX_RETRY_DELAY
        &&& self.contract_id.len() == 32
        &&& self.streaming ==> self.state == IngestState::Backfill || self.state
            == IngestState::Subscribe
        &&& self.streaming && self.state == IngestState::Backfill ==> self.target is Some
    }

    /// Whether the ingestor reads records: a stream is established.
    pub open spec fn reads(self) -> bool {
        self.streaming && (self.state == IngestState::Backfill || self.state
            == IngestState::Subscribe)
    }

    /// Whether a record of `block_number` is folded: the ingestor reads and
    /// the record is not behind the cursor.
    pub open spec fn admits(self, block_number: i64) -> bool {
        self.reads() && block_number >= self.cursor
    }

    /// The ingestor after a failure: asleep before the next attempt.
    pub open spec fn failed(self) -> IngestorModel {
        IngestorModel {
            state: IngestState::Reconnect,
            retry_delay: backed_off(self.retry_delay),
            target: None,
            streaming: false,
            ..self
        }
    }

    /// The ingestor once its live request is to be issued.
    pub open spec fn subscribing(self) -> IngestorModel {
        IngestorModel { state: IngestState::Subscribe, target: None, streaming: false, ..self }
    }

    /// The ingestor after `event`.
    pub open spec fn next(self, event: IngestEvent) -> IngestorModel {
        match (self.state, event) {
            (_, IngestEvent::Shutdown) | (_, IngestEvent::UnknownChain) => IngestorModel {
                state: IngestState::Shutdown,
                target: None,
                streaming: false,
                ..self
            },
            (IngestState::Init, IngestEvent::Start) => IngestorModel {
                state: IngestState::Connect,
                ..self
            },
            (IngestState::Connect, IngestEvent::Connected) => if self.backfilled {
                self.subscribing()
            } else {
                IngestorModel {
                    state: IngestState::Backfill,
                    target: None,
                    streaming: false,
                    ..self
                }
            },
            (IngestState::Connect, IngestEvent::ConnectFailed) => self.failed(),
            (IngestState::Backfill, IngestEvent::LatestBlock(latest)) => if self.target is None {
                IngestorModel { target: Some(latest), ..self }
            } else {
                self
            },
            (IngestState::Backfill, IngestEvent::StreamOpened) => if self.target is Some
                && !self.streaming {
                IngestorModel { streaming: true, retry_delay: INITIAL_RETRY_DELAY, ..self }
            } else {
                self
            },
            (IngestState::Subscribe, IngestEvent::StreamOpened) => if !self.streaming {
                IngestorModel { streaming: true, retry_delay: INITIAL_RETRY_DELAY, ..self }
            } else {
                self
            },
            (IngestState::Backfill, IngestEvent::Record(record)) | (
                IngestState::Subscribe,
                IngestEvent::Record(record),
            ) => if self.streaming {
                IngestorModel { cursor: advanced(self.cursor, record.block_number), ..self }
            } else {
                self
            },
            (IngestState::Backfill, IngestEvent::StreamEnded) => if self.streaming {
                IngestorModel {
                    backfilled: true,
                    cursor: advanced(self.cursor, self.target.unwrap()),
                    ..self
                }.subscribing()
            } else {
                self
            },
            (IngestState::Subscribe, IngestEvent::StreamEnded) => self.failed(),
            (IngestState::Backfill, IngestEvent::StreamFailed) | (
                IngestState::Subscribe,
                IngestEvent::StreamFailed,
            ) => self.failed(),
            (IngestState::Reconnect, IngestEvent::Woke) => IngestorModel {
                state: IngestState::Connect,
                ..self
            },
            _ => self,
        }
    }

    /// What the driver is told after `event`, or `None` where the event
    /// has no place in the ingestor's state and is passed over.
    pub open spec fn answer(self, event: IngestEvent) -> Option<IngestAction> {
        match (self.state, event) {
            (_, IngestEvent::Shutdown) | (_, IngestEvent::UnknownChain) => Some(
                IngestAction::Stop,
            ),
            (IngestState::Shutdown, _) => Some(IngestAction::Stop),
            (IngestState::Init, IngestEvent::Start) => Some(IngestAction::Connect),
            (IngestState::Connect, IngestEvent::Connected) => if self.backfilled {
                Some(
                    IngestAction::RequestLive {
                        from_block: following_block(self.cursor),
                        timeout_secs: SUBSCRIBE_TIMEOUT,
                    },
                )
            } else {
                Some(IngestAction::FetchLatestBlock)
            },
            (IngestState::Connect, IngestEvent::ConnectFailed) => Some(
                IngestAction::Sleep { secs: self.retry_delay },
            ),
            (IngestState::Backfill, IngestEvent::LatestBlock(latest)) => if self.target is None {
                Some(IngestAction::RequestHistorical { from_block: self.cursor, to_block: latest })
            } else {
                None
            },
            (IngestState::Backfill, IngestEvent::StreamOpened) => if self.target is Some
                && !self.streaming {
                Some(IngestAction::NextRecord)
            } else {
                None
            },
            (IngestState::Subscribe, IngestEvent::StreamOpened) => if !self.streaming {
                Some(IngestAction::NextRecord)
            } else {
                None
            },
            (IngestState::Backfill, IngestEvent::Record(_)) | (
                IngestState::Subscribe,
                IngestEvent::Record(_),
            ) | (IngestState::Backfill, IngestEvent::Undecodable) | (
                IngestState::Subscribe,
                IngestEvent::Undecodable,
            ) => if self.streaming {
                Some(IngestAction::NextRecord)
            } else {
                None
            },
            (IngestState::Backfill, IngestEvent::StreamEnded) => if self.streaming {
                Some(
                    IngestAction::RequestLive {
                        from_block: following_block(
                            advanced(self.cursor, self.target.unwrap()),
                        ),
                        timeout_secs: SUBSCRIBE_TIMEOUT,
                    },
                )
            } else {
                None
            },
            (IngestState::Subscribe, IngestEvent::StreamEnded) => Some(
                IngestAction::Sleep { secs: self.retry_delay },
            ),
            (IngestState::Backfill, IngestEvent::StreamFailed) | (
                IngestState::Subscribe,
                IngestEvent::StreamFailed,
            ) => Some(IngestAction::Sleep { secs: self.retry_delay }),
            (IngestState::Reconnect, IngestEvent::Woke) => Some(IngestAction::Connect),
            _ => None,
        }
    }

    /// The ingestor after each of `events` in turn.
    pub open spec fn run(self, events: Seq<IngestEvent>) -> IngestorModel
        decreases events.len(),
    {
        if events.len() == 0 {
            self
        } else {
            self.run(events.drop_last()).next(events.last())
        }
    }
}

/// What becomes of `record` when it reaches an ingestor that reads, with
/// its cursor at `cursor` and its store as `store` says.
pub open spec fn record_fate(
    cursor: i64,
    store: CandleStore,
    symbol: Seq<char>,
    record: PangeaOrderEvent,
) -> RecordFate {
    if record.block_number < cursor {
        RecordFate::Behind
    } else {
        match skip_reason(record) {
            Some(reason) => RecordFate::Skipped(reason),
            None => RecordFate::Folded {
                refused: refused_among(store, symbol, record.block_timestamp, 9) as usize,
            },
        }
    }
}

/// What a record does to the store of the ingestor that admits it: a trade
/// is folded into every interval of the symbol, anything else changes
/// nothing.
pub open spec fn record_applied(
    before: CandleStore,
    after: CandleStore,
    symbol: Seq<char>,
    record: PangeaOrderEvent,
) -> bool {
    if skip_reason(record) is None {
        trade_folded(
            before,
            after,
            symbol,
            record.price.unwrap(),
            record.amount.unwrap(),
            record.block_timestamp,
        )
    } else {
        after == before
    }
}

/// No event moves the cursor back, and no event breaks what holds of every
/// ingestor.
pub proof fn lemma_next_keeps_wf(model: IngestorModel, event: IngestEvent)
    requires
        model.wf(),
    ensures
        model.next(event).wf(),
        model.next(event).cursor >= model.cursor,
        model.next(event).symbol == model.symbol,
        model.next(event).contract_id == model.contract_id,
        model.next(event).start_block == model.start_block,
{
}

/// Over the whole life of an ingestor the cursor never decreases.
pub proof fn lemma_cursor_monotone(model: IngestorModel, events: Seq<IngestEvent>)
    requires
        model.wf(),
    ensures
        model.run(events).wf(),
        model.run(events).cursor >= model.cursor,
    decreases events.len(),
{
    if events.len() > 0 {
        lemma_cursor_monotone(model, events.drop_last());
        lemma_next_keeps_wf(model.run(events.drop_last()), events.last());
    }
}

/// After a failure the next sleep is twice as long, up to a minute; once a
/// stream is established it is one second again.
pub proof fn lemma_backoff(model: IngestorModel)
    requires
        model.wf(),
    ensures
        model.failed().retry_delay == if 2 * model.retry_delay <= MAX_RETRY_DELAY {
            2 * model.retry_delay
        } else {
            MAX_RETRY_DELAY as int
        },
        model.state == IngestState::Subscribe && !model.streaming ==> model.next(
            IngestEvent::StreamOpened,
        ).retry_delay == INITIAL_RETRY_DELAY,
{
}

/// What `H256::from_str` of `ethers_core` makes of a string: the 32 bytes it
/// encodes, or `None` where it is no hex form of 32 bytes.
pub uninterp spec fn h256_from_str(text: Seq<char>) -> Option<Seq<u8>>;

/// Parses the hex form of a 32-byte market identifier with
/// `ethers_core::types::H256::from_str`.
///
/// Trusted: the result is a function of the text alone, named
/// [`h256_from_str`]. Nothing more is claimed of it: which strings parse, and
/// to which bytes, is the outside parser's to say.
#[verifier::external_body]
fn parse_h256(text: &str) -> (id: Option<[u8; 32]>)
    ensures
        match id {
            Some(bytes) => h256_from_str(text@) == Some(bytes@),
            None => h256_from_str(text@) is None,
        },
{
    match ethers_core::types::H256::from_str(text) {
        Ok(hash) => Some(hash.0),
        Err(_) => None,
    }
}

/// The 32-byte market identifier that a configuration names, or the
/// reason why it names none.
pub fn market_id(config: &TradingPairConfig) -> (id: Result<[u8; 32], ConfigError>)
    ensures
        match id {
            Ok(bytes) => h256_from_str(config.contract_id@) == Some(bytes@),
            Err(error) => {
                &&& error == ConfigError::InvalidContractId
                &&& h256_from_str(config.contract_id@) is None
            },
        },
{
    match parse_h256(config.contract_id.as_str()) {
        Some(bytes) => Ok(bytes),
        None => Err(ConfigError::InvalidContractId),
    }
}

/// The position of the first configuration whose contract id names no
/// market, or `None` if every one of them does.
pub fn first_invalid(configs: &Vec<TradingPairConfig>) -> (at: Option<usize>)
    ensures
        match at {
            Some(i) => {
                &&& i < configs.len()
                &&& h256_from_str(configs[i as int].contract_id@) is None
                &&& forall|j: int|
                    0 <= j < i ==> h256_from_str(#[trigger] configs[j].contract_id@) is Some
            },
            None => forall|j: int|
                0 <= j < configs.len() ==> h256_from_str(#[trigger] configs[j].contract_id@)
                    is Some,
        },
{
    let mut i: usize = 0;
    while i < configs.len()
        invariant
            i <= configs.len(),
            forall|j: int| 0 <= j < i ==> h256_from_str(#[trigger] configs[j].contract_id@) is Some,
        decreases configs.len() - i,
    {
        if market_id(&configs[i]).is_err() {
            return Some(i);
        }
        i = i + 1;
    }
    None
}

impl View for IngestCursor {
    type V = i64;

    closed spec fn view(&self) -> i64 {
        self.last_processed_block
    }
}

impl IngestCursor {
    /// A cursor at `start_block`.
    pub fn new(start_block: i64) -> (cursor: Self)
        ensures
            cursor@ == start_block,
    {
        IngestCursor { last_processed_block: start_block }
    }

    /// The highest block folded so far.
    pub fn last_processed_block(&self) -> (block: i64)
        ensures
            block == self@,
    {
        self.last_processed_block
    }

    /// Whether a record of `block_number` is not behind the cursor.
    pub fn admits(&self, block_number: i64) -> (admitted: bool)
        ensures
            admitted == (block_number >= self@),
    {
        block_number >= self.last_processed_block
    }

    /// Moves the cursor to `block_number` if that lies ahead of it.
    pub fn advance(&mut self, block_number: i64)
        ensures
            final(self)@ == advanced(old(self)@, block_number),
            final(self)@ >= old(self)@,
    {
        if block_number > self.last_processed_block {
            self.last_processed_block = block_number;
        }
    }

    /// The first block a live request asks for.
    pub fn next_block(&self) -> (block: i64)
        ensures
            block == following_block(self@),
    {
        if self.last_processed_block < i64::MAX {
            self.last_processed_block + 1
        } else {
            self.last_processed_block
        }
    }
}

impl View for Ingestor {
    type V = IngestorModel;

    closed spec fn view(&self) -> IngestorModel {
        IngestorModel {
            symbol: self.symbol@,
            contract_id: self.contract_id@,
            start_block: self.start_block,
            cursor: self.cursor@,
            retry_delay: self.retry_delay,
            state: self.state,
            backfilled: self.backfilled,
            target: self.target,
            streaming: self.streaming,
        }
    }
}

impl Ingestor {
    /// An ingestor for the market `contract_id` under `symbol`, not yet
    /// started, with its cursor at `start_block`.
    pub fn with_market_id(symbol: &str, contract_id: [u8; 32], start_block: i64) -> (ingestor:
        Self)
        ensures
            ingestor@.wf(),
            ingestor@ == (IngestorModel {
                symbol: symbol@,
                contract_id: contract_id@,
                start_block,
                cursor: start_block,
                retry_delay: INITIAL_RETRY_DELAY,
                state: IngestState::Init,
                backfilled: false,
                target: None,
                streaming: false,
            }),
    {
        Ingestor {
            symbol: symbol.to_owned(),
            contract_id,
            start_block,
            cursor: IngestCursor::new(start_block),
            retry_delay: INITIAL_RETRY_DELAY,
            state: IngestState::Init,
            backfilled: false,
            target: None,
            streaming: false,
        }
    }

    /// An ingestor for the pair that `config` describes, or the reason why
    /// there is none: the contract id has to parse as a 32-byte identifier.
    pub fn new(config: &TradingPairConfig) -> (made: Result<Self, ConfigError>)
        ensures
            match made {
                Ok(ingestor) => {
                    &&& ingestor@.wf()
                    &&& h256_from_str(config.contract_id@) == Some(ingestor@.contract_id)
                    &&& ingestor@.symbol == config.symbol@
                    &&& ingestor@.start_block == config.start_block
                    &&& ingestor@.cursor == config.start_block
                    &&& ingestor@.retry_delay == INITIAL_RETRY_DELAY
                    &&& ingestor@.state == IngestState::Init
                    &&& !ingestor@.backfilled
                    &&& ingestor@.target is None
                    &&& !ingestor@.streaming
                },
                Err(error) => {
                    &&& error == ConfigError::InvalidContractId
                    &&& h256_from_str(config.contract_id@) is None
                },
            },
    {
        match market_id(config) {
            Ok(contract_id) => Ok(
                Ingestor::with_market_id(config.symbol.as_str(), contract_id, config.start_block),
            ),
            Err(error) => Err(error),
        }
    }

    /// The pair's symbol.
    pub fn symbol(&self) -> (symbol: &str)
        ensures
            symbol@ == self@.symbol,
    {
        self.symbol.as_str()
    }

    /// The market's 32-byte identifier.
    pub fn contract_id(&self) -> (id: [u8; 32])
        ensures
            id@ == self@.contract_id,
    {
        self.contract_id
    }

    /// The block the ingestor started from.
    pub fn start_block(&self) -> (block: i64)
        ensures
            block == self@.start_block,
    {
        self.start_block
    }

    /// The highest block folded so far.
    pub fn cursor(&self) -> (block: i64)
        ensures
            block == self@.cursor,
    {
        self.cursor.last_processed_block()
    }

    /// The seconds to sleep after the next failure.
    pub fn retry_delay(&self) -> (secs: u64)
        ensures
            secs == self@.retry_delay,
    {
        self.retry_delay
    }

    /// Where the ingestor stands.
    pub fn state(&self) -> (state: IngestState)
        ensures
            state == self@.state,
    {
        self.state
    }

    /// Puts the ingestor to sleep after a failure and returns the sleep.
    fn fail(&mut self) -> (action: IngestAction)
        requires
            old(self)@.wf(),
        ensures
            final(self)@ == old(self)@.failed(),
            action == (IngestAction::Sleep { secs: old(self)@.retry_delay }),
    {
        let secs: u64 = self.retry_delay;
        self.state = IngestState::Reconnect;
        self.retry_delay = if secs >= 30 {
            MAX_RETRY_DELAY
        } else {
            2 * secs
        };
        self.target = None;
        self.streaming = false;
        IngestAction::Sleep { secs }
    }

    /// Turns to the live stream and returns the request for it.
    fn subscribe(&mut self) -> (action: IngestAction)
        ensures
            final(self)@ == old(self)@.subscribing(),
            action == (IngestAction::RequestLive {
                from_block: following_block(old(self)@.cursor),
                timeout_secs: SUBSCRIBE_TIMEOUT,
            }),
    {
        self.state = IngestState::Subscribe;
        self.target = None;
        self.streaming = false;
        IngestAction::RequestLive {
            from_block: self.cursor.next_block(),
            timeout_secs: SUBSCRIBE_TIMEOUT,
        }
    }

    /// Takes one upstream event and answers with the next action, or with
    /// none where the event has no place in the current state and nothing
    /// changes.
    ///
    /// A record that arrives on an established stream and is not behind the
    /// cursor is folded into `store` under the ingestor's symbol, and the
    /// cursor moves to its block. A record behind the cursor is passed over.
    /// No other event touches the store.
    pub fn step(&mut self, store: &mut CandleStore, event: &IngestEvent) -> (step: Step)
        requires
            old(self)@.wf(),
            old(store).inv(),
        ensures
            final(self)@ == old(self)@.next(*event),
            step.action == old(self)@.answer(*event),
            step.fate == match *event {
                IngestEvent::Record(record) if old(self)@.reads() => Some(
                    record_fate(old(self)@.cursor, *old(store), old(self)@.symbol, record),
                ),
                _ => None,
            },
            final(self)@.wf(),
            final(self)@.cursor >= old(self)@.cursor,
            final(store).inv(),
            match *event {
                IngestEvent::Record(record) if old(self)@.admits(record.block_number) =>
                    record_applied(*old(store), *final(store), old(self)@.symbol, record),
                _ => *final(store) == *old(store),
            },
    {
        proof {
            lemma_next_keeps_wf(self@, *event);
        }
        match event {
            IngestEvent::Shutdown | IngestEvent::UnknownChain => {
                self.state = IngestState::Shutdown;
                self.target = None;
                self.streaming = false;
                return Step { action: Some(IngestAction::Stop), fate: None };
            },
            IngestEvent::Record(record) => {
                return match self.state {
                    IngestState::Backfill | IngestState::Subscribe => self.take_record(
                        store,
                        record,
                    ),
                    IngestState::Shutdown => Step { action: Some(IngestAction::Stop), fate: None },
                    _ => Step { action: None, fate: None },
                };
            },
            _ => {},
        }
        let action: Option<IngestAction> = match self.state {
            IngestState::Shutdown => Some(IngestAction::Stop),
            IngestState::Init => match event {
                IngestEvent::Start => {
                    self.state = IngestState::Connect;
                    Some(IngestAction::Connect)
                },
                _ => None,
            },
            IngestState::Connect => match event {
                IngestEvent::Connected => {
                    if self.backfilled {
                        Some(self.subscribe())
                    } else {
                        self.state = IngestState::Backfill;
                        self.target = None;
                        self.streaming = false;
                        Some(IngestAction::FetchLatestBlock)
                    }
                },
                IngestEvent::ConnectFailed => Some(self.fail()),
                _ => None,
            },
            IngestState::Backfill => match event {
                IngestEvent::LatestBlock(latest) => {
                    if self.target.is_none() {
                        self.target = Some(*latest);
                        Some(
                            IngestAction::RequestHistorical {
                                from_block: self.cursor.last_processed_block(),
                                to_block: *latest,
                            },
                        )
                    } else {
                        None
                    }
                },
                IngestEvent::StreamOpened => {
                    if self.target.is_some() && !self.streaming {
                        self.streaming = true;
                        self.retry_delay = INITIAL_RETRY_DELAY;
                        Some(IngestAction::NextRecord)
                    } else {
                        None
                    }
                },
                IngestEvent::Undecodable => {
                    if self.streaming {
                        Some(IngestAction::NextRecord)
                    } else {
                        None
                    }
                },
                IngestEvent::StreamEnded => {
                    if self.streaming {
                        let target: i64 = self.target.unwrap();
                        self.cursor.advance(target);
                        self.backfilled = true;
                        Some(self.subscribe())
                    } else {
                        None
                    }
                },
                IngestEvent::StreamFailed => Some(self.fail()),
                _ => None,
            },
            IngestState::Subscribe => match event {
                IngestEvent::StreamOpened => {
                    if !self.streaming {
                        self.streaming = true;
                        self.retry_delay = INITIAL_RETRY_DELAY;
                        Some(IngestAction::NextRecord)
                    } else {
                        None
                    }
                },
                IngestEvent::Undecodable => {
                    if self.streaming {
                        Some(IngestAction::NextRecord)
                    } else {
                        None
                    }
                },
                IngestEvent::StreamEnded | IngestEvent::StreamFailed => Some(self.fail()),
                _ => None,
            },
            IngestState::Reconnect => match event {
                IngestEvent::Woke => {
                    self.state = IngestState::Connect;
                    Some(IngestAction::Connect)
                },
                _ => None,
            },
        };
        Step { action, fate: None }
    }

    /// Folds a record that arrived while backfilling or subscribed.
    fn take_record(&mut self, store: &mut CandleStore, record: &PangeaOrderEvent) -> (step:
        Step)
        requires
            old(self)@.wf(),
            old(self)@.state == IngestState::Backfill || old(self)@.state
                == IngestState::Subscribe,
            old(store).inv(),
        ensures
            final(self)@ == old(self)@.next(IngestEvent::Record(*record)),
            step.action == old(self)@.answer(IngestEvent::Record(*record)),
            step.fate == if old(self)@.reads() {
                Some(record_fate(old(self)@.cursor, *old(store), old(self)@.symbol, *record))
            } else {
                None
            },
            final(store).inv(),
            if old(self)@.admits(record.block_number) {
                record_applied(*old(store), *final(store), old(self)@.symbol, *record)
            } else {
                *final(store) == *old(store)
            },
    {
        if !self.streaming {
            return Step { action: None, fate: None };
        }
        let fate = if self.cursor.admits(record.block_number) {
            let handled = handle_order_event(store, record, self.symbol.as_str());
            self.cursor.advance(record.block_number);
            match handled {
                Ok(refused) => RecordFate::Folded { refused },
                Err(reason) => RecordFate::Skipped(reason),
            }
        } else {
            RecordFate::Behind
        };
        Step { action: Some(IngestAction::NextRecord), fate: Some(fate) }
    }
}

} // verus!
