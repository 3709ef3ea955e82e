//! Shared types that flow between the listener, the settler and the submitter.
use vstd::prelude::*;
use crate::primitives::{Address, B256, U256};

verus! {

/// A merchant's declared end: settle this payment, in this asset, for this amount, within this
/// slippage budget, before this deadline.
///
/// Intents are venue-agnostic. `intent_id` is the on-chain identifier that the originating
/// contract emitted, by which every later component correlates state.
#[derive(Clone, Copy, Debug, PartialEq, Eq)]
pub struct PaymentIntent {
    pub intent_id: B256,
    pub payer: Address,
    pub merchant: Address,
    pub settlement_asset: Address,
    pub settlement_amount: U256,
    pub max_slippage_bps: u16,
    pub deadline: u64,
}

/// The contents of a [`PaymentIntent`].
pub struct IntentView {
    pub intent_id: Seq<u8>,
    pub payer: Seq<u8>,
    pub merchant: Seq<u8>,
    pub settlement_asset: Seq<u8>,
    pub settlement_amount: Seq<u8>,
    pub max_slippage_bps: nat,
    pub deadline: nat,
}

impl View for PaymentIntent {
    type V = IntentView;

    open spec fn view(&self) -> IntentView {
        IntentView {
            intent_id: self.intent_id@,
            payer: self.payer@,
            merchant: self.merchant@,
            settlement_asset: self.settlement_asset@,
            settlement_amount: self.settlement_amount@,
            max_slippage_bps: self.max_slippage_bps as nat,
            deadline: self.deadline as nat,
        }
    }
}

/// A trade on the hedge venue. Prices and sizes carry eight decimals.
#[derive(Clone, Copy, Debug, PartialEq, Eq)]
pub struct Fill {
    pub trader: Address,
    pub order_id: B256,
    pub asset: Address,
    pub is_buy: bool,
    pub price_e8: u64,
    pub size_e8: u64,
    pub timestamp: u64,
}

/// The contents of a [`Fill`].
pub struct FillView {
    pub trader: Seq<u8>,
    pub order_id: Seq<u8>,
    pub asset: Seq<u8>,
    pub is_buy: bool,
    pub price_e8: nat,
    pub size_e8: nat,
    pub timestamp: nat,
}

impl View for Fill {
    type V = FillView;

    open spec fn view(&self) -> FillView {
        FillView {
            trader: self.trader@,
            order_id: self.order_id@,
            asset: self.asset@,
            is_buy: self.is_buy,
            price_e8: self.price_e8 as nat,
            size_e8: self.size_e8 as nat,
            timestamp: self.timestamp as nat,
        }
    }
}

/// Where a price came from.
#[derive(Clone, Copy, Debug, PartialEq, Eq)]
pub enum PriceSource {
    /// The last trade on the hedge venue.
    HlFill,
}

/// The most recent price of one asset.
#[derive(Clone, Copy, Debug, PartialEq, Eq)]
pub struct PriceQuote {
    pub asset: Address,
    pub price_e8: u64,
    pub timestamp: u64,
    pub source: PriceSource,
}

/// The sized spot and hedge legs of one intent at the current mark.
#[derive(Clone, Copy, Debug, PartialEq, Eq)]
pub struct RouteQuote {
    pub intent_id: B256,
    pub spot_asset: Address,
    pub spot_amount: U256,
    pub hedge_venue: Address,
    pub hedge_size: U256,
    pub price_e8: u64,
    pub price_age_secs: u64,
}

/// An event log as the chain reports it. No decision reads the emitting contract, so it is not
/// kept.
#[derive(Clone, Debug, PartialEq, Eq)]
pub struct Log {
    pub topics: Vec<B256>,
    pub data: Vec<u8>,
}

/// The contents of a [`Log`].
pub struct LogView {
    pub topics: Seq<Seq<u8>>,
    pub data: Seq<u8>,
}

impl View for Log {
    type V = LogView;

    open spec fn view(&self) -> LogView {
        LogView {
            topics: self.topics@.map_values(|t: B256| t@),
            data: self.data@,
        }
    }
}

/// A sequence of logs by their contents.
pub open spec fn log_views(logs: Seq<Log>) -> Seq<LogView> {
    logs.map_values(|log: Log| log@)
}

/// The terminal state of a submitted intent.
///
/// A revert or a timeout is an ordinary outcome, not an error of the submitter.
#[derive(Clone, Copy, Debug, PartialEq, Eq)]
pub enum SettlementResult {
    /// Nothing was broadcast; the gas of the hedge was estimated.
    DryRun { intent_id: B256, estimated_gas: u64 },
    /// The hedge was mined and succeeded.
    Confirmed {
        intent_id: B256,
        tx_hash: B256,
        block_number: u64,
        gas_used: u64,
        hedge_acked: bool,
    },
    /// The hedge was mined and reverted.
    Failed { intent_id: B256, tx_hash: B256, block_number: u64 },
    /// No receipt came within the budget.
    Timeout { intent_id: B256, tx_hash: B256, waited_secs: u64 },
}

/// A log is seen by all its topics and all its data, and a sequence of logs by each of its logs, in
/// their order.
pub proof fn lemma_logs_are_seen_whole(logs: Seq<Log>, i: int, k: int)
    requires
        0 <= i < logs.len(),
        0 <= k < logs[i].topics@.len(),
    ensures
        log_views(logs).len() == logs.len(),
        log_views(logs)[i] == logs[i]@,
        logs[i]@.data == logs[i].data@,
        logs[i]@.topics.len() == logs[i].topics@.len(),
        logs[i]@.topics[k] == logs[i].topics@[k]@,
{
}

/// An intent is seen by all its fields.
pub proof fn lemma_intents_are_seen_whole(intent: PaymentIntent)
    ensures
        intent@.intent_id == intent.intent_id@,
        intent@.payer == intent.payer@,
        intent@.merchant == intent.merchant@,
        intent@.settlement_asset == intent.settlement_asset@,
        intent@.settlement_amount == intent.settlement_amount@,
        intent@.max_slippage_bps == intent.max_slippage_bps,
        intent@.deadline == intent.deadline,
{
}

/// A trade is seen by all its fields.
pub proof fn lemma_fills_are_seen_whole(fill: Fill)
    ensures
        fill@.trader == fill.trader@,
        fill@.order_id == fill.order_id@,
        fill@.asset == fill.asset@,
        fill@.is_buy == fill.is_buy,
        fill@.price_e8 == fill.price_e8,
        fill@.size_e8 == fill.size_e8,
        fill@.timestamp == fill.timestamp,
{
}

} // verus!
