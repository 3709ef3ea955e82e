//! Pricing, simulation and the decision whether a hedge is sent.
//!
//! An intent is simulated in two legs before any transaction leaves the process: the payer's
//! `transfer` of the settlement asset to the merchant, and, where a route was quoted, the hedge
//! order at the venue.
use vstd::prelude::*;
use alloy::sol_types::{Revert, SolError};
use revm::database::{CacheDB, EmptyDB};
use crate::abi;
use crate::abi::{decode_order_placed, decode_transfer, encode_place_short, encode_transfer};
use crate::evm;
use crate::evm::{
    account_code_hash, empty_db, hash_means_code, transact_commit, CallTx, Run, RunView,
};
use crate::keccak;
use crate::primitives;
use crate::primitives::{bytes_equal, Address, B256};
use crate::types;
use crate::types::{Fill, IntentView, Log, LogView, PaymentIntent, PriceQuote, PriceSource, RouteQuote};

verus! {

/// The gas that each leg may use.
pub const LEG_GAS_LIMIT: u64 = 200_000;

/// The payer's nonce in the spot leg.
pub const SPOT_NONCE: u64 = 0;

/// The payer's nonce in the hedge leg, which follows the spot leg.
pub const HEDGE_NONCE: u64 = 1;

/// The age in seconds above which a price no longer supports a submission.
pub const MAX_PRICE_AGE_SECS: u64 = 30;

/// What one simulated leg did.
#[derive(Clone, Debug, PartialEq, Eq)]
pub struct LegOutcome {
    pub success: bool,
    pub gas_used: u64,
    /// The decoded `Error(string)` reason, where the leg reverted with one.
    pub revert_reason: Option<String>,
}

/// The contents of a [`LegOutcome`].
pub struct LegView {
    pub success: bool,
    pub gas_used: u64,
    pub revert_reason: Option<Seq<char>>,
}

impl View for LegOutcome {
    type V = LegView;

    open spec fn view(&self) -> LegView {
        LegView {
            success: self.success,
            gas_used: self.gas_used,
            revert_reason: text_view(self.revert_reason),
        }
    }
}

/// What the settler knows of a candidate route before any transaction is sent.
#[derive(Clone, Debug, PartialEq, Eq)]
pub struct SimulationOutcome {
    pub spot: LegOutcome,
    /// Absent where no route was quoted.
    pub hedge: Option<LegOutcome>,
    /// Whether the spot leg emitted the payer's transfer to the merchant.
    pub transfer_emitted: bool,
    /// Whether the hedge leg emitted an order for the settlement asset.
    pub hedge_acked: bool,
    /// Whether every leg that ran succeeded.
    pub atomic_success: bool,
}

/// The contents of a [`SimulationOutcome`].
pub struct OutcomeView {
    pub spot: LegView,
    pub hedge: Option<LegView>,
    pub transfer_emitted: bool,
    pub hedge_acked: bool,
    pub atomic_success: bool,
}

impl View for SimulationOutcome {
    type V = OutcomeView;

    open spec fn view(&self) -> OutcomeView {
        OutcomeView {
            spot: self.spot@,
            hedge: match self.hedge {
                Some(leg) => Some(leg@),
                None => None,
            },
            transfer_emitted: self.transfer_emitted,
            hedge_acked: self.hedge_acked,
            atomic_success: self.atomic_success,
        }
    }
}

/// A transaction that is ready to be signed.
#[derive(Clone, Debug, PartialEq, Eq)]
pub struct PreparedTx {
    pub to: Address,
    pub data: Vec<u8>,
    pub gas_limit: u64,
}

/// The contents of a [`PreparedTx`].
pub struct PreparedView {
    pub to: Seq<u8>,
    pub data: Seq<u8>,
    pub gas_limit: u64,
}

impl View for PreparedTx {
    type V = PreparedView;

    open spec fn view(&self) -> PreparedView {
        PreparedView { to: self.to@, data: self.data@, gas_limit: self.gas_limit }
    }
}

/// What an approved intent sends. Only the hedge is signed here: the spot leg is the merchant's
/// settlement, which the payer initiates.
#[derive(Clone, Debug, PartialEq, Eq)]
pub struct SubmissionPlan {
    pub intent_id: B256,
    pub hedge: PreparedTx,
}

/// The contents of a [`SubmissionPlan`].
pub struct PlanView {
    pub intent_id: Seq<u8>,
    pub hedge: PreparedView,
}

impl View for SubmissionPlan {
    type V = PlanView;

    open spec fn view(&self) -> PlanView {
        PlanView { intent_id: self.intent_id@, hedge: self.hedge@ }
    }
}

/// Why an intent is not submitted.
#[derive(Clone, Debug, PartialEq, Eq)]
pub enum RejectReason {
    /// No route was quoted.
    NoQuote,
    /// The spot leg did not succeed.
    SpotWouldRevert(Option<String>),
    /// The hedge leg did not succeed, or was not simulated.
    HedgeWouldRevert(Option<String>),
    /// The price behind the route is too old.
    PriceTooStale { age_secs: u64, max_secs: u64 },
}

/// The contents of a [`RejectReason`].
pub enum RejectView {
    NoQuote,
    SpotWouldRevert(Option<Seq<char>>),
    HedgeWouldRevert(Option<Seq<char>>),
    PriceTooStale { age_secs: u64, max_secs: u64 },
}

impl View for RejectReason {
    type V = RejectView;

    open spec fn view(&self) -> RejectView {
        match self {
            RejectReason::NoQuote => RejectView::NoQuote,
            RejectReason::SpotWouldRevert(reason) => RejectView::SpotWouldRevert(
                text_view(*reason),
            ),
            RejectReason::HedgeWouldRevert(reason) => RejectView::HedgeWouldRevert(
                text_view(*reason),
            ),
            RejectReason::PriceTooStale { age_secs, max_secs } => RejectView::PriceTooStale {
                age_secs: *age_secs,
                max_secs: *max_secs,
            },
        }
    }
}

/// What the settler decides about an intent.
#[derive(Clone, Debug, PartialEq, Eq)]
pub enum SettlerDecision {
    Submit(SubmissionPlan),
    Reject(RejectReason),
}

/// The contents of a [`SettlerDecision`].
pub enum DecisionView {
    Submit(PlanView),
    Reject(RejectView),
}

impl View for SettlerDecision {
    type V = DecisionView;

    open spec fn view(&self) -> DecisionView {
        match self {
            SettlerDecision::Submit(plan) => DecisionView::Submit(plan@),
            SettlerDecision::Reject(reason) => DecisionView::Reject(reason@),
        }
    }
}

/// The bounds of the decision.
#[derive(Clone, Copy, Debug, PartialEq, Eq)]
pub struct DecisionConfig {
    pub max_price_age_secs: u64,
}

impl Default for DecisionConfig {
    fn default() -> (cfg: Self)
        ensures
            cfg.max_price_age_secs == MAX_PRICE_AGE_SECS,
            cfg.max_price_age_secs == 30,
    {
        DecisionConfig { max_price_age_secs: MAX_PRICE_AGE_SECS }
    }
}

/// An optional text by its characters.
pub open spec fn text_view(text: Option<String>) -> Option<Seq<char>> {
    match text {
        Some(s) => Some(s@),
        None => None,
    }
}

/// The price that a trade sets: the last trade is taken as the mark.
pub open spec fn fill_quote(fill: Fill) -> PriceQuote {
    PriceQuote {
        asset: fill.asset,
        price_e8: fill.price_e8,
        timestamp: fill.timestamp,
        source: PriceSource::HlFill,
    }
}

/// The first quote for an asset.
pub open spec fn first_quote(quotes: Seq<PriceQuote>, asset: Seq<u8>) -> Option<PriceQuote>
    decreases quotes.len(),
{
    if quotes.len() == 0 {
        None
    } else if quotes[0].asset@ == asset {
        Some(quotes[0])
    } else {
        first_quote(quotes.skip(1), asset)
    }
}

/// The most recent price of each asset.
pub struct PriceBook {
    quotes: Vec<PriceQuote>,
}

impl View for PriceBook {
    type V = Map<Seq<u8>, PriceQuote>;

    closed spec fn view(&self) -> Map<Seq<u8>, PriceQuote> {
        Map::new(
            |asset: Seq<u8>| first_quote(self.quotes@, asset) is Some,
            |asset: Seq<u8>| first_quote(self.quotes@, asset)->0,
        )
    }
}

proof fn lemma_first_quote_at(quotes: Seq<PriceQuote>, asset: Seq<u8>, i: int)
    requires
        0 <= i < quotes.len(),
        quotes[i].asset@ == asset,
        forall|k: int| 0 <= k < i ==> (#[trigger] quotes[k]).asset@ != asset,
    ensures
        first_quote(quotes, asset) == Some(quotes[i]),
    decreases quotes.len(),
{
    if i > 0 {
        assert(forall|k: int| 0 <= k < i - 1 ==> #[trigger] quotes.skip(1)[k] == quotes[k + 1]);
        lemma_first_quote_at(quotes.skip(1), asset, i - 1);
    }
}

proof fn lemma_first_quote_absent(quotes: Seq<PriceQuote>, asset: Seq<u8>)
    requires
        forall|k: int| 0 <= k < quotes.len() ==> (#[trigger] quotes[k]).asset@ != asset,
    ensures
        first_quote(quotes, asset) is None,
    decreases quotes.len(),
{
    if quotes.len() > 0 {
        assert(forall|k: int|
            0 <= k < quotes.len() - 1 ==> #[trigger] quotes.skip(1)[k] == quotes[k + 1]);
        lemma_first_quote_absent(quotes.skip(1), asset);
    }
}

proof fn lemma_first_quote_update(
    quotes: Seq<PriceQuote>,
    i: int,
    quote: PriceQuote,
    asset: Seq<u8>,
)
    requires
        0 <= i < quotes.len(),
        quotes[i].asset@ == quote.asset@,
        asset != quote.asset@,
    ensures
        first_quote(quotes.update(i, quote), asset) == first_quote(quotes, asset),
    decreases quotes.len(),
{
    let updated = quotes.update(i, quote);
    if i == 0 {
        assert(updated.skip(1) =~= quotes.skip(1));
    } else {
        assert(updated.skip(1) =~= quotes.skip(1).update(i - 1, quote));
        lemma_first_quote_update(quotes.skip(1), i - 1, quote, asset);
    }
}

proof fn lemma_first_quote_push(quotes: Seq<PriceQuote>, quote: PriceQuote, asset: Seq<u8>)
    requires
        asset != quote.asset@,
    ensures
        first_quote(quotes.push(quote), asset) == first_quote(quotes, asset),
    decreases quotes.len(),
{
    if quotes.len() > 0 {
        assert(quotes.push(quote).skip(1) =~= quotes.skip(1).push(quote));
        lemma_first_quote_push(quotes.skip(1), quote, asset);
    } else {
        reveal_with_fuel(first_quote, 2);
        assert(quotes.push(quote).skip(1) =~= Seq::<PriceQuote>::empty());
    }
}

impl PriceBook {
    /// Whether no asset is priced twice.
    pub closed spec fn wf(&self) -> bool {
        forall|i: int, j: int|
            0 <= i < j < self.quotes@.len() ==> (#[trigger] self.quotes@[i]).asset@ != (
            #[trigger] self.quotes@[j]).asset@
    }

    /// A book in which nothing is priced yet.
    pub fn new() -> (book: Self)
        ensures
            book.wf(),
            book@ == Map::<Seq<u8>, PriceQuote>::empty(),
    {
        let book = PriceBook { quotes: Vec::new() };
        assert(book@ =~= Map::<Seq<u8>, PriceQuote>::empty());
        book
    }

    /// Records a trade: its price becomes the price of its asset, and no other price changes.
    pub fn record_fill(&mut self, fill: &Fill)
        ensures
            final(self)@ == old(self)@.insert(fill.asset@, fill_quote(*fill)),
            final(self)@.contains_key(fill.asset@),
            final(self)@[fill.asset@].asset == fill.asset,
            final(self)@[fill.asset@].price_e8 == fill.price_e8,
            final(self)@[fill.asset@].timestamp == fill.timestamp,
            old(self).wf() ==> final(self).wf(),
    {
        let quote = PriceQuote {
            asset: fill.asset,
            price_e8: fill.price_e8,
            timestamp: fill.timestamp,
            source: PriceSource::HlFill,
        };
        let mut i: usize = 0;
        while i < self.quotes.len()
            invariant
                i <= self.quotes@.len(),
                self.quotes@ == old(self).quotes@,
                quote == fill_quote(*fill),
                forall|k: int| 0 <= k < i ==> (#[trigger] self.quotes@[k]).asset@ != fill.asset@,
            decreases self.quotes@.len() - i,
        {
            if bytes_equal(&self.quotes[i].asset, &fill.asset) {
                self.quotes.set(i, quote);
                proof {
                    lemma_first_quote_at(self.quotes@, fill.asset@, i as int);
                    assert forall|asset: Seq<u8>| asset != fill.asset@ implies #[trigger] first_quote(
                        self.quotes@,
                        asset,
                    ) == first_quote(old(self).quotes@, asset) by {
                        lemma_first_quote_update(old(self).quotes@, i as int, quote, asset);
                    }
                    assert(self@ =~= old(self)@.insert(fill.asset@, quote));
                }
                return ;
            }
            i += 1;
        }
        self.quotes.push(quote);
        proof {
            lemma_first_quote_at(self.quotes@, fill.asset@, i as int);
            assert forall|asset: Seq<u8>| asset != fill.asset@ implies #[trigger] first_quote(
                self.quotes@,
                asset,
            ) == first_quote(old(self).quotes@, asset) by {
                lemma_first_quote_push(old(self).quotes@, quote, asset);
            }
            assert(self@ =~= old(self)@.insert(fill.asset@, quote));
        }
    }

    /// The most recent price of an asset, or `None` where none was recorded.
    pub fn get(&self, asset: &Address) -> (r: Option<PriceQuote>)
        ensures
            r == (if self@.contains_key(asset@) {
                Some(self@[asset@])
            } else {
                None
            }),
    {
        let mut i: usize = 0;
        while i < self.quotes.len()
            invariant
                i <= self.quotes@.len(),
                forall|k: int| 0 <= k < i ==> (#[trigger] self.quotes@[k]).asset@ != asset@,
            decreases self.quotes@.len() - i,
        {
            if bytes_equal(&self.quotes[i].asset, asset) {
                proof {
                    lemma_first_quote_at(self.quotes@, asset@, i as int);
                }
                return Some(self.quotes[i]);
            }
            i += 1;
        }
        proof {
            lemma_first_quote_absent(self.quotes@, asset@);
        }
        None
    }
}

impl Default for PriceBook {
    fn default() -> (book: Self)
        ensures
            book.wf(),
            book@ == Map::<Seq<u8>, PriceQuote>::empty(),
    {
        PriceBook::new()
    }
}

/// The route of an intent at a quoted price: the whole amount is hedged.
pub open spec fn route_at(
    intent: PaymentIntent,
    quote: PriceQuote,
    hedge_venue: Address,
    now: u64,
) -> RouteQuote {
    RouteQuote {
        intent_id: intent.intent_id,
        spot_asset: intent.settlement_asset,
        spot_amount: intent.settlement_amount,
        hedge_venue,
        hedge_size: intent.settlement_amount,
        price_e8: quote.price_e8,
        price_age_secs: if now >= quote.timestamp {
            (now - quote.timestamp) as u64
        } else {
            0
        },
    }
}

/// Sizes the spot and hedge legs of an intent against the price book.
///
/// `now` is the Unix time in seconds, absent where the clock stands before the epoch. There is no
/// route while no price has been observed for the settlement asset.
pub fn quote_route(
    intent: &PaymentIntent,
    prices: &PriceBook,
    hedge_venue: &Address,
    now: Option<u64>,
) -> (r: Option<RouteQuote>)
    ensures
        r == (if prices@.contains_key(intent.settlement_asset@) && now is Some {
            Some(route_at(*intent, prices@[intent.settlement_asset@], *hedge_venue, now->0))
        } else {
            None
        }),
        r matches Some(route) ==> {
            let quote = prices@[intent.settlement_asset@];
            &&& route.intent_id == intent.intent_id
            &&& route.spot_asset == intent.settlement_asset
            &&& route.spot_amount == intent.settlement_amount
            &&& route.hedge_venue == *hedge_venue
            &&& route.hedge_size == intent.settlement_amount
            &&& route.price_e8 == quote.price_e8
            &&& now->0 >= quote.timestamp ==> quote.timestamp + route.price_age_secs == now->0
            &&& now->0 < quote.timestamp ==> route.price_age_secs == 0
        },
{
    match (prices.get(&intent.settlement_asset), now) {
        (Some(quote), Some(now)) => {
            let age: u64 = if now >= quote.timestamp {
                now - quote.timestamp
            } else {
                0
            };
            Some(
                RouteQuote {
                    intent_id: intent.intent_id,
                    spot_asset: intent.settlement_asset,
                    spot_amount: intent.settlement_amount,
                    hedge_venue: *hedge_venue,
                    hedge_size: intent.settlement_amount,
                    price_e8: quote.price_e8,
                    price_age_secs: age,
                },
            )
        },
        _ => None,
    }
}

/// The spot leg: a `transfer(merchant, amount)` call from the payer to the settlement asset.
pub fn build_tx(intent: &PaymentIntent) -> (tx: CallTx)
    ensures
        tx.caller == intent.payer,
        tx.to == intent.settlement_asset,
        tx.data@ == abi::transfer_data(intent.merchant@, intent.settlement_amount@),
        tx.data@.len() == 68,
        tx.data@.subrange(0, 4) == keccak::keccak256_of(
            vstd::utf8::encode_utf8("transfer(address,uint256)"@),
        ).subrange(0, 4),
        tx.data@.subrange(16, 36) == intent.merchant@,
        tx.data@.subrange(36, 68) == intent.settlement_amount@,
        tx.gas_limit == LEG_GAS_LIMIT && tx.gas_limit == 200_000,
        tx.nonce == SPOT_NONCE && tx.nonce == 0,
{
    CallTx {
        caller: intent.payer,
        to: intent.settlement_asset,
        data: encode_transfer(&intent.merchant, &intent.settlement_amount),
        gas_limit: LEG_GAS_LIMIT,
        nonce: SPOT_NONCE,
    }
}

/// The hedge leg: a `placeShort` call from the payer to the venue, for the whole hedge size.
pub fn build_hedge_tx(payer: &Address, route: &RouteQuote, max_slippage_bps: u16) -> (tx: CallTx)
    ensures
        tx.caller == *payer,
        tx.to == route.hedge_venue,
        tx.data@ == abi::place_short_data(
            route.spot_asset@,
            route.hedge_size@,
            max_slippage_bps as nat,
        ),
        abi::order_asset(tx.data@) == route.spot_asset@,
        tx.data@.len() == 100,
        tx.data@.subrange(0, 4) == keccak::keccak256_of(
            vstd::utf8::encode_utf8("placeShort(address,uint256,uint16)"@),
        ).subrange(0, 4),
        tx.data@.subrange(16, 36) == route.spot_asset@,
        tx.data@.subrange(36, 68) == route.hedge_size@,
        primitives::be_value(tx.data@.subrange(68, 100)) == max_slippage_bps,
        tx.gas_limit == LEG_GAS_LIMIT && tx.gas_limit == 200_000,
        tx.nonce == HEDGE_NONCE && tx.nonce == 1,
{
    CallTx {
        caller: *payer,
        to: route.hedge_venue,
        data: encode_place_short(&route.spot_asset, &route.hedge_size, max_slippage_bps),
        gas_limit: LEG_GAS_LIMIT,
        nonce: HEDGE_NONCE,
    }
}

/// The reason that a revert payload states, where it is an `Error(string)`.
pub uninterp spec fn revert_reason_of(output: Seq<u8>) -> Option<Seq<char>>;

/// The most bytes of a reason that are read.
pub const MAX_REASON_LEN: usize = 0x4000_0000;

/// The payload of a revert with a reason: the selector of `Error(string)`, the offset of the text,
/// its length, and the text in UTF-8, padded with zeros to whole words.
pub open spec fn revert_payload(reason: Seq<char>) -> Seq<u8> {
    let bytes = vstd::utf8::encode_utf8(reason);
    seq![0x08u8, 0xc3u8, 0x79u8, 0xa0u8] + abi::number_word(32) + abi::number_word(bytes.len())
        + bytes + Seq::new(((32 - bytes.len() as int % 32) % 32) as nat, |i: int| 0u8)
}

/// What the payload of a reason reads back as: the reason, or nothing where it is too long.
pub open spec fn read_reason(reason: Seq<char>) -> Option<Seq<char>> {
    if vstd::utf8::encode_utf8(reason).len() <= MAX_REASON_LEN {
        Some(reason)
    } else {
        None
    }
}

/// Decodes a revert payload with `Revert::abi_decode` of alloy.
///
/// The reason depends on the payload alone. The payload of a reason gives the reason back, or none
/// where the text is longer than [`MAX_REASON_LEN`]. One that does not start with the selector of
/// `Error(string)` has none. What the reason of any other payload is, is left to the name
/// [`revert_reason_of`].
#[verifier::external_body]
pub(crate) fn decode_revert_reason(output: &[u8]) -> (reason: Option<String>)
    ensures
        text_view(reason) == revert_reason_of(output@),
        output@.len() < 4 || output@.take(4) != seq![0x08u8, 0xc3u8, 0x79u8, 0xa0u8] ==> reason
            is None,
        forall|s: Seq<char>|
            output@ == #[trigger] revert_payload(s) ==> text_view(reason) == read_reason(s),
{
    Revert::abi_decode(output).ok().map(|revert| revert.reason)
}

/// How one leg ran: whether the account that it calls has code, and the run.
#[derive(Clone, Debug, PartialEq, Eq)]
pub struct LegRun {
    pub code: bool,
    pub run: Run,
}

/// The contents of a [`LegRun`].
pub struct LegRunView {
    pub code: bool,
    pub run: RunView,
}

impl View for LegRun {
    type V = LegRunView;

    open spec fn view(&self) -> LegRunView {
        LegRunView { code: self.code, run: self.run@ }
    }
}

impl LegRunView {
    /// Whether the leg did something and did not fail. A call to an account without code returns
    /// without having done anything, so it does not count as a success.
    pub open spec fn succeeded(self) -> bool {
        self.code && self.run.success
    }
}

/// What the run of a leg says: only code that reverted gives a reason.
pub open spec fn leg_of(leg: LegRunView) -> LegView {
    LegView {
        success: leg.succeeded(),
        gas_used: leg.run.gas_used,
        revert_reason: match leg.run.output {
            Some(output) if leg.code && !leg.run.success => revert_reason_of(output),
            _ => None,
        },
    }
}

/// Whether a log is a transfer between these two accounts.
pub open spec fn is_transfer(log: LogView, from: Seq<u8>, to: Seq<u8>) -> bool {
    abi::transfer_of(log) matches Ok(t) && t.0 == from && t.1 == to
}

/// Whether a log acknowledges an order for an asset.
pub open spec fn is_order(log: LogView, asset: Seq<u8>) -> bool {
    abi::order_placed_of(log) matches Ok(o) && o.1 == asset
}

/// Whether any log is a transfer between these two accounts.
pub open spec fn any_transfer(logs: Seq<LogView>, from: Seq<u8>, to: Seq<u8>) -> bool {
    exists|i: int| 0 <= i < logs.len() && is_transfer(#[trigger] logs[i], from, to)
}

/// Whether any log acknowledges an order for an asset.
pub open spec fn any_order(logs: Seq<LogView>, asset: Seq<u8>) -> bool {
    exists|i: int| 0 <= i < logs.len() && is_order(#[trigger] logs[i], asset)
}

/// What the runs of the two legs say of an intent. The logs of a leg that failed do not count.
pub open spec fn outcome_of(
    spot: LegRunView,
    hedge: Option<LegRunView>,
    intent: IntentView,
) -> OutcomeView {
    OutcomeView {
        spot: leg_of(spot),
        hedge: match hedge {
            Some(leg) => Some(leg_of(leg)),
            None => None,
        },
        transfer_emitted: spot.succeeded() && any_transfer(
            spot.run.logs,
            intent.payer,
            intent.merchant,
        ),
        hedge_acked: match hedge {
            Some(leg) => leg.succeeded() && any_order(leg.run.logs, intent.settlement_asset),
            None => false,
        },
        atomic_success: spot.succeeded() && match hedge {
            Some(leg) => leg.succeeded(),
            None => true,
        },
    }
}

/// Whether any log is a transfer between these two accounts.
fn find_transfer(logs: &Vec<Log>, from: &Address, to: &Address) -> (r: bool)
    ensures
        r == any_transfer(types::log_views(logs@), from@, to@),
{
    let ghost views = types::log_views(logs@);
    let mut i: usize = 0;
    while i < logs.len()
        invariant
            i <= logs@.len(),
            views == types::log_views(logs@),
            forall|k: int| 0 <= k < i ==> !is_transfer(#[trigger] views[k], from@, to@),
        decreases logs@.len() - i,
    {
        assert(views[i as int] == logs@[i as int]@);
        match decode_transfer(&logs[i]) {
            Ok(t) => {
                if bytes_equal(&t.from, from) && bytes_equal(&t.to, to) {
                    return true;
                }
            },
            Err(_) => {},
        }
        i += 1;
    }
    false
}

/// Whether any log acknowledges an order for an asset.
pub fn find_order(logs: &Vec<Log>, asset: &Address) -> (r: bool)
    ensures
        r == any_order(types::log_views(logs@), asset@),
{
    let ghost views = types::log_views(logs@);
    let mut i: usize = 0;
    while i < logs.len()
        invariant
            i <= logs@.len(),
            views == types::log_views(logs@),
            forall|k: int| 0 <= k < i ==> !is_order(#[trigger] views[k], asset@),
        decreases logs@.len() - i,
    {
        assert(views[i as int] == logs@[i as int]@);
        match decode_order_placed(&logs[i]) {
            Ok(o) => {
                if bytes_equal(&o.asset, asset) {
                    return true;
                }
            },
            Err(_) => {},
        }
        i += 1;
    }
    false
}

/// What the run of a leg says.
pub fn decode_leg(leg: &LegRun) -> (r: LegOutcome)
    ensures
        r@ == leg_of(leg@),
        r.success <==> leg.code && leg.run.success,
        r.gas_used == leg.run.gas_used,
        leg.run.output matches Some(output) ==> leg.code && !leg.run.success ==> text_view(
            r.revert_reason,
        ) == revert_reason_of(output@),
        r.revert_reason is Some ==> leg.code && !leg.run.success && leg.run.output is Some,
        forall|s: Seq<char>|
            leg.code && !leg.run.success && leg@.run.output == Some(#[trigger] revert_payload(s))
                ==> text_view(r.revert_reason) == read_reason(s),
{
    let revert_reason: Option<String> = match &leg.run.output {
        Some(output) => if leg.code && !leg.run.success {
            decode_revert_reason(output.as_slice())
        } else {
            None
        },
        None => None,
    };
    LegOutcome { success: leg.code && leg.run.success, gas_used: leg.run.gas_used, revert_reason }
}

/// What the runs of the two legs say of an intent.
pub fn decode_outcome(spot: &LegRun, hedge: Option<&LegRun>, intent: &PaymentIntent) -> (outcome:
    SimulationOutcome)
    ensures
        outcome@ == outcome_of(
            spot@,
            match hedge {
                Some(leg) => Some(leg@),
                None => None,
            },
            intent@,
        ),
        outcome.spot.success <==> spot.code && spot.run.success,
        outcome.hedge is Some <==> hedge is Some,
        hedge matches Some(leg) ==> (outcome.hedge->0.success <==> leg.code && leg.run.success),
        outcome.atomic_success <==> spot.code && spot.run.success && (hedge matches Some(leg)
            ==> leg.code && leg.run.success),
        outcome.transfer_emitted <==> spot.code && spot.run.success && any_transfer(
            types::log_views(spot.run.logs@),
            intent.payer@,
            intent.merchant@,
        ),
        hedge is None ==> !outcome.hedge_acked,
        hedge matches Some(leg) ==> (outcome.hedge_acked <==> leg.code && leg.run.success
            && any_order(types::log_views(leg.run.logs@), intent.settlement_asset@)),
{
    let spot_success: bool = spot.code && spot.run.success;
    let transfer_emitted: bool = spot_success && find_transfer(
        &spot.run.logs,
        &intent.payer,
        &intent.merchant,
    );
    match hedge {
        Some(leg) => {
            let hedge_success: bool = leg.code && leg.run.success;
            SimulationOutcome {
                spot: decode_leg(spot),
                hedge: Some(decode_leg(leg)),
                transfer_emitted,
                hedge_acked: hedge_success && find_order(
                    &leg.run.logs,
                    &intent.settlement_asset,
                ),
                atomic_success: spot_success && hedge_success,
            }
        },
        None => SimulationOutcome {
            spot: decode_leg(spot),
            hedge: None,
            transfer_emitted,
            hedge_acked: false,
            atomic_success: spot_success,
        },
    }
}

/// How the spot leg of an intent runs over some accounts, and the accounts that it leaves.
pub open spec fn spot_run(accounts: Map<Seq<u8>, Seq<u8>>, intent: IntentView) -> (
    Result<RunView, Seq<char>>,
    Map<Seq<u8>, Seq<u8>>,
) {
    evm::committed_run(
        accounts,
        intent.payer,
        intent.settlement_asset,
        abi::transfer_data(intent.merchant, intent.settlement_amount),
        LEG_GAS_LIMIT,
        SPOT_NONCE,
    )
}

/// How the hedge leg of an intent runs over some accounts, and the accounts that it leaves.
pub open spec fn hedge_run(
    accounts: Map<Seq<u8>, Seq<u8>>,
    intent: IntentView,
    route: RouteQuote,
) -> (Result<RunView, Seq<char>>, Map<Seq<u8>, Seq<u8>>) {
    evm::committed_run(
        accounts,
        intent.payer,
        route.hedge_venue@,
        abi::place_short_data(route.spot_asset@, route.hedge_size@, intent.max_slippage_bps),
        LEG_GAS_LIMIT,
        HEDGE_NONCE,
    )
}

/// A run as that of a leg, where the call was valid.
pub open spec fn as_leg(code: bool, run: Result<RunView, Seq<char>>) -> Result<
    LegRunView,
    Seq<char>,
> {
    match run {
        Ok(run) => Ok(LegRunView { code, run }),
        Err(e) => Err(e),
    }
}

/// How the spot leg of an intent goes over some accounts.
pub open spec fn spot_leg(accounts: Map<Seq<u8>, Seq<u8>>, intent: IntentView) -> Result<
    LegRunView,
    Seq<char>,
> {
    as_leg(evm::has_code(accounts, intent.settlement_asset), spot_run(accounts, intent).0)
}

/// How the hedge leg of an intent goes over some accounts.
pub open spec fn hedge_leg(
    accounts: Map<Seq<u8>, Seq<u8>>,
    intent: IntentView,
    route: RouteQuote,
) -> Result<LegRunView, Seq<char>> {
    as_leg(evm::has_code(accounts, route.hedge_venue@), hedge_run(accounts, intent, route).0)
}

/// What the legs of an intent give over some accounts: the outcome, or the reason of the first
/// leg that is no valid call. The hedge leg runs over the accounts that the spot leg left.
pub open spec fn legs_of(
    accounts: Map<Seq<u8>, Seq<u8>>,
    intent: IntentView,
    route: Option<RouteQuote>,
) -> Result<OutcomeView, Seq<char>> {
    match spot_leg(accounts, intent) {
        Err(e) => Err(e),
        Ok(spot) => match route {
            None => Ok(outcome_of(spot, None, intent)),
            Some(route) => match hedge_leg(spot_run(accounts, intent).1, intent, route) {
                Err(e) => Err(e),
                Ok(hedge) => Ok(outcome_of(spot, Some(hedge), intent)),
            },
        },
    }
}

/// The outcome or the failure of a simulation by its contents.
pub open spec fn simulation_view(r: Result<SimulationOutcome, String>) -> Result<
    OutcomeView,
    Seq<char>,
> {
    match r {
        Ok(outcome) => Ok(outcome@),
        Err(e) => Err(e@),
    }
}

/// Whether a simulation reports that nothing was done: every leg failed without a reason, and
/// nothing was emitted.
pub open spec fn no_leg_succeeds(outcome: OutcomeView) -> bool {
    &&& !outcome.spot.success && outcome.spot.revert_reason is None
    &&& outcome.hedge matches Some(leg) ==> !leg.success && leg.revert_reason is None
    &&& !outcome.transfer_emitted && !outcome.hedge_acked && !outcome.atomic_success
}

/// How a leg went by its contents.
pub open spec fn leg_view(leg: Result<LegRun, String>) -> Result<LegRunView, Seq<char>> {
    match leg {
        Ok(leg) => Ok(leg@),
        Err(e) => Err(e@),
    }
}

/// Runs one call as a leg and keeps what it does to the accounts.
fn run_call(db: &mut CacheDB<EmptyDB>, tx: CallTx) -> (r: Result<LegRun, String>)
    ensures
        leg_view(r) == as_leg(
            evm::has_code(evm::accounts_of(*old(db)), tx.to@),
            evm::committed_run(
                evm::accounts_of(*old(db)),
                tx.caller@,
                tx.to@,
                tx.data@,
                tx.gas_limit,
                tx.nonce,
            ).0,
        ),
        evm::accounts_of(*final(db)) == evm::committed_run(
            evm::accounts_of(*old(db)),
            tx.caller@,
            tx.to@,
            tx.data@,
            tx.gas_limit,
            tx.nonce,
        ).1,
        r matches Ok(leg) ==> leg.run.gas_used <= tx.gas_limit,
        evm::is_codeless(evm::accounts_of(*old(db))) ==> evm::is_codeless(
            evm::accounts_of(*final(db)),
        ),
        evm::is_codeless(evm::accounts_of(*old(db))) && evm::nonce_of(
            evm::accounts_of(*old(db)),
            tx.caller@,
        ) == tx.nonce && tx.nonce < u64::MAX && evm::gas_fits(tx.data@, tx.gas_limit) ==> r is Ok,
        evm::is_codeless(evm::accounts_of(*old(db))) && r is Ok ==> evm::nonce_of(
            evm::accounts_of(*final(db)),
            tx.caller@,
        ) == tx.nonce + 1,
{
    let hash: Option<B256> = account_code_hash(db, &tx.to);
    let code: bool = match &hash {
        Some(h) => hash_means_code(Some(h)),
        None => hash_means_code(None),
    };
    match transact_commit(db, tx.caller, tx.to, tx.data, tx.gas_limit, tx.nonce) {
        Ok(run) => Ok(LegRun { code, run }),
        Err(e) => Err(e),
    }
}

/// A simulation on its way: which calls have to run, one after the other, and what came of those
/// that ran. The hedge leg comes after the spot leg, and only where a route was quoted; a leg that
/// could not run ends the simulation.
#[derive(Clone, Debug, PartialEq, Eq)]
pub struct Simulation {
    pub intent: PaymentIntent,
    pub route: Option<RouteQuote>,
    pub spot: Option<LegRun>,
    pub hedge: Option<LegRun>,
    pub failure: Option<String>,
}

/// The contents of a [`Simulation`].
pub struct SimulationView {
    pub intent: IntentView,
    pub route: Option<RouteQuote>,
    pub spot: Option<LegRunView>,
    pub hedge: Option<LegRunView>,
    pub failure: Option<Seq<char>>,
}

/// An optional leg by its contents.
pub open spec fn leg_run_view(leg: Option<LegRun>) -> Option<LegRunView> {
    match leg {
        Some(leg) => Some(leg@),
        None => None,
    }
}

impl View for Simulation {
    type V = SimulationView;

    open spec fn view(&self) -> SimulationView {
        SimulationView {
            intent: self.intent@,
            route: self.route,
            spot: leg_run_view(self.spot),
            hedge: leg_run_view(self.hedge),
            failure: text_view(self.failure),
        }
    }
}

/// A simulation of which nothing ran.
pub open spec fn unstarted(intent: IntentView, route: Option<RouteQuote>) -> SimulationView {
    SimulationView { intent, route, spot: None, hedge: None, failure: None }
}

impl SimulationView {
    /// The call that has to run next, where one is left.
    pub open spec fn next_call(self) -> Option<evm::CallView> {
        if self.failure is Some {
            None
        } else if self.spot is None {
            Some(
                evm::CallView {
                    caller: self.intent.payer,
                    to: self.intent.settlement_asset,
                    data: abi::transfer_data(self.intent.merchant, self.intent.settlement_amount),
                    gas_limit: LEG_GAS_LIMIT,
                    nonce: SPOT_NONCE,
                },
            )
        } else if self.route is Some && self.hedge is None {
            Some(
                evm::CallView {
                    caller: self.intent.payer,
                    to: self.route->0.hedge_venue@,
                    data: abi::place_short_data(
                        self.route->0.spot_asset@,
                        self.route->0.hedge_size@,
                        self.intent.max_slippage_bps,
                    ),
                    gas_limit: LEG_GAS_LIMIT,
                    nonce: HEDGE_NONCE,
                },
            )
        } else {
            None
        }
    }

    /// The simulation after the call that was next. Where no call was, nothing changes.
    pub open spec fn after(self, leg: Result<LegRunView, Seq<char>>) -> SimulationView {
        if self.next_call() is None {
            self
        } else {
            match leg {
                Err(e) => SimulationView { failure: Some(e), ..self },
                Ok(leg) => if self.spot is None {
                    SimulationView { spot: Some(leg), ..self }
                } else {
                    SimulationView { hedge: Some(leg), ..self }
                },
            }
        }
    }

    /// The outcome or the failure, once no call is left.
    pub open spec fn result(self) -> Option<Result<OutcomeView, Seq<char>>> {
        if self.next_call() is Some {
            None
        } else {
            match self.failure {
                Some(e) => Some(Err(e)),
                None => Some(Ok(outcome_of(self.spot->0, self.hedge, self.intent))),
            }
        }
    }
}

impl Simulation {
    /// A simulation of which nothing ran.
    pub fn new(intent: &PaymentIntent, route: Option<&RouteQuote>) -> (sim: Self)
        ensures
            sim@ == unstarted(
                intent@,
                match route {
                    Some(route) => Some(*route),
                    None => None,
                },
            ),
    {
        let route: Option<RouteQuote> = match route {
            Some(route) => Some(*route),
            None => None,
        };
        Simulation { intent: *intent, route, spot: None, hedge: None, failure: None }
    }

    /// The call that has to run next, where one is left.
    pub fn next_call(&self) -> (r: Option<CallTx>)
        ensures
            match r {
                Some(tx) => Some(tx@),
                None => None,
            } == self@.next_call(),
            r matches Some(tx) ==> tx.data@.len() <= 100,
            self.failure is Some ==> r is None,
            self.failure is None && self.spot is None ==> r is Some && r->0.caller
                == self.intent.payer && r->0.to == self.intent.settlement_asset
                && r->0.data@.subrange(16, 36) == self.intent.merchant@ && r->0.data@.subrange(
                36,
                68,
            ) == self.intent.settlement_amount@,
            self.failure is None && self.spot is Some && self.hedge is None ==> (r is Some
                <==> self.route is Some) && (r matches Some(tx) ==> tx.caller == self.intent.payer
                && tx.to == self.route->0.hedge_venue && tx.data@.subrange(16, 36)
                == self.route->0.spot_asset@ && tx.data@.subrange(36, 68)
                == self.route->0.hedge_size@),
    {
        if self.failure.is_some() {
            return None;
        }
        if self.spot.is_none() {
            return Some(build_tx(&self.intent));
        }
        match (&self.route, &self.hedge) {
            (Some(route), None) => Some(
                build_hedge_tx(&self.intent.payer, route, self.intent.max_slippage_bps),
            ),
            _ => None,
        }
    }

    /// Takes what came of the call that was next: how the leg went, or why it could not run. Where
    /// no call was next, it is dropped.
    pub fn take(&mut self, leg: Result<LegRun, String>)
        ensures
            final(self)@ == old(self)@.after(leg_view(leg)),
            final(self).intent == old(self).intent && final(self).route == old(self).route,
            old(self).failure is None && old(self).spot is None && leg is Ok ==> final(self).spot
                == Some(leg->Ok_0) && final(self).hedge == old(self).hedge && final(self).failure
                is None,
            old(self).failure is None && old(self).spot is Some && old(self).hedge is None
                && old(self).route is Some && leg is Ok ==> final(self).hedge == Some(leg->Ok_0)
                && final(self).spot == old(self).spot && final(self).failure is None,
            old(self).failure is None && old(self).spot is None && leg is Err
                ==> final(self).failure == Some(leg->Err_0),
    {
        if self.failure.is_some() || (self.spot.is_some() && (self.route.is_none()
            || self.hedge.is_some())) {
            return ;
        }
        match leg {
            Err(e) => {
                self.failure = Some(e);
            },
            Ok(leg) => {
                if self.spot.is_none() {
                    self.spot = Some(leg);
                } else {
                    self.hedge = Some(leg);
                }
            },
        }
    }

    /// The outcome or the failure, once no call is left.
    pub fn result(&self) -> (r: Option<Result<SimulationOutcome, String>>)
        ensures
            match r {
                Some(result) => Some(simulation_view(result)),
                None => None,
            } == self@.result(),
    {
        if let Some(e) = &self.failure {
            return Some(Err(e.clone()));
        }
        match (&self.spot, &self.route, &self.hedge) {
            (None, _, _) => None,
            (Some(_), Some(_), None) => None,
            (Some(spot), _, Some(hedge)) => Some(
                Ok(decode_outcome(spot, Some(hedge), &self.intent)),
            ),
            (Some(spot), None, None) => Some(Ok(decode_outcome(spot, None, &self.intent))),
        }
    }
}

/// Runs the legs of an intent one after the other over the accounts that a database stores, the
/// hedge leg over what the spot leg left.
pub fn run_legs(db: &mut CacheDB<EmptyDB>, intent: &PaymentIntent, route: Option<&RouteQuote>) -> (r:
    Result<SimulationOutcome, String>)
    ensures
        simulation_view(r) == legs_of(
            evm::accounts_of(*old(db)),
            intent@,
            match route {
                Some(route) => Some(*route),
                None => None,
            },
        ),
        r is Ok <==> legs_of(
            evm::accounts_of(*old(db)),
            intent@,
            match route {
                Some(route) => Some(*route),
                None => None,
            },
        ) is Ok,
        r matches Ok(outcome) ==> (outcome.hedge is Some <==> route is Some) && (
        outcome.atomic_success <==> outcome.spot.success && (outcome.hedge matches Some(leg)
            ==> leg.success)),
        r matches Ok(outcome) ==> outcome.spot.gas_used <= LEG_GAS_LIMIT && (
        outcome.hedge matches Some(leg) ==> leg.gas_used <= LEG_GAS_LIMIT),
        evm::is_codeless(evm::accounts_of(*old(db))) && evm::nonce_of(
            evm::accounts_of(*old(db)),
            intent.payer@,
        ) == SPOT_NONCE ==> r is Ok && no_leg_succeeds(r->Ok_0@),
{
    let mut sim: Simulation = Simulation::new(intent, route);
    let ghost accounts = evm::accounts_of(*old(db));
    let ghost quoted = sim.route;
    loop
        invariant
            sim@.intent == intent@,
            sim@.route == quoted,
            sim.failure is None,
            sim.hedge is Some ==> sim.spot is Some && quoted is Some,
            accounts == evm::accounts_of(*old(db)),
            evm::is_codeless(accounts) ==> evm::is_codeless(evm::accounts_of(*db)),
            evm::is_codeless(accounts) && evm::nonce_of(accounts, intent.payer@) == SPOT_NONCE
                && sim.spot is Some && sim.hedge is None ==> evm::nonce_of(
                evm::accounts_of(*db),
                intent.payer@,
            ) == HEDGE_NONCE,
            quoted == match route {
                Some(route) => Some(*route),
                None => None,
            },
            sim.spot is None ==> evm::accounts_of(*db) == accounts,
            sim.spot matches Some(spot) ==> spot_leg(accounts, intent@) == Ok::<
                LegRunView,
                Seq<char>,
            >(spot@) && spot.run.gas_used <= LEG_GAS_LIMIT && (evm::is_codeless(accounts)
                ==> !spot.code),
            sim.spot is Some && sim.hedge is None ==> evm::accounts_of(*db) == spot_run(
                accounts,
                intent@,
            ).1,
            sim.hedge matches Some(hedge) ==> hedge_leg(
                spot_run(accounts, intent@).1,
                intent@,
                quoted->0,
            ) == Ok::<LegRunView, Seq<char>>(hedge@) && hedge.run.gas_used <= LEG_GAS_LIMIT && (
            evm::is_codeless(accounts) ==> !hedge.code),
        ensures
            sim@.next_call() is None,
        decreases if sim.spot is None {
            2int
        } else if sim.hedge is None {
            1
        } else {
            0
        },
    {
        match sim.next_call() {
            None => {
                break ;
            },
            Some(tx) => {
                proof {
                    evm::lemma_data_weight_bound(tx.data@);
                }
                match run_call(db, tx) {
                    Ok(leg) => sim.take(Ok(leg)),
                    Err(e) => {
                        return Err(e);
                    },
                }
            },
        }
    }
    sim.result().unwrap()
}

/// Simulates the legs of an intent on an empty in-memory state.
///
/// Nothing has code there, so every leg fails and none gives a reason: this exercises the failure
/// path without a chain.
pub fn simulate_settlement(intent: &PaymentIntent, route: Option<&RouteQuote>) -> (r: Result<
    SimulationOutcome,
    String,
>)
    ensures
        simulation_view(r) == legs_of(
            evm::no_accounts(),
            intent@,
            match route {
                Some(route) => Some(*route),
                None => None,
            },
        ),
        r is Ok,
        no_leg_succeeds(r->Ok_0@),
        r->Ok_0.spot.gas_used <= LEG_GAS_LIMIT,
        r->Ok_0.hedge matches Some(leg) ==> leg.gas_used <= LEG_GAS_LIMIT,
{
    let mut db: CacheDB<EmptyDB> = empty_db();
    run_legs(&mut db, intent, route)
}

/// The hedge that an approved intent sends along its route.
pub open spec fn plan_of(route: RouteQuote, intent: IntentView) -> PlanView {
    PlanView {
        intent_id: intent.intent_id,
        hedge: PreparedView {
            to: route.hedge_venue@,
            data: abi::place_short_data(
                route.spot_asset@,
                route.hedge_size@,
                intent.max_slippage_bps,
            ),
            gas_limit: LEG_GAS_LIMIT,
        },
    }
}

/// The decision about an intent. The checks come in this order: a route, the spot leg, the hedge
/// leg, the age of the price.
pub open spec fn decision_of(
    outcome: OutcomeView,
    route: Option<RouteQuote>,
    intent: IntentView,
    max_price_age_secs: u64,
) -> DecisionView {
    match route {
        None => DecisionView::Reject(RejectView::NoQuote),
        Some(route) => if !outcome.spot.success {
            DecisionView::Reject(RejectView::SpotWouldRevert(outcome.spot.revert_reason))
        } else if outcome.hedge is None {
            DecisionView::Reject(RejectView::HedgeWouldRevert(None))
        } else if !outcome.hedge->0.success {
            DecisionView::Reject(RejectView::HedgeWouldRevert(outcome.hedge->0.revert_reason))
        } else if route.price_age_secs > max_price_age_secs {
            DecisionView::Reject(
                RejectView::PriceTooStale {
                    age_secs: route.price_age_secs,
                    max_secs: max_price_age_secs,
                },
            )
        } else {
            DecisionView::Submit(plan_of(route, intent))
        },
    }
}

/// A copy of an optional text.
fn copy_text(text: &Option<String>) -> (r: Option<String>)
    ensures
        text_view(r) == text_view(*text),
{
    match text {
        Some(s) => Some(s.clone()),
        None => None,
    }
}

/// Decides whether the hedge of a simulated intent is sent, and what is sent.
pub fn should_submit(
    outcome: &SimulationOutcome,
    route: Option<&RouteQuote>,
    intent: &PaymentIntent,
    cfg: &DecisionConfig,
) -> (decision: SettlerDecision)
    ensures
        decision@ == decision_of(
            outcome@,
            match route {
                Some(route) => Some(*route),
                None => None,
            },
            intent@,
            cfg.max_price_age_secs,
        ),
        decision matches SettlerDecision::Submit(plan) ==> route is Some && abi::order_asset(
            plan.hedge.data@,
        ) == route->0.spot_asset@,
        decision is Submit <==> route is Some && outcome.spot.success && outcome.hedge is Some
            && outcome.hedge->0.success && route->0.price_age_secs <= cfg.max_price_age_secs,
        route is None ==> decision == SettlerDecision::Reject(RejectReason::NoQuote),
        route is Some && outcome.spot.success && outcome.hedge is Some && outcome.hedge->0.success
            && route->0.price_age_secs > cfg.max_price_age_secs ==> decision
            == SettlerDecision::Reject(
            RejectReason::PriceTooStale {
                age_secs: route->0.price_age_secs,
                max_secs: cfg.max_price_age_secs,
            },
        ),
        decision matches SettlerDecision::Submit(plan) ==> {
            &&& plan.intent_id == intent.intent_id
            &&& plan.hedge.to == route->0.hedge_venue
            &&& plan.hedge.gas_limit == 200_000
            &&& plan.hedge.data@.len() == 100
            &&& plan.hedge.data@.subrange(0, 4) == keccak::keccak256_of(
                vstd::utf8::encode_utf8("placeShort(address,uint256,uint16)"@),
            ).subrange(0, 4)
            &&& plan.hedge.data@.subrange(16, 36) == route->0.spot_asset@
            &&& plan.hedge.data@.subrange(36, 68) == route->0.hedge_size@
            &&& primitives::be_value(plan.hedge.data@.subrange(68, 100)) == intent.max_slippage_bps
        },
{
    let route: &RouteQuote = match route {
        Some(route) => route,
        None => {
            return SettlerDecision::Reject(RejectReason::NoQuote);
        },
    };
    if !outcome.spot.success {
        let reason: Option<String> = copy_text(&outcome.spot.revert_reason);
        return SettlerDecision::Reject(RejectReason::SpotWouldRevert(reason));
    }
    match &outcome.hedge {
        None => {
            return SettlerDecision::Reject(RejectReason::HedgeWouldRevert(None));
        },
        Some(leg) => {
            if !leg.success {
                let reason: Option<String> = copy_text(&leg.revert_reason);
                return SettlerDecision::Reject(RejectReason::HedgeWouldRevert(reason));
            }
        },
    }
    if route.price_age_secs > cfg.max_price_age_secs {
        return SettlerDecision::Reject(
            RejectReason::PriceTooStale {
                age_secs: route.price_age_secs,
                max_secs: cfg.max_price_age_secs,
            },
        );
    }
    let tx: CallTx = build_hedge_tx(&intent.payer, route, intent.max_slippage_bps);
    SettlerDecision::Submit(
        SubmissionPlan {
            intent_id: intent.intent_id,
            hedge: PreparedTx { to: tx.to, data: tx.data, gas_limit: tx.gas_limit },
        },
    )
}

/// The prices after a sequence of trades.
pub open spec fn recorded(fills: Seq<Fill>) -> Map<Seq<u8>, PriceQuote>
    decreases fills.len(),
{
    if fills.len() == 0 {
        Map::empty()
    } else {
        recorded(fills.drop_last()).insert(fills.last().asset@, fill_quote(fills.last()))
    }
}

/// The price of an asset is that of its last trade, whatever was traded afterwards in other
/// assets.
pub proof fn lemma_last_fill_wins(fills: Seq<Fill>, i: int)
    requires
        0 <= i < fills.len(),
        forall|k: int| i < k < fills.len() ==> (#[trigger] fills[k]).asset@ != fills[i].asset@,
    ensures
        recorded(fills).contains_key(fills[i].asset@),
        recorded(fills)[fills[i].asset@] == fill_quote(fills[i]),
    decreases fills.len(),
{
    if i < fills.len() - 1 {
        assert(fills.drop_last()[i] == fills[i]);
        assert(fills.last() == fills[fills.len() - 1]);
        lemma_last_fill_wins(fills.drop_last(), i);
    }
}

/// An asset that was never traded has no price.
pub proof fn lemma_untraded_asset_has_no_price(fills: Seq<Fill>, asset: Seq<u8>)
    requires
        forall|k: int| 0 <= k < fills.len() ==> (#[trigger] fills[k]).asset@ != asset,
    ensures
        !recorded(fills).contains_key(asset),
    decreases fills.len(),
{
    if fills.len() > 0 {
        assert(fills.last() == fills[fills.len() - 1]);
        lemma_untraded_asset_has_no_price(fills.drop_last(), asset);
    }
}

/// Trades feed quotes: an intent is quoted at the price of the last trade in its asset, aged by the
/// time since that trade.
pub proof fn lemma_quote_follows_the_last_fill(
    fills: Seq<Fill>,
    i: int,
    intent: PaymentIntent,
    hedge_venue: Address,
    now: u64,
)
    requires
        0 <= i < fills.len(),
        fills[i].asset@ == intent.settlement_asset@,
        forall|k: int|
            i < k < fills.len() ==> (#[trigger] fills[k]).asset@ != intent.settlement_asset@,
    ensures
        recorded(fills).contains_key(intent.settlement_asset@),
        ({
            let route = route_at(
                intent,
                recorded(fills)[intent.settlement_asset@],
                hedge_venue,
                now,
            );
            &&& route.price_e8 == fills[i].price_e8
            &&& route.price_age_secs == if now >= fills[i].timestamp {
                now - fills[i].timestamp
            } else {
                0
            }
        }),
{
    lemma_last_fill_wins(fills, i);
}

/// A hedge is submitted exactly where a route was quoted, both legs succeeded and the price is no
/// older than the bound.
pub proof fn lemma_submission_conditions(
    outcome: OutcomeView,
    route: Option<RouteQuote>,
    intent: IntentView,
    max_price_age_secs: u64,
)
    ensures
        decision_of(outcome, route, intent, max_price_age_secs) is Submit <==> {
            &&& route is Some
            &&& outcome.spot.success
            &&& outcome.hedge is Some
            &&& outcome.hedge->0.success
            &&& route->0.price_age_secs <= max_price_age_secs
        },
        decision_of(outcome, route, intent, max_price_age_secs) matches DecisionView::Submit(plan)
            ==> plan == plan_of(route->0, intent),
{
}

/// A simulation succeeds as a whole exactly where every leg that it ran succeeds, and it runs a
/// hedge leg exactly where a route was quoted.
pub proof fn lemma_atomic_success(
    accounts: Map<Seq<u8>, Seq<u8>>,
    intent: IntentView,
    route: Option<RouteQuote>,
)
    ensures
        legs_of(accounts, intent, route) matches Ok(outcome) ==> {
            &&& outcome.hedge is Some <==> route is Some
            &&& outcome.atomic_success <==> outcome.spot.success && (outcome.hedge is Some
                ==> outcome.hedge->0.success)
            &&& outcome.transfer_emitted ==> outcome.spot.success
            &&& outcome.hedge_acked ==> outcome.hedge is Some && outcome.hedge->0.success
        },
{
}

/// A spot leg that succeeds and emits the payer's transfer to the merchant, for any amount and
/// among any other logs, is recognised; so is a hedge leg that emits an order in the settlement
/// asset.
pub proof fn lemma_emitted_logs_are_recognised(
    spot: LegRunView,
    hedge: LegRunView,
    intent: IntentView,
    i: int,
    j: int,
    value: Seq<u8>,
    order_id: Seq<u8>,
    size: Seq<u8>,
)
    requires
        abi::intent_fits(intent),
        value.len() == 32,
        order_id.len() == 32,
        size.len() == 32,
        spot.code && spot.run.success,
        hedge.code && hedge.run.success,
        0 <= i < spot.run.logs.len(),
        0 <= j < hedge.run.logs.len(),
        spot.run.logs[i] == abi::transfer_log(intent.payer, intent.merchant, value),
        hedge.run.logs[j] == abi::order_placed_log(order_id, intent.settlement_asset, size),
    ensures
        outcome_of(spot, None, intent).transfer_emitted,
        outcome_of(spot, Some(hedge), intent).transfer_emitted,
        outcome_of(spot, Some(hedge), intent).hedge_acked,
{
    abi::lemma_transfer_log_round_trip(intent.payer, intent.merchant, value);
    abi::lemma_order_placed_log_round_trip(order_id, intent.settlement_asset, size);
    assert(is_transfer(spot.run.logs[i], intent.payer, intent.merchant));
    assert(is_order(hedge.run.logs[j], intent.settlement_asset));
}

/// A simulation whose calls run over a state gives what the legs give over that state, whatever
/// the state is and wherever it is kept: each leg is taken as it goes there, the hedge leg over
/// what the spot leg left, and a leg that cannot run is the failure of the whole.
pub proof fn lemma_simulation_follows_the_state(
    accounts: Map<Seq<u8>, Seq<u8>>,
    intent: IntentView,
    route: Option<RouteQuote>,
    hedge: Result<LegRunView, Seq<char>>,
)
    requires
        route is Some ==> hedge == hedge_leg(spot_run(accounts, intent).1, intent, route->0),
    ensures
        unstarted(intent, route).after(spot_leg(accounts, intent)).after(hedge).result() == Some(
            legs_of(accounts, intent, route),
        ),
{
}

/// A state that cannot be reached or read fails the simulation, and what comes later does not
/// change that.
pub proof fn lemma_unreadable_state_is_a_failure(
    sim: SimulationView,
    reason: Seq<char>,
    later: Result<LegRunView, Seq<char>>,
)
    requires
        sim.next_call() is Some,
    ensures
        sim.after(Err(reason)).result() == Some(Err::<OutcomeView, Seq<char>>(reason)),
        sim.after(Err(reason)).after(later) == sim.after(Err(reason)),
{
}

/// Only a simulation that succeeds as a whole is ever submitted.
pub proof fn lemma_submission_needs_atomic_success(
    accounts: Map<Seq<u8>, Seq<u8>>,
    intent: IntentView,
    route: Option<RouteQuote>,
    max_price_age_secs: u64,
)
    ensures
        legs_of(accounts, intent, route) matches Ok(outcome) ==> decision_of(
            outcome,
            route,
            intent,
            max_price_age_secs,
        ) is Submit ==> outcome.atomic_success,
{
}

/// A hedge leg changes nothing of what the spot leg reports.
pub proof fn lemma_hedge_leaves_spot(
    accounts: Map<Seq<u8>, Seq<u8>>,
    intent: IntentView,
    route: RouteQuote,
)
    ensures
        legs_of(accounts, intent, Some(route)) matches Ok(both) ==> {
            &&& legs_of(accounts, intent, None) is Ok
            &&& legs_of(accounts, intent, None)->Ok_0.spot == both.spot
            &&& legs_of(accounts, intent, None)->Ok_0.transfer_emitted == both.transfer_emitted
        },
{
}

/// The hedge covers the settlement one to one: what is sent is an order at the venue, in the
/// settlement asset, for the whole settlement amount and within the intent's slippage.
pub proof fn lemma_hedge_is_one_to_one(
    intent: PaymentIntent,
    quote: PriceQuote,
    hedge_venue: Address,
    now: u64,
)
    ensures
        route_at(intent, quote, hedge_venue, now).hedge_size == intent.settlement_amount,
        route_at(intent, quote, hedge_venue, now).spot_amount == intent.settlement_amount,
        plan_of(route_at(intent, quote, hedge_venue, now), intent@) == (PlanView {
            intent_id: intent@.intent_id,
            hedge: PreparedView {
                to: hedge_venue@,
                data: abi::place_short_data(
                    intent@.settlement_asset,
                    intent@.settlement_amount,
                    intent@.max_slippage_bps,
                ),
                gas_limit: LEG_GAS_LIMIT,
            },
        }),
{
}

/// A leg succeeded exactly where the account that it called has code and the run succeeded, whatever
/// the run returned or logged. It used the gas of the run, and only code that reverted gives a
/// reason: the one that its output states.
pub proof fn lemma_leg_reports_its_run(leg: LegRunView)
    ensures
        leg_of(leg).success <==> leg.code && leg.run.success,
        leg_of(leg).gas_used == leg.run.gas_used,
        leg.code && !leg.run.success && leg.run.output is Some ==> leg_of(leg).revert_reason
            == revert_reason_of(leg.run.output->0),
        leg_of(leg).revert_reason is Some ==> leg.code && !leg.run.success && leg.run.output is Some,
{
}

/// An outcome reports the two legs as they ran. The whole succeeded exactly where every leg that ran
/// called code that did not fail. The transfer was emitted exactly where the spot leg succeeded and
/// one of its logs, at any place among any number, is a transfer from the payer to the merchant; the
/// hedge was acknowledged exactly where the hedge leg succeeded and one of its logs is an order in
/// the settlement asset.
pub proof fn lemma_outcome_reports_both_legs(
    spot: LegRunView,
    hedge: Option<LegRunView>,
    intent: IntentView,
)
    ensures
        outcome_of(spot, hedge, intent).spot.success <==> spot.code && spot.run.success,
        outcome_of(spot, hedge, intent).spot.gas_used == spot.run.gas_used,
        outcome_of(spot, hedge, intent).spot == leg_of(spot),
        outcome_of(spot, hedge, intent).hedge is Some <==> hedge is Some,
        hedge is Some ==> outcome_of(spot, hedge, intent).hedge == Some(leg_of(hedge->0)),
        hedge is Some ==> (outcome_of(spot, hedge, intent).hedge->0.success <==> hedge->0.code
            && hedge->0.run.success),
        outcome_of(spot, hedge, intent).atomic_success <==> spot.code && spot.run.success && (hedge
            is Some ==> hedge->0.code && hedge->0.run.success),
        outcome_of(spot, hedge, intent).transfer_emitted <==> spot.code && spot.run.success && (
        exists|i: int|
            0 <= i < spot.run.logs.len() && (#[trigger] spot.run.logs[i]).topics.len() == 3
                && spot.run.logs[i].topics[0] == keccak::keccak256_of(
                vstd::utf8::encode_utf8("Transfer(address,address,uint256)"@),
            ) && spot.run.logs[i].topics[1].subrange(12, 32) == intent.payer
                && spot.run.logs[i].topics[2].subrange(12, 32) == intent.merchant
                && spot.run.logs[i].data.len() >= 32),
        outcome_of(spot, hedge, intent).hedge_acked <==> hedge is Some && hedge->0.code
            && hedge->0.run.success && (exists|i: int|
            0 <= i < hedge->0.run.logs.len() && (#[trigger] hedge->0.run.logs[i]).topics.len() == 3
                && hedge->0.run.logs[i].topics[0] == keccak::keccak256_of(
                vstd::utf8::encode_utf8("OrderPlaced(bytes32,address,uint256)"@),
            ) && hedge->0.run.logs[i].topics[2].subrange(12, 32) == intent.settlement_asset
                && hedge->0.run.logs[i].data.len() >= 32),
{
    lemma_transfers_are_found(spot.run.logs, intent.payer, intent.merchant);
    if hedge is Some {
        lemma_orders_are_found(hedge->0.run.logs, intent.settlement_asset);
    }
}

/// Logs hold a transfer between two accounts exactly where one of them, at any place, has the topics
/// of such a transfer and a word of data.
pub proof fn lemma_transfers_are_found(logs: Seq<LogView>, from: Seq<u8>, to: Seq<u8>)
    ensures
        any_transfer(logs, from, to) <==> exists|i: int|
            0 <= i < logs.len() && (#[trigger] logs[i]).topics.len() == 3 && logs[i].topics[0]
                == keccak::keccak256_of(
                vstd::utf8::encode_utf8("Transfer(address,address,uint256)"@),
            ) && logs[i].topics[1].subrange(12, 32) == from && logs[i].topics[2].subrange(12, 32)
                == to && logs[i].data.len() >= 32,
{
    if any_transfer(logs, from, to) {
        let i = choose|i: int| 0 <= i < logs.len() && is_transfer(#[trigger] logs[i], from, to);
        abi::lemma_transfers_are_read_from_the_log(logs[i]);
    }
    assert forall|i: int|
        0 <= i < logs.len() && (#[trigger] logs[i]).topics.len() == 3 && logs[i].topics[0]
            == keccak::keccak256_of(
            vstd::utf8::encode_utf8("Transfer(address,address,uint256)"@),
        ) && logs[i].topics[1].subrange(12, 32) == from && logs[i].topics[2].subrange(12, 32) == to
            && logs[i].data.len() >= 32 implies any_transfer(logs, from, to) by {
        abi::lemma_transfers_are_read_from_the_log(logs[i]);
        assert(is_transfer(logs[i], from, to));
    }
}

/// Logs hold the acknowledgement of an order in an asset exactly where one of them, at any place, has
/// the topics of such an acknowledgement and a word of data.
pub proof fn lemma_orders_are_found(logs: Seq<LogView>, asset: Seq<u8>)
    ensures
        any_order(logs, asset) <==> exists|i: int|
            0 <= i < logs.len() && (#[trigger] logs[i]).topics.len() == 3 && logs[i].topics[0]
                == keccak::keccak256_of(
                vstd::utf8::encode_utf8("OrderPlaced(bytes32,address,uint256)"@),
            ) && logs[i].topics[2].subrange(12, 32) == asset && logs[i].data.len() >= 32,
{
    if any_order(logs, asset) {
        let i = choose|i: int| 0 <= i < logs.len() && is_order(#[trigger] logs[i], asset);
        abi::lemma_orders_are_read_from_the_log(logs[i]);
    }
    assert forall|i: int|
        0 <= i < logs.len() && (#[trigger] logs[i]).topics.len() == 3 && logs[i].topics[0]
            == keccak::keccak256_of(
            vstd::utf8::encode_utf8("OrderPlaced(bytes32,address,uint256)"@),
        ) && logs[i].topics[2].subrange(12, 32) == asset && logs[i].data.len() >= 32 implies any_order(
        logs,
        asset,
    ) by {
        abi::lemma_orders_are_read_from_the_log(logs[i]);
        assert(is_order(logs[i], asset));
    }
}

/// The legs of an intent are two calls of the payer: a transfer of the settlement amount to the
/// merchant at the settlement asset, and, where there is a route, an order at the venue over the
/// accounts that the transfer left. The simulation is a failure exactly where one of them is no valid
/// call, and reports each of them otherwise.
pub proof fn lemma_legs_are_two_calls(
    accounts: Map<Seq<u8>, Seq<u8>>,
    intent: IntentView,
    route: Option<RouteQuote>,
)
    ensures
        ({
            let first = evm::committed_run(
                accounts,
                intent.payer,
                intent.settlement_asset,
                abi::transfer_data(intent.merchant, intent.settlement_amount),
                200_000,
                0,
            );
            let second = evm::committed_run(
                first.1,
                intent.payer,
                route->0.hedge_venue@,
                abi::place_short_data(
                    route->0.spot_asset@,
                    route->0.hedge_size@,
                    intent.max_slippage_bps,
                ),
                200_000,
                1,
            );
            let legs = legs_of(accounts, intent, route);
            &&& legs is Ok <==> first.0 is Ok && (route is Some ==> second.0 is Ok)
            &&& first.0 is Err ==> legs == Err::<OutcomeView, Seq<char>>(first.0->Err_0)
            &&& first.0 is Ok && route is Some && second.0 is Err ==> legs == Err::<
                OutcomeView,
                Seq<char>,
            >(second.0->Err_0)
            &&& legs is Ok ==> {
                let code = evm::code_hash_of(accounts, intent.settlement_asset);
                &&& legs->Ok_0.spot.success <==> code is Some && code->0 != keccak::keccak256_of(
                    Seq::empty(),
                ) && first.0->Ok_0.success
                &&& legs->Ok_0.spot.gas_used == first.0->Ok_0.gas_used
                &&& legs->Ok_0.hedge is Some <==> route is Some
            }
            &&& legs is Ok && route is Some ==> {
                let code = evm::code_hash_of(first.1, route->0.hedge_venue@);
                &&& legs->Ok_0.hedge->0.success <==> code is Some && code->0
                    != keccak::keccak256_of(Seq::empty()) && second.0->Ok_0.success
                &&& legs->Ok_0.hedge->0.gas_used == second.0->Ok_0.gas_used
                &&& legs->Ok_0.atomic_success <==> legs->Ok_0.spot.success
                    && legs->Ok_0.hedge->0.success
            }
            &&& legs is Ok && route is None ==> (legs->Ok_0.atomic_success
                <==> legs->Ok_0.spot.success)
        }),
{
}

/// A simulation asks for the spot transfer first, then, exactly where there is a route, for the
/// hedge order, and for nothing once a leg could not run or both are done. What it reports is what
/// the legs that it was handed amount to.
pub proof fn lemma_simulation_asks_for_each_leg(
    intent: IntentView,
    route: Option<RouteQuote>,
    spot: LegRunView,
    hedge: LegRunView,
    reason: Seq<char>,
)
    ensures
        ({
            let sim = unstarted(intent, route);
            &&& sim.next_call() == Some(
                evm::CallView {
                    caller: intent.payer,
                    to: intent.settlement_asset,
                    data: abi::transfer_data(intent.merchant, intent.settlement_amount),
                    gas_limit: 200_000,
                    nonce: 0,
                },
            )
            &&& sim.result() is None
            &&& sim.after(Err(reason)).next_call() is None
            &&& sim.after(Err(reason)).result() == Some(Err::<OutcomeView, Seq<char>>(reason))
            &&& sim.after(Ok(spot)).after(Err(reason)).result() == if route is Some {
                Some(Err::<OutcomeView, Seq<char>>(reason))
            } else {
                Some(Ok(outcome_of(spot, None, intent)))
            }
            &&& route is None ==> sim.after(Ok(spot)).next_call() is None && sim.after(
                Ok(spot),
            ).result() == Some(Ok::<OutcomeView, Seq<char>>(outcome_of(spot, None, intent)))
            &&& route is Some ==> sim.after(Ok(spot)).next_call() == Some(
                evm::CallView {
                    caller: intent.payer,
                    to: route->0.hedge_venue@,
                    data: abi::place_short_data(
                        route->0.spot_asset@,
                        route->0.hedge_size@,
                        intent.max_slippage_bps,
                    ),
                    gas_limit: 200_000,
                    nonce: 1,
                },
            ) && sim.after(Ok(spot)).result() is None && sim.after(Ok(spot)).after(
                Ok(hedge),
            ).next_call() is None && sim.after(Ok(spot)).after(Ok(hedge)).result() == Some(
                Ok::<OutcomeView, Seq<char>>(outcome_of(spot, Some(hedge), intent)),
            )
        }),
{
}

/// A trade sets the price of its asset: its own price, at its own time.
pub proof fn lemma_trades_set_the_price(fill: Fill)
    ensures
        fill_quote(fill).asset == fill.asset,
        fill_quote(fill).price_e8 == fill.price_e8,
        fill_quote(fill).timestamp == fill.timestamp,
        fill_quote(fill).source == PriceSource::HlFill,
{
}

/// A route is that of the intent: its identity, its asset, its whole amount in both legs, the venue
/// and the price that were given. The age of the price is the time since the quote, and never less
/// than nothing; a second later it is a second more.
pub proof fn lemma_route_is_of_the_intent(
    intent: PaymentIntent,
    quote: PriceQuote,
    hedge_venue: Address,
    now: u64,
)
    ensures
        ({
            let route = route_at(intent, quote, hedge_venue, now);
            &&& route.intent_id == intent.intent_id
            &&& route.spot_asset == intent.settlement_asset
            &&& route.spot_amount == intent.settlement_amount
            &&& route.hedge_venue == hedge_venue
            &&& route.hedge_size == intent.settlement_amount
            &&& route.price_e8 == quote.price_e8
            &&& now >= quote.timestamp ==> quote.timestamp + route.price_age_secs == now
            &&& now <= quote.timestamp ==> route.price_age_secs == 0
        }),
        quote.timestamp <= now < u64::MAX ==> route_at(
            intent,
            quote,
            hedge_venue,
            (now + 1) as u64,
        ).price_age_secs == route_at(intent, quote, hedge_venue, now).price_age_secs + 1,
{
}

/// A rejection names the first thing that is wrong, in this order: there is no route; the spot leg
/// failed, with its reason; the hedge leg failed or did not run, with its reason; the price is older
/// than the bound, with its age and the bound. Nothing is rejected otherwise.
pub proof fn lemma_rejections_name_the_reason(
    outcome: OutcomeView,
    route: Option<RouteQuote>,
    intent: IntentView,
    bound: u64,
)
    ensures
        route is None ==> decision_of(outcome, route, intent, bound) == DecisionView::Reject(
            RejectView::NoQuote,
        ),
        route is Some && !outcome.spot.success ==> decision_of(outcome, route, intent, bound)
            == DecisionView::Reject(RejectView::SpotWouldRevert(outcome.spot.revert_reason)),
        route is Some && outcome.spot.success && outcome.hedge is None ==> decision_of(
            outcome,
            route,
            intent,
            bound,
        ) == DecisionView::Reject(RejectView::HedgeWouldRevert(None)),
        route is Some && outcome.spot.success && outcome.hedge is Some
            && !outcome.hedge->0.success ==> decision_of(outcome, route, intent, bound)
            == DecisionView::Reject(
            RejectView::HedgeWouldRevert(outcome.hedge->0.revert_reason),
        ),
        route is Some && outcome.spot.success && outcome.hedge is Some && outcome.hedge->0.success
            && route->0.price_age_secs > bound ==> decision_of(outcome, route, intent, bound)
            == DecisionView::Reject(
            RejectView::PriceTooStale { age_secs: route->0.price_age_secs, max_secs: bound },
        ),
{
}

/// What is sent is an order at the venue of the route, under the identity of the intent, in the
/// asset and for the whole size of the route, within the slippage of the intent.
pub proof fn lemma_plan_sends_the_route(route: RouteQuote, intent: IntentView)
    requires
        intent.max_slippage_bps <= u16::MAX,
    ensures
        plan_of(route, intent).intent_id == intent.intent_id,
        plan_of(route, intent).hedge.to == route.hedge_venue@,
        plan_of(route, intent).hedge.gas_limit == 200_000,
        keccak::keccak256_of(
            vstd::utf8::encode_utf8("placeShort(address,uint256,uint16)"@),
        ).len() == 32 ==> {
            let data = plan_of(route, intent).hedge.data;
            &&& data.len() == 100
            &&& data.subrange(0, 4) == keccak::keccak256_of(
                vstd::utf8::encode_utf8("placeShort(address,uint256,uint16)"@),
            ).subrange(0, 4)
            &&& data.subrange(16, 36) == route.spot_asset@
            &&& data.subrange(36, 68) == route.hedge_size@
            &&& primitives::be_value(data.subrange(68, 100)) == intent.max_slippage_bps
        },
{
    abi::lemma_place_short_data_reads_back(
        route.spot_asset@,
        route.hedge_size@,
        intent.max_slippage_bps,
    );
    let data = plan_of(route, intent).hedge.data;
    let hash = keccak::keccak256_of(
        vstd::utf8::encode_utf8("placeShort(address,uint256,uint16)"@),
    );
    if hash.len() == 32 {
        assert(data.subrange(0, 4) =~= hash.subrange(0, 4));
    }
}

} // verus!
