//! Broadcast and confirmation of an approved hedge.
//!
//! A submission is a small machine. Its phase says what has to be done next on the network; the
//! caller does it and hands back the event. A submitter that was built without the broadcast flag
//! only estimates gas, whatever happens later.
use vstd::prelude::*;
use vstd::string::*;
use alloy::signers::local::PrivateKeySigner;
use crate::abi;
use crate::keccak;
use crate::primitives;
use crate::primitives::{copy_bytes, Address, B256, U256};
use crate::settler;
use crate::settler::{find_order, PreparedTx, SubmissionPlan};
use crate::text;
use crate::text::trim_prefixes;
use crate::types;
use crate::types::{Log, SettlementResult};

verus! {

/// How long a submission waits for its receipt.
#[derive(Clone, Copy, Debug, PartialEq, Eq)]
pub struct Timeout {
    pub secs: u64,
    pub subsec_nanos: u32,
}

/// The budget for a receipt.
#[derive(Clone, Copy, Debug, PartialEq, Eq)]
pub struct ConfirmConfig {
    pub confirmations: u64,
    pub timeout: Timeout,
}

impl Default for ConfirmConfig {
    fn default() -> (cfg: Self)
        ensures
            cfg.confirmations == 1,
            cfg.timeout == (Timeout { secs: 60, subsec_nanos: 0 }),
    {
        ConfirmConfig { confirmations: 1, timeout: Timeout { secs: 60, subsec_nanos: 0 } }
    }
}

/// A problem of the submitter itself. What the chain does to a transaction is no such problem.
#[derive(Clone, Copy, Debug, PartialEq, Eq)]
pub enum SubmitError {
    InvalidSignerKey,
    InvalidRpcUrl,
    GasEstimation,
    Broadcast,
    /// The receipt could not be asked for or read.
    Receipt,
}

impl SubmitError {
    /// What is said of the problem.
    pub open spec fn text(&self) -> Seq<char> {
        match self {
            SubmitError::InvalidSignerKey => "invalid TELOS_SIGNER_KEY"@,
            SubmitError::InvalidRpcUrl => "invalid RPC URL"@,
            SubmitError::GasEstimation => "gas estimation failed"@,
            SubmitError::Broadcast => "broadcast failed"@,
            SubmitError::Receipt => "receipt unavailable"@,
        }
    }

    /// What is said of the problem.
    pub fn as_str(&self) -> (s: &'static str)
        ensures
            s@ == self.text(),
            s@ == match *self {
                SubmitError::InvalidSignerKey => "invalid TELOS_SIGNER_KEY"@,
                SubmitError::InvalidRpcUrl => "invalid RPC URL"@,
                SubmitError::GasEstimation => "gas estimation failed"@,
                SubmitError::Broadcast => "broadcast failed"@,
                SubmitError::Receipt => "receipt unavailable"@,
            },
    {
        match self {
            SubmitError::InvalidSignerKey => "invalid TELOS_SIGNER_KEY",
            SubmitError::InvalidRpcUrl => "invalid RPC URL",
            SubmitError::GasEstimation => "gas estimation failed",
            SubmitError::Broadcast => "broadcast failed",
            SubmitError::Receipt => "receipt unavailable",
        }
    }
}

/// The address that a private key signs for, where the text is a key.
pub uninterp spec fn signer_of(key: Seq<char>) -> Option<Seq<u8>>;

/// Whether a text is a private key: sixty-four hexadecimal digits, with or without one `0x` or
/// `0X`, whose number is neither zero nor as large as the order of the curve secp256k1.
pub open spec fn is_key(key: Seq<char>) -> bool {
    let digits = text::without_prefix(key);
    &&& digits.len() == 64
    &&& text::hex_bytes(digits) is Some
    &&& 1 <= primitives::be_value(text::hex_bytes(digits)->0)
        < 0xfffffffffffffffffffffffffffffffebaaedce6af48a03bbfd25e8cd0364141int
}

/// Reads a private key with `PrivateKeySigner::from_str` of alloy and takes its address.
///
/// Exactly the texts of [`is_key`] are keys. The address depends on the text alone and is left to
/// the name [`signer_of`].
#[verifier::external_body]
pub(crate) fn key_address(key: &str) -> (r: Option<Address>)
    ensures
        match r {
            Some(address) => signer_of(key@) == Some(address@),
            None => signer_of(key@) is None,
        },
        r is Some <==> is_key(key@),
{
    key.parse::<PrivateKeySigner>().ok().map(|signer| signer.address().into_array())
}

/// An account that signs hedges, and where it sends them.
pub struct Submitter {
    rpc_url: String,
    signer_key: String,
    signer_address: Address,
    broadcast: bool,
}

impl Clone for Submitter {
    fn clone(&self) -> (r: Self)
        ensures
            r@ == self@,
    {
        Submitter {
            rpc_url: self.rpc_url.clone(),
            signer_key: self.signer_key.clone(),
            signer_address: self.signer_address,
            broadcast: self.broadcast,
        }
    }
}

/// The contents of a [`Submitter`].
pub struct SubmitterView {
    pub rpc_url: Seq<char>,
    pub signer_key: Seq<char>,
    pub signer_address: Seq<u8>,
    pub broadcast: bool,
}

impl View for Submitter {
    type V = SubmitterView;

    closed spec fn view(&self) -> SubmitterView {
        SubmitterView {
            rpc_url: self.rpc_url@,
            signer_key: self.signer_key@,
            signer_address: self.signer_address@,
            broadcast: self.broadcast,
        }
    }
}

impl Submitter {
    /// A submitter from an HTTP RPC URL and a private key in hexadecimal, with or without `0x`.
    ///
    /// Without `broadcast` it never sends anything, whatever is asked of it later.
    pub fn new(rpc_url: String, signer_key: &str, broadcast: bool) -> (r: Result<Self, SubmitError>)
        ensures
            match r {
                Ok(submitter) => signer_of(text::without_prefixes(signer_key@)) == Some(
                    submitter@.signer_address,
                ) && submitter@ == (SubmitterView {
                    rpc_url: rpc_url@,
                    signer_key: text::without_prefixes(signer_key@),
                    signer_address: submitter@.signer_address,
                    broadcast,
                }),
                Err(e) => signer_of(text::without_prefixes(signer_key@)) is None && e
                    == SubmitError::InvalidSignerKey,
            },
            r is Ok <==> is_key(text::without_prefixes(signer_key@)),
    {
        let key: String = trim_prefixes(signer_key);
        let signer: Option<Address> = key_address(key.as_str());
        Submitter::with_signer(rpc_url, key, signer, broadcast)
    }

    /// A submitter for a key whose address was read, or the error where the text was no key.
    pub fn with_signer(
        rpc_url: String,
        signer_key: String,
        signer: Option<Address>,
        broadcast: bool,
    ) -> (r: Result<Self, SubmitError>)
        ensures
            match signer {
                Some(address) => r is Ok && r->Ok_0@ == (SubmitterView {
                    rpc_url: rpc_url@,
                    signer_key: signer_key@,
                    signer_address: address@,
                    broadcast,
                }),
                None => r == Err::<Submitter, SubmitError>(SubmitError::InvalidSignerKey),
            },
    {
        match signer {
            Some(signer_address) => Ok(
                Submitter { rpc_url, signer_key, signer_address, broadcast },
            ),
            None => Err(SubmitError::InvalidSignerKey),
        }
    }

    /// The account that signs.
    pub fn signer_address(&self) -> (r: Address)
        ensures
            r@ == self@.signer_address,
    {
        self.signer_address
    }

    /// Where transactions are sent.
    pub fn rpc_url(&self) -> (r: &str)
        ensures
            r@ == self@.rpc_url,
    {
        self.rpc_url.as_str()
    }

    /// The private key, without `0x`.
    pub fn signer_key(&self) -> (r: &str)
        ensures
            r@ == self@.signer_key,
    {
        self.signer_key.as_str()
    }

    /// Starts the submission of an approved hedge: gas is estimated, or the hedge is sent and its
    /// receipt awaited under the budget.
    pub fn submit_and_confirm(&self, plan: &SubmissionPlan, cfg: ConfirmConfig) -> (submission:
        Submission)
        ensures
            submission.intent_id == plan.intent_id,
            submission.request@ == request_of(self@.signer_address, plan.hedge@),
            submission.request.from@ == self@.signer_address,
            submission.request.to == plan.hedge.to,
            submission.request.input@ == plan.hedge.data@,
            submission.request.gas_limit == plan.hedge.gas_limit,
            submission.request.value@ == Seq::new(32, |i: int| 0u8),
            submission.asset@ == abi::order_asset(plan.hedge.data@),
            plan.hedge.data@.len() >= 36 ==> submission.asset@ == plan.hedge.data@.subrange(16, 36),
            submission.broadcast == self@.broadcast,
            submission.cfg == cfg,
            submission.phase == SubmitPhase::Connecting,
    {
        Submission {
            intent_id: plan.intent_id,
            request: build_request(&self.signer_address, &plan.hedge),
            asset: infer_asset_from_calldata(&plan.hedge),
            broadcast: self.broadcast,
            cfg,
            phase: SubmitPhase::Connecting,
        }
    }
}

/// The transaction that is estimated or sent. What it leaves out is filled in by the provider.
#[derive(Clone, Debug, PartialEq, Eq)]
pub struct TxRequest {
    pub from: Address,
    pub to: Address,
    pub input: Vec<u8>,
    pub gas_limit: u64,
    pub value: U256,
}

/// The contents of a [`TxRequest`].
pub struct RequestView {
    pub from: Seq<u8>,
    pub to: Seq<u8>,
    pub input: Seq<u8>,
    pub gas_limit: u64,
    pub value: Seq<u8>,
}

impl View for TxRequest {
    type V = RequestView;

    open spec fn view(&self) -> RequestView {
        RequestView {
            from: self.from@,
            to: self.to@,
            input: self.input@,
            gas_limit: self.gas_limit,
            value: self.value@,
        }
    }
}

/// The request for a prepared transaction: no value goes with it.
pub open spec fn request_of(from: Seq<u8>, prepared: settler::PreparedView) -> RequestView {
    RequestView {
        from,
        to: prepared.to,
        input: prepared.data,
        gas_limit: prepared.gas_limit,
        value: Seq::new(32, |i: int| 0u8),
    }
}

/// The request for a prepared transaction.
pub fn build_request(from: &Address, prepared: &PreparedTx) -> (request: TxRequest)
    ensures
        request@ == request_of(from@, prepared@),
        request.from == *from,
        request.to == prepared.to,
        request.input@ == prepared.data@,
        request.gas_limit == prepared.gas_limit,
        request.value@ == Seq::new(32, |i: int| 0u8),
{
    let value: U256 = [0u8;32];
    assert(value@ =~= Seq::new(32, |i: int| 0u8));
    TxRequest {
        from: *from,
        to: prepared.to,
        input: copy_bytes(prepared.data.as_slice()),
        gas_limit: prepared.gas_limit,
        value,
    }
}

/// The asset that a hedge orders, read back from its calldata; the zero address where the calldata
/// is too short to name one.
pub fn infer_asset_from_calldata(prepared: &PreparedTx) -> (asset: Address)
    ensures
        asset@ == abi::order_asset(prepared.data@),
        prepared.data@.len() >= 36 ==> asset@ == prepared.data@.subrange(16, 36),
        prepared.data@.len() < 36 ==> asset@ == Seq::new(20, |i: int| 0u8),
{
    let mut asset: Address = [0u8;20];
    if prepared.data.len() < 36 {
        assert(asset@ =~= abi::order_asset(prepared.data@));
        return asset;
    }
    let mut i: usize = 0;
    while i < 20
        invariant
            i <= 20,
            prepared.data@.len() >= 36,
            asset@.len() == 20,
            forall|k: int| 0 <= k < i ==> #[trigger] asset@[k] == prepared.data@[16 + k],
        decreases 20 - i,
    {
        asset[i] = prepared.data[16 + i];
        i += 1;
    }
    assert(asset@ =~= abi::order_asset(prepared.data@));
    asset
}

/// What the chain reports of a mined transaction.
#[derive(Clone, Debug, PartialEq, Eq)]
pub struct Receipt {
    pub block_number: Option<u64>,
    pub gas_used: u64,
    pub status: bool,
    pub logs: Vec<Log>,
}

/// What a submission waits for, or how it ended.
#[derive(Clone, Copy, Debug, PartialEq, Eq)]
pub enum SubmitPhase {
    /// A provider for the RPC URL.
    Connecting,
    /// The gas estimate of the request.
    Estimating,
    /// The broadcast of the request.
    Sending,
    /// The receipt of this transaction.
    Confirming(B256),
    Finished(SettlementResult),
    Failed(SubmitError),
}

/// What happened on the network.
#[derive(Clone, Debug, PartialEq, Eq)]
pub enum SubmitEvent {
    Connected,
    UrlRejected,
    GasEstimated(u64),
    EstimationFailed,
    Sent(B256),
    SendFailed,
    Mined(Receipt),
    /// The budget elapsed without a receipt.
    NoReceipt,
    /// The receipt could not be asked for or read, for instance because the RPC is unreachable.
    ReceiptUnavailable,
}

/// The submission of one hedge.
#[derive(Clone, Debug, PartialEq, Eq)]
pub struct Submission {
    pub intent_id: B256,
    pub request: TxRequest,
    /// The asset whose order acknowledges the hedge.
    pub asset: Address,
    pub broadcast: bool,
    pub cfg: ConfirmConfig,
    pub phase: SubmitPhase,
}

/// What a mined hedge amounts to.
pub open spec fn receipt_result(
    intent_id: B256,
    tx_hash: B256,
    asset: Seq<u8>,
    receipt: Receipt,
) -> SettlementResult {
    let block_number = match receipt.block_number {
        Some(n) => n,
        None => 0,
    };
    if receipt.status {
        SettlementResult::Confirmed {
            intent_id,
            tx_hash,
            block_number,
            gas_used: receipt.gas_used,
            hedge_acked: settler::any_order(types::log_views(receipt.logs@), asset),
        }
    } else {
        SettlementResult::Failed { intent_id, tx_hash, block_number }
    }
}

impl Submission {
    /// The phase after an event. An event that the phase does not wait for changes nothing.
    pub open spec fn next_phase(self, event: SubmitEvent) -> SubmitPhase {
        match (self.phase, event) {
            (SubmitPhase::Connecting, SubmitEvent::Connected) => if self.broadcast {
                SubmitPhase::Sending
            } else {
                SubmitPhase::Estimating
            },
            (SubmitPhase::Connecting, SubmitEvent::UrlRejected) => SubmitPhase::Failed(
                SubmitError::InvalidRpcUrl,
            ),
            (SubmitPhase::Estimating, SubmitEvent::GasEstimated(estimated_gas)) =>
            SubmitPhase::Finished(
                SettlementResult::DryRun { intent_id: self.intent_id, estimated_gas },
            ),
            (SubmitPhase::Estimating, SubmitEvent::EstimationFailed) => SubmitPhase::Failed(
                SubmitError::GasEstimation,
            ),
            (SubmitPhase::Sending, SubmitEvent::Sent(tx_hash)) => SubmitPhase::Confirming(tx_hash),
            (SubmitPhase::Sending, SubmitEvent::SendFailed) => SubmitPhase::Failed(
                SubmitError::Broadcast,
            ),
            (SubmitPhase::Confirming(tx_hash), SubmitEvent::Mined(receipt)) =>
            SubmitPhase::Finished(
                receipt_result(self.intent_id, tx_hash, self.asset@, receipt),
            ),
            (SubmitPhase::Confirming(tx_hash), SubmitEvent::NoReceipt) => SubmitPhase::Finished(
                SettlementResult::Timeout {
                    intent_id: self.intent_id,
                    tx_hash,
                    waited_secs: self.cfg.timeout.secs,
                },
            ),
            (SubmitPhase::Confirming(_), SubmitEvent::ReceiptUnavailable) => SubmitPhase::Failed(
                SubmitError::Receipt,
            ),
            _ => self.phase,
        }
    }

    /// The submission after an event: only the phase moves.
    pub open spec fn after(self, event: SubmitEvent) -> Submission {
        Submission { phase: self.next_phase(event), ..self }
    }

    /// The submission after a sequence of events.
    pub open spec fn after_all(self, events: Seq<SubmitEvent>) -> Submission
        decreases events.len(),
    {
        if events.len() == 0 {
            self
        } else {
            self.after_all(events.drop_last()).after(events.last())
        }
    }

    /// Takes an event.
    pub fn advance(&mut self, event: &SubmitEvent)
        ensures
            *final(self) == old(self).after(*event),
    {
        self.phase = match (&self.phase, event) {
            (SubmitPhase::Connecting, SubmitEvent::Connected) => if self.broadcast {
                SubmitPhase::Sending
            } else {
                SubmitPhase::Estimating
            },
            (SubmitPhase::Connecting, SubmitEvent::UrlRejected) => SubmitPhase::Failed(
                SubmitError::InvalidRpcUrl,
            ),
            (SubmitPhase::Estimating, SubmitEvent::GasEstimated(estimated_gas)) =>
            SubmitPhase::Finished(
                SettlementResult::DryRun {
                    intent_id: self.intent_id,
                    estimated_gas: *estimated_gas,
                },
            ),
            (SubmitPhase::Estimating, SubmitEvent::EstimationFailed) => SubmitPhase::Failed(
                SubmitError::GasEstimation,
            ),
            (SubmitPhase::Sending, SubmitEvent::Sent(tx_hash)) => SubmitPhase::Confirming(
                *tx_hash,
            ),
            (SubmitPhase::Sending, SubmitEvent::SendFailed) => SubmitPhase::Failed(
                SubmitError::Broadcast,
            ),
            (SubmitPhase::Confirming(tx_hash), SubmitEvent::Mined(receipt)) => {
                let block_number: u64 = match receipt.block_number {
                    Some(n) => n,
                    None => 0,
                };
                if receipt.status {
                    SubmitPhase::Finished(
                        SettlementResult::Confirmed {
                            intent_id: self.intent_id,
                            tx_hash: *tx_hash,
                            block_number,
                            gas_used: receipt.gas_used,
                            hedge_acked: find_order(&receipt.logs, &self.asset),
                        },
                    )
                } else {
                    SubmitPhase::Finished(
                        SettlementResult::Failed {
                            intent_id: self.intent_id,
                            tx_hash: *tx_hash,
                            block_number,
                        },
                    )
                }
            },
            (SubmitPhase::Confirming(tx_hash), SubmitEvent::NoReceipt) => SubmitPhase::Finished(
                SettlementResult::Timeout {
                    intent_id: self.intent_id,
                    tx_hash: *tx_hash,
                    waited_secs: self.cfg.timeout.secs,
                },
            ),
            (SubmitPhase::Confirming(_), SubmitEvent::ReceiptUnavailable) => SubmitPhase::Failed(
                SubmitError::Receipt,
            ),
            (phase, _) => *phase,
        };
    }
}

/// The intent that a settlement result is about.
pub open spec fn result_intent(result: SettlementResult) -> B256 {
    match result {
        SettlementResult::DryRun { intent_id, .. } => intent_id,
        SettlementResult::Confirmed { intent_id, .. } => intent_id,
        SettlementResult::Failed { intent_id, .. } => intent_id,
        SettlementResult::Timeout { intent_id, .. } => intent_id,
    }
}

/// Events move the phase alone: the request that is sent, its intent and the broadcast flag stay
/// what they were.
pub proof fn lemma_only_the_phase_moves(submission: Submission, events: Seq<SubmitEvent>)
    ensures
        submission.after_all(events) == (Submission {
            phase: submission.after_all(events).phase,
            ..submission
        }),
    decreases events.len(),
{
    if events.len() > 0 {
        lemma_only_the_phase_moves(submission, events.drop_last());
    }
}

/// Without the broadcast flag nothing is ever sent, whatever happens: the only result there can be
/// is a dry run.
pub proof fn lemma_dry_run_never_sends(submission: Submission, events: Seq<SubmitEvent>)
    requires
        submission.phase == SubmitPhase::Connecting,
        !submission.broadcast,
    ensures
        submission.after_all(events).phase !is Sending,
        submission.after_all(events).phase !is Confirming,
        submission.after_all(events).phase matches SubmitPhase::Finished(result) ==> result
            is DryRun,
    decreases events.len(),
{
    if events.len() > 0 {
        lemma_dry_run_never_sends(submission, events.drop_last());
        lemma_only_the_phase_moves(submission, events.drop_last());
    }
}

/// With the broadcast flag no dry run is ever reported, and no result comes before a transaction
/// was sent.
pub proof fn lemma_broadcast_sends(submission: Submission, events: Seq<SubmitEvent>)
    requires
        submission.phase == SubmitPhase::Connecting,
        submission.broadcast,
    ensures
        submission.after_all(events).phase !is Estimating,
        submission.after_all(events).phase matches SubmitPhase::Finished(result) ==> result
            !is DryRun,
        submission.after_all(events).phase is Finished ==> exists|i: int|
            0 <= i < events.len() && #[trigger] events[i] is Sent,
        submission.after_all(events).phase is Confirming ==> exists|i: int|
            0 <= i < events.len() && #[trigger] events[i] is Sent,
    decreases events.len(),
{
    if events.len() > 0 {
        let head = events.drop_last();
        lemma_broadcast_sends(submission, head);
        lemma_only_the_phase_moves(submission, head);
        if exists|i: int| 0 <= i < head.len() && #[trigger] head[i] is Sent {
            let i = choose|i: int| 0 <= i < head.len() && #[trigger] head[i] is Sent;
            assert(events[i] is Sent);
        }
        assert(events[events.len() - 1] == events.last());
    }
}

/// Once a transaction was sent, a receipt that cannot be had is the one error there can be. What
/// the chain does is a result: a mined transaction, reverted or not, and a budget that elapsed.
pub proof fn lemma_only_a_lost_receipt_is_an_error(submission: Submission, event: SubmitEvent)
    requires
        submission.phase is Confirming,
    ensures
        submission.after(event).phase is Failed <==> event is ReceiptUnavailable,
        event is ReceiptUnavailable ==> submission.after(event).phase == SubmitPhase::Failed(
            SubmitError::Receipt,
        ),
        submission.after(event).phase is Finished <==> event is Mined || event is NoReceipt,
        event is NoReceipt ==> submission.after(event).phase == SubmitPhase::Finished(
            SettlementResult::Timeout {
                intent_id: submission.intent_id,
                tx_hash: submission.phase->Confirming_0,
                waited_secs: submission.cfg.timeout.secs,
            },
        ),
{
}

/// Whatever happens after a transaction was sent, the submission fails only through a receipt that
/// cannot be had, and a timeout is reported only after the budget elapsed.
pub proof fn lemma_after_sending(submission: Submission, events: Seq<SubmitEvent>)
    requires
        submission.phase is Confirming,
    ensures
        submission.after_all(events).phase is Confirming || submission.after_all(events).phase
            is Finished || submission.after_all(events).phase == SubmitPhase::Failed(
            SubmitError::Receipt,
        ),
        submission.after_all(events).phase is Failed ==> exists|i: int|
            0 <= i < events.len() && #[trigger] events[i] is ReceiptUnavailable,
        submission.after_all(events).phase matches SubmitPhase::Finished(result) ==> result
            is Timeout ==> exists|i: int|
            0 <= i < events.len() && #[trigger] events[i] is NoReceipt,
    decreases events.len(),
{
    if events.len() > 0 {
        let head = events.drop_last();
        lemma_after_sending(submission, head);
        if exists|i: int| 0 <= i < head.len() && #[trigger] head[i] is ReceiptUnavailable {
            let i = choose|i: int| 0 <= i < head.len() && #[trigger] head[i] is ReceiptUnavailable;
            assert(events[i] is ReceiptUnavailable);
        }
        if exists|i: int| 0 <= i < head.len() && #[trigger] head[i] is NoReceipt {
            let i = choose|i: int| 0 <= i < head.len() && #[trigger] head[i] is NoReceipt;
            assert(events[i] is NoReceipt);
        }
        assert(events[events.len() - 1] == events.last());
    }
}

/// A submission that ended stays as it ended.
pub proof fn lemma_end_is_final(submission: Submission, events: Seq<SubmitEvent>)
    requires
        submission.phase is Finished || submission.phase is Failed,
    ensures
        submission.after_all(events) == submission,
    decreases events.len(),
{
    if events.len() > 0 {
        lemma_end_is_final(submission, events.drop_last());
    }
}

/// The result of a submission is about the intent that was submitted.
pub proof fn lemma_result_is_about_the_intent(submission: Submission, events: Seq<SubmitEvent>)
    requires
        submission.phase == SubmitPhase::Connecting,
    ensures
        submission.after_all(events).phase matches SubmitPhase::Finished(result) ==> result_intent(
            result,
        ) == submission.intent_id,
    decreases events.len(),
{
    if events.len() > 0 {
        lemma_result_is_about_the_intent(submission, events.drop_last());
        lemma_only_the_phase_moves(submission, events.drop_last());
    }
}

/// A mined transaction with a true status is confirmed, with the block and the gas of its receipt,
/// and one with a false status failed. The hedge is acknowledged exactly where some log of the
/// receipt, at any place and among any number of logs, is an order in the asset of the submission.
pub proof fn lemma_mined_reports_the_receipt(submission: Submission, receipt: Receipt)
    requires
        submission.phase is Confirming,
    ensures
        ({
            let block_number = match receipt.block_number {
                Some(n) => n,
                None => 0,
            };
            let phase = submission.after(SubmitEvent::Mined(receipt)).phase;
            &&& phase is Finished
            &&& !receipt.status ==> phase->Finished_0 == (SettlementResult::Failed {
                intent_id: submission.intent_id,
                tx_hash: submission.phase->Confirming_0,
                block_number,
            })
            &&& receipt.status ==> {
                &&& phase->Finished_0 is Confirmed
                &&& phase->Finished_0->Confirmed_intent_id == submission.intent_id
                &&& phase->Finished_0->Confirmed_tx_hash == submission.phase->Confirming_0
                &&& phase->Finished_0->Confirmed_block_number == block_number
                &&& phase->Finished_0->Confirmed_gas_used == receipt.gas_used
                &&& phase->Finished_0->Confirmed_hedge_acked <==> exists|i: int|
                    0 <= i < receipt.logs@.len() && (#[trigger] receipt.logs@[i]).topics@.len() == 3
                        && receipt.logs@[i].topics@[0]@ == keccak::keccak256_of(
                        vstd::utf8::encode_utf8("OrderPlaced(bytes32,address,uint256)"@),
                    ) && receipt.logs@[i].topics@[2]@.subrange(12, 32) == submission.asset@
                        && receipt.logs@[i].data@.len() >= 32
            }
        }),
{
    let logs = receipt.logs@;
    let views = types::log_views(logs);
    settler::lemma_orders_are_found(views, submission.asset@);
    assert forall|i: int| 0 <= i < logs.len() implies (#[trigger] views[i]) == logs[i]@ by {}
    if settler::any_order(views, submission.asset@) {
        let i = choose|i: int|
            0 <= i < views.len() && (#[trigger] views[i]).topics.len() == 3 && views[i].topics[0]
                == keccak::keccak256_of(
                vstd::utf8::encode_utf8("OrderPlaced(bytes32,address,uint256)"@),
            ) && views[i].topics[2].subrange(12, 32) == submission.asset@ && views[i].data.len()
                >= 32;
        assert(views[i] == logs[i]@);
        assert(logs[i].topics@.len() == 3);
    }
    assert forall|i: int|
        0 <= i < logs.len() && (#[trigger] logs[i]).topics@.len() == 3 && logs[i].topics@[0]@
            == keccak::keccak256_of(
            vstd::utf8::encode_utf8("OrderPlaced(bytes32,address,uint256)"@),
        ) && logs[i].topics@[2]@.subrange(12, 32) == submission.asset@ && logs[i].data@.len()
            >= 32 implies settler::any_order(views, submission.asset@) by {
        assert(views[i] == logs[i]@);
    }
}

/// A receipt that holds the log of an order in the asset of the submission, at any place, is reported
/// as acknowledged.
pub proof fn lemma_acknowledgement_is_seen(
    submission: Submission,
    receipt: Receipt,
    i: int,
    order_id: Seq<u8>,
    size: Seq<u8>,
)
    requires
        submission.phase is Confirming,
        receipt.status,
        0 <= i < receipt.logs@.len(),
        order_id.len() == 32,
        size.len() == 32,
        receipt.logs@[i]@ == abi::order_placed_log(order_id, submission.asset@, size),
    ensures
        submission.after(SubmitEvent::Mined(receipt)).phase is Finished,
        submission.after(SubmitEvent::Mined(receipt)).phase->Finished_0 is Confirmed,
        submission.after(SubmitEvent::Mined(receipt)).phase->Finished_0->Confirmed_hedge_acked,
{
    let views = types::log_views(receipt.logs@);
    abi::lemma_order_placed_log_round_trip(order_id, submission.asset@, size);
    assert(views[i] == receipt.logs@[i]@);
    assert(settler::is_order(views[i], submission.asset@));
}

/// Each event that a phase waits for ends it. A connection leads to sending exactly with the
/// broadcast flag and to an estimate otherwise; an estimate is reported as it came; a transaction that
/// was sent is waited for; a budget that elapsed is a timeout of that budget; every problem is an
/// error of its own. Every other event changes nothing.
pub proof fn lemma_each_event_moves_the_phase(
    submission: Submission,
    gas: u64,
    hash: B256,
    receipt: Receipt,
)
    ensures
        submission.phase is Connecting ==> submission.after(SubmitEvent::Connected).phase == if
            submission.broadcast {
            SubmitPhase::Sending
        } else {
            SubmitPhase::Estimating
        },
        submission.phase is Connecting ==> submission.after(SubmitEvent::UrlRejected).phase
            == SubmitPhase::Failed(SubmitError::InvalidRpcUrl),
        submission.phase is Estimating ==> submission.after(SubmitEvent::GasEstimated(gas)).phase
            == SubmitPhase::Finished(
            SettlementResult::DryRun { intent_id: submission.intent_id, estimated_gas: gas },
        ),
        submission.phase is Estimating ==> submission.after(SubmitEvent::EstimationFailed).phase
            == SubmitPhase::Failed(SubmitError::GasEstimation),
        submission.phase is Sending ==> submission.after(SubmitEvent::Sent(hash)).phase
            == SubmitPhase::Confirming(hash),
        submission.phase is Sending ==> submission.after(SubmitEvent::SendFailed).phase
            == SubmitPhase::Failed(SubmitError::Broadcast),
        submission.phase is Confirming ==> submission.after(SubmitEvent::NoReceipt).phase
            == SubmitPhase::Finished(
            SettlementResult::Timeout {
                intent_id: submission.intent_id,
                tx_hash: submission.phase->Confirming_0,
                waited_secs: submission.cfg.timeout.secs,
            },
        ),
        submission.phase is Confirming ==> submission.after(SubmitEvent::ReceiptUnavailable).phase
            == SubmitPhase::Failed(SubmitError::Receipt),
        submission.phase !is Connecting ==> submission.after(SubmitEvent::Connected) == submission
            && submission.after(SubmitEvent::UrlRejected) == submission,
        submission.phase !is Estimating ==> submission.after(SubmitEvent::GasEstimated(gas))
            == submission && submission.after(SubmitEvent::EstimationFailed) == submission,
        submission.phase !is Sending ==> submission.after(SubmitEvent::Sent(hash)) == submission
            && submission.after(SubmitEvent::SendFailed) == submission,
        submission.phase !is Confirming ==> submission.after(SubmitEvent::Mined(receipt))
            == submission && submission.after(SubmitEvent::NoReceipt) == submission
            && submission.after(SubmitEvent::ReceiptUnavailable) == submission,
{
}

/// The request for a prepared transaction is that transaction, from the account that signs and with
/// no value.
pub proof fn lemma_request_is_the_prepared_transaction(
    from: Seq<u8>,
    prepared: settler::PreparedView,
)
    ensures
        request_of(from, prepared).from == from,
        request_of(from, prepared).to == prepared.to,
        request_of(from, prepared).input == prepared.data,
        request_of(from, prepared).gas_limit == prepared.gas_limit,
        request_of(from, prepared).value.len() == 32,
        primitives::be_value(request_of(from, prepared).value) == 0,
{
    lemma_zeros_spell_zero(32);
}

proof fn lemma_zeros_spell_zero(n: nat)
    ensures
        primitives::be_value(Seq::new(n, |i: int| 0u8)) == 0,
    decreases n,
{
    if n > 0 {
        assert(Seq::new(n, |i: int| 0u8).drop_last() =~= Seq::new((n - 1) as nat, |i: int| 0u8));
        lemma_zeros_spell_zero((n - 1) as nat);
    }
}

} // verus!
