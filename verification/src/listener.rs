//! What happens to the logs that the listener receives.
//!
//! A trade updates the price book. An intent starts a pipeline, which takes it through its stages:
//! observed, quoted, simulated, decided, settled. The pipeline says what has to be done next; the
//! caller does it, logs the stages that were reached, and hands back the event.
use vstd::prelude::*;
use crate::abi;
use crate::abi::{decode_fill, decode_payment_intent, DecodeError};
use crate::keccak;
use crate::keccak::signature_hash;
use crate::primitives::{Address, B256};
use crate::settler;
use crate::settler::{
    quote_route, should_submit, DecisionConfig, DecisionView, OutcomeView, PriceBook, SettlerDecision,
    SimulationOutcome,
};
use crate::store;
use crate::store::{RowView, Stage};
use crate::text;
use crate::types::{Fill, IntentView, Log, LogView, PaymentIntent, RouteQuote, SettlementResult};

verus! {

/// Which logs a subscription asks for: those of one contract and one event.
#[derive(Clone, Copy, Debug, PartialEq, Eq)]
pub struct LogFilter {
    pub address: Address,
    pub topic0: B256,
}

/// The filter for the intents of a contract.
pub fn intent_filter(contract: &Address) -> (filter: LogFilter)
    ensures
        filter.address == *contract,
        filter.topic0@ == keccak::signature_hash_of(abi::payment_intent_signature()),
        filter.topic0@ == keccak::keccak256_of(
            vstd::utf8::encode_utf8(
                "PaymentIntent(bytes32,address,address,address,uint256,uint16,uint64)"@,
            ),
        ),
{
    LogFilter {
        address: *contract,
        topic0: signature_hash(
            "PaymentIntent(bytes32,address,address,address,uint256,uint16,uint64)",
        ),
    }
}

/// The filter for the trades of a contract.
pub fn fill_filter(contract: &Address) -> (filter: LogFilter)
    ensures
        filter.address == *contract,
        filter.topic0@ == keccak::signature_hash_of(abi::fill_signature()),
        filter.topic0@ == keccak::keccak256_of(
            vstd::utf8::encode_utf8("Fill(address,bytes32,address,bool,uint64,uint64,uint64)"@),
        ),
{
    LogFilter {
        address: *contract,
        topic0: signature_hash("Fill(address,bytes32,address,bool,uint64,uint64,uint64)"),
    }
}

/// Takes a log as a trade: the book gets its price. A log that is no trade leaves the book alone.
pub fn handle_fill_log(log: &Log, prices: &mut PriceBook) -> (r: Result<Fill, DecodeError>)
    ensures
        match r {
            Ok(fill) => abi::fill_of(log@) == Ok::<_, DecodeError>(fill@) && final(prices)@
                == old(prices)@.insert(fill.asset@, settler::fill_quote(fill)),
            Err(e) => abi::fill_of(log@) == Err::<crate::types::FillView, _>(e) && final(prices)@
                == old(prices)@,
        },
        r matches Ok(fill) ==> final(prices)@.contains_key(fill.asset@)
            && final(prices)@[fill.asset@].price_e8 == fill.price_e8
            && final(prices)@[fill.asset@].timestamp == fill.timestamp,
        old(prices).wf() ==> final(prices).wf(),
{
    match decode_fill(log) {
        Ok(fill) => {
            prices.record_fill(&fill);
            Ok(fill)
        },
        Err(e) => Err(e),
    }
}

/// Takes a log as an intent, which enters the pipeline. A log that is no intent does not.
pub fn handle_intent_log(log: &Log, cfg: DecisionConfig, can_submit: bool) -> (r: Result<
    Pipeline,
    DecodeError,
>)
    ensures
        match r {
            Ok(pipeline) => abi::payment_intent_of(log@) == Ok::<_, DecodeError>(
                pipeline@.intent,
            ) && pipeline@ == started(pipeline@.intent, cfg.max_price_age_secs, can_submit),
            Err(e) => abi::payment_intent_of(log@) == Err::<IntentView, _>(e),
        },
        r matches Ok(pipeline) ==> pipeline.cfg == cfg && pipeline.can_submit == can_submit
            && pipeline.step == PipelineStep::Quote && pipeline.decision is None
            && pipeline.result is None,
{
    match decode_payment_intent(log) {
        Ok(intent) => Ok(Pipeline::start(intent, cfg, can_submit)),
        Err(e) => Err(e),
    }
}

/// The route of an intent: there is one where a venue is configured, the settlement asset has a
/// price and the clock can be read.
pub fn route_for(
    intent: &PaymentIntent,
    prices: &PriceBook,
    hedge_venue: Option<&Address>,
    now: Option<u64>,
) -> (r: Option<RouteQuote>)
    ensures
        r == (if hedge_venue is Some && prices@.contains_key(intent.settlement_asset@)
            && now is Some {
            Some(
                settler::route_at(
                    *intent,
                    prices@[intent.settlement_asset@],
                    *hedge_venue->0,
                    now->0,
                ),
            )
        } else {
            None
        }),
{
    match hedge_venue {
        Some(venue) => quote_route(intent, prices, venue, now),
        None => None,
    }
}

/// What has to be done next for an intent.
#[derive(Clone, Copy, Debug, PartialEq, Eq)]
pub enum PipelineStep {
    /// Quote a route.
    Quote,
    /// Simulate the legs along this route.
    Simulate(Option<RouteQuote>),
    /// Submit the plan of the decision.
    Submit,
    /// Nothing.
    Done,
}

/// What came of a step.
#[derive(Clone, Debug, PartialEq, Eq)]
pub enum PipelineEvent {
    Quoted(Option<RouteQuote>),
    Simulated(SimulationOutcome),
    SimulationFailed,
    Settled(SettlementResult),
    SubmitFailed,
    /// A stage could not be logged.
    StoreFailed,
}

/// The contents of a [`PipelineEvent`].
pub enum EventView {
    Quoted(Option<RouteQuote>),
    Simulated(OutcomeView),
    SimulationFailed,
    Settled(SettlementResult),
    SubmitFailed,
    StoreFailed,
}

impl View for PipelineEvent {
    type V = EventView;

    open spec fn view(&self) -> EventView {
        match self {
            PipelineEvent::Quoted(route) => EventView::Quoted(*route),
            PipelineEvent::Simulated(outcome) => EventView::Simulated(outcome@),
            PipelineEvent::SimulationFailed => EventView::SimulationFailed,
            PipelineEvent::Settled(result) => EventView::Settled(*result),
            PipelineEvent::SubmitFailed => EventView::SubmitFailed,
            PipelineEvent::StoreFailed => EventView::StoreFailed,
        }
    }
}

/// An intent on its way through the stages.
#[derive(Clone, Debug, PartialEq, Eq)]
pub struct Pipeline {
    pub intent: PaymentIntent,
    pub cfg: DecisionConfig,
    /// Whether there is a submitter.
    pub can_submit: bool,
    pub step: PipelineStep,
    pub decision: Option<SettlerDecision>,
    pub result: Option<SettlementResult>,
    /// The stages that were reached, in order.
    pub stages: Vec<Stage>,
}

/// The contents of a [`Pipeline`].
pub struct PipelineView {
    pub intent: IntentView,
    pub max_price_age_secs: u64,
    pub can_submit: bool,
    pub step: PipelineStep,
    pub decision: Option<DecisionView>,
    pub result: Option<SettlementResult>,
    pub stages: Seq<Stage>,
}

impl View for Pipeline {
    type V = PipelineView;

    open spec fn view(&self) -> PipelineView {
        PipelineView {
            intent: self.intent@,
            max_price_age_secs: self.cfg.max_price_age_secs,
            can_submit: self.can_submit,
            step: self.step,
            decision: match self.decision {
                Some(decision) => Some(decision@),
                None => None,
            },
            result: self.result,
            stages: self.stages@,
        }
    }
}

/// An intent that was just observed.
pub open spec fn started(
    intent: IntentView,
    max_price_age_secs: u64,
    can_submit: bool,
) -> PipelineView {
    PipelineView {
        intent,
        max_price_age_secs,
        can_submit,
        step: PipelineStep::Quote,
        decision: None,
        result: None,
        stages: seq![Stage::Observed],
    }
}

impl PipelineView {
    /// The pipeline after an event. An event that the step does not wait for changes nothing.
    pub open spec fn after(self, event: EventView) -> PipelineView {
        match (self.step, event) {
            (PipelineStep::Quote, EventView::Quoted(route)) => PipelineView {
                step: PipelineStep::Simulate(route),
                stages: if route is Some {
                    self.stages.push(Stage::Quoted)
                } else {
                    self.stages
                },
                ..self
            },
            (PipelineStep::Simulate(route), EventView::Simulated(outcome)) => {
                let decision = settler::decision_of(
                    outcome,
                    route,
                    self.intent,
                    self.max_price_age_secs,
                );
                PipelineView {
                    step: if decision is Submit && self.can_submit {
                        PipelineStep::Submit
                    } else {
                        PipelineStep::Done
                    },
                    decision: Some(decision),
                    stages: self.stages.push(Stage::Simulated).push(Stage::Decided),
                    ..self
                }
            },
            (PipelineStep::Simulate(_), EventView::SimulationFailed) => PipelineView {
                step: PipelineStep::Done,
                ..self
            },
            (PipelineStep::Submit, EventView::Settled(result)) => PipelineView {
                step: PipelineStep::Done,
                result: Some(result),
                stages: self.stages.push(Stage::Settled),
                ..self
            },
            (PipelineStep::Submit, EventView::SubmitFailed) => PipelineView {
                step: PipelineStep::Done,
                ..self
            },
            _ => self,
        }
    }

    /// The pipeline after a sequence of events.
    pub open spec fn after_all(self, events: Seq<EventView>) -> PipelineView
        decreases events.len(),
    {
        if events.len() == 0 {
            self
        } else {
            self.after_all(events.drop_last()).after(events.last())
        }
    }
}

impl Pipeline {
    /// An intent that was just observed.
    pub fn start(intent: PaymentIntent, cfg: DecisionConfig, can_submit: bool) -> (pipeline: Self)
        ensures
            pipeline@ == started(intent@, cfg.max_price_age_secs, can_submit),
            pipeline.intent == intent,
            pipeline.cfg == cfg,
            pipeline.can_submit == can_submit,
            pipeline.step == PipelineStep::Quote,
            pipeline.decision is None,
            pipeline.result is None,
            pipeline.stages@ == seq![Stage::Observed],
    {
        let mut stages: Vec<Stage> = Vec::new();
        stages.push(Stage::Observed);
        assert(stages@ =~= seq![Stage::Observed]);
        Pipeline {
            intent,
            cfg,
            can_submit,
            step: PipelineStep::Quote,
            decision: None,
            result: None,
            stages,
        }
    }

    /// Takes what came of the step.
    pub fn advance(&mut self, event: &PipelineEvent)
        ensures
            final(self)@ == old(self)@.after(event@),
            final(self).intent == old(self).intent,
            final(self).cfg == old(self).cfg,
            final(self).can_submit == old(self).can_submit,
            old(self).step matches PipelineStep::Simulate(route) ==> event
                matches PipelineEvent::Simulated(outcome) ==> final(self).decision is Some && (
            final(self).decision->0 is Submit <==> route is Some && outcome.spot.success
                && outcome.hedge is Some && outcome.hedge->0.success && route->0.price_age_secs
                <= old(self).cfg.max_price_age_secs) && (final(self).step is Submit
                <==> final(self).decision->0 is Submit && old(self).can_submit),
            old(self).step is Simulate && event is Simulated && final(self).decision is Some
                && final(self).decision->0 is Submit ==> {
                let route = old(self).step->Simulate_0->0;
                let plan = final(self).decision->0->Submit_0;
                &&& plan.intent_id == old(self).intent.intent_id
                &&& plan.hedge.to == route.hedge_venue
                &&& plan.hedge.data@.len() == 100
                &&& plan.hedge.data@.subrange(16, 36) == route.spot_asset@
                &&& plan.hedge.data@.subrange(36, 68) == route.hedge_size@
            },
            old(self).step is Quote && event is Quoted ==> final(self).step
                == PipelineStep::Simulate(event->Quoted_0),
            old(self).step is Submit && event is Settled ==> final(self).result == Some(
                event->Settled_0,
            ) && final(self).step is Done && final(self).stages@ == old(self).stages@.push(
                Stage::Settled,
            ),
            old(self).step is Done ==> final(self).step is Done && final(self).decision
                == old(self).decision && final(self).result == old(self).result
                && final(self).stages@ == old(self).stages@,
    {
        match (&self.step, event) {
            (PipelineStep::Quote, PipelineEvent::Quoted(route)) => {
                if route.is_some() {
                    self.stages.push(Stage::Quoted);
                }
                self.step = PipelineStep::Simulate(*route);
            },
            (PipelineStep::Simulate(route), PipelineEvent::Simulated(outcome)) => {
                let decision: SettlerDecision = match route {
                    Some(route) => should_submit(outcome, Some(route), &self.intent, &self.cfg),
                    None => should_submit(outcome, None, &self.intent, &self.cfg),
                };
                let approved: bool = match &decision {
                    SettlerDecision::Submit(_) => true,
                    SettlerDecision::Reject(_) => false,
                };
                self.step = if approved && self.can_submit {
                    PipelineStep::Submit
                } else {
                    PipelineStep::Done
                };
                self.decision = Some(decision);
                self.stages.push(Stage::Simulated);
                self.stages.push(Stage::Decided);
            },
            (PipelineStep::Simulate(_), PipelineEvent::SimulationFailed) => {
                self.step = PipelineStep::Done;
            },
            (PipelineStep::Submit, PipelineEvent::Settled(result)) => {
                self.step = PipelineStep::Done;
                self.result = Some(*result);
                self.stages.push(Stage::Settled);
            },
            (PipelineStep::Submit, PipelineEvent::SubmitFailed) => {
                self.step = PipelineStep::Done;
            },
            _ => {},
        }
    }
}

/// Whether the stages of an intent, its decision and its result fit what has to be done next.
pub open spec fn is_consistent(p: PipelineView) -> bool {
    let quoted = seq![Stage::Observed, Stage::Quoted];
    let decided = seq![Stage::Observed, Stage::Quoted, Stage::Simulated, Stage::Decided];
    match p.step {
        PipelineStep::Quote => {
            &&& p.stages == seq![Stage::Observed]
            &&& p.decision is None
            &&& p.result is None
        },
        PipelineStep::Simulate(route) => {
            &&& p.stages == if route is Some {
                quoted
            } else {
                seq![Stage::Observed]
            }
            &&& p.decision is None
            &&& p.result is None
        },
        PipelineStep::Submit => {
            &&& p.stages == decided
            &&& p.decision is Some
            &&& p.decision->0 is Submit
            &&& p.can_submit
            &&& p.result is None
        },
        PipelineStep::Done => {
            ||| p.decision is None && p.result is None && (p.stages == seq![Stage::Observed]
                || p.stages == quoted)
            ||| p.decision == Some(DecisionView::Reject(settler::RejectView::NoQuote))
                && p.result is None && p.stages == seq![
                Stage::Observed,
                Stage::Simulated,
                Stage::Decided,
            ]
            ||| p.decision is Some && p.result is None && p.stages == decided
            ||| p.decision is Some && p.decision->0 is Submit && p.can_submit && p.result is Some
                && p.stages == decided.push(Stage::Settled)
        },
    }
}

/// An intent goes through its stages in order, whatever happens: it is settled only after it was
/// decided to submit it, and it is submitted only where there is a submitter and the decision says
/// so.
pub proof fn lemma_stages_are_in_order(
    intent: IntentView,
    max_price_age_secs: u64,
    can_submit: bool,
    events: Seq<EventView>,
)
    ensures
        is_consistent(started(intent, max_price_age_secs, can_submit).after_all(events)),
    decreases events.len(),
{
    if events.len() > 0 {
        lemma_stages_are_in_order(intent, max_price_age_secs, can_submit, events.drop_last());
        let before = started(intent, max_price_age_secs, can_submit).after_all(events.drop_last());
        let after = before.after(events.last());
        match (before.step, events.last()) {
            (PipelineStep::Quote, EventView::Quoted(route)) => {
                assert(before.stages.push(Stage::Quoted) =~= seq![Stage::Observed, Stage::Quoted]);
            },
            (PipelineStep::Simulate(route), EventView::Simulated(_)) => {
                if route is Some {
                    assert(after.stages =~= seq![
                        Stage::Observed,
                        Stage::Quoted,
                        Stage::Simulated,
                        Stage::Decided,
                    ]);
                } else {
                    assert(after.stages =~= seq![
                        Stage::Observed,
                        Stage::Simulated,
                        Stage::Decided,
                    ]);
                }
            },
            _ => {},
        }
    }
}

/// An intent whose stages were all logged is in flight exactly until it is settled.
pub proof fn lemma_in_flight_until_settled(p: PipelineView, rows: Seq<RowView>)
    requires
        is_consistent(p),
        rows.len() == p.stages.len(),
        forall|i: int|
            0 <= i < rows.len() ==> #[trigger] rows[i].intent_id == text::prefixed_hex(
                p.intent.intent_id,
            ) && rows[i].stage == p.stages[i].name(),
    ensures
        store::pending(rows).contains(text::prefixed_hex(p.intent.intent_id)) <==> p.result is None,
{
    let id = text::prefixed_hex(p.intent.intent_id);
    assert(rows[0].intent_id == id && p.stages[0] == Stage::Observed);
    assert(store::ids_at(rows, Stage::Observed).contains(id));
    if p.result is Some {
        assert(rows[4].intent_id == id && p.stages[4] == Stage::Settled);
    }
    if store::ids_at(rows, Stage::Settled).contains(id) {
        let i = choose|i: int|
            0 <= i < rows.len() && #[trigger] rows[i].intent_id == id && rows[i].stage
                == Stage::Settled.name();
        store::lemma_stage_names_differ(p.stages[i], Stage::Settled);
        assert(p.stages[i] == Stage::Settled);
    }
}

/// An intent without a submitter is never submitted and never settled.
pub proof fn lemma_no_submitter_no_settlement(
    intent: IntentView,
    max_price_age_secs: u64,
    events: Seq<EventView>,
)
    ensures
        started(intent, max_price_age_secs, false).after_all(events).step !is Submit,
        started(intent, max_price_age_secs, false).after_all(events).result is None,
    decreases events.len(),
{
    lemma_stages_are_in_order(intent, max_price_age_secs, false, events);
    lemma_intent_stays(intent, max_price_age_secs, false, events);
}

/// The intent, the bound on the price and the presence of a submitter never change on the way.
pub proof fn lemma_intent_stays(
    intent: IntentView,
    max_price_age_secs: u64,
    can_submit: bool,
    events: Seq<EventView>,
)
    ensures
        started(intent, max_price_age_secs, can_submit).after_all(events).intent == intent,
        started(intent, max_price_age_secs, can_submit).after_all(events).max_price_age_secs
            == max_price_age_secs,
        started(intent, max_price_age_secs, can_submit).after_all(events).can_submit == can_submit,
    decreases events.len(),
{
    if events.len() > 0 {
        lemma_intent_stays(intent, max_price_age_secs, can_submit, events.drop_last());
    }
}

/// A stage that could not be logged changes nothing of what happens to the intent.
pub proof fn lemma_store_failure_changes_nothing(
    p: PipelineView,
    before: Seq<EventView>,
    after: Seq<EventView>,
)
    ensures
        p.after_all(before.push(EventView::StoreFailed) + after) == p.after_all(before + after),
    decreases after.len(),
{
    if after.len() == 0 {
        assert(before.push(EventView::StoreFailed) + after =~= before.push(EventView::StoreFailed));
        assert(before + after =~= before);
        assert(before.push(EventView::StoreFailed).drop_last() =~= before);
    } else {
        lemma_store_failure_changes_nothing(p, before, after.drop_last());
        assert((before.push(EventView::StoreFailed) + after).drop_last() =~= before.push(
            EventView::StoreFailed,
        ) + after.drop_last());
        assert((before + after).drop_last() =~= before + after.drop_last());
        assert((before.push(EventView::StoreFailed) + after).last() == after.last());
        assert((before + after).last() == after.last());
    }
}

/// A pipeline that is done stays as it is.
pub proof fn lemma_done_is_final(p: PipelineView, events: Seq<EventView>)
    requires
        p.step is Done,
    ensures
        p.after_all(events) == p,
    decreases events.len(),
{
    if events.len() > 0 {
        lemma_done_is_final(p, events.drop_last());
    }
}

/// Every log that decodes passes the filter of its subscription.
pub proof fn lemma_decoded_logs_pass_the_filter(log: LogView)
    ensures
        abi::payment_intent_of(log) is Ok ==> log.topics[0] == keccak::signature_hash_of(
            abi::payment_intent_signature(),
        ),
        abi::fill_of(log) is Ok ==> log.topics[0] == keccak::signature_hash_of(
            abi::fill_signature(),
        ),
{
}

/// An intent that was just observed carries what it was started with, and nothing was done for it.
pub proof fn lemma_started_carries_its_bound(
    intent: IntentView,
    max_price_age_secs: u64,
    can_submit: bool,
)
    ensures
        started(intent, max_price_age_secs, can_submit).intent == intent,
        started(intent, max_price_age_secs, can_submit).max_price_age_secs == max_price_age_secs,
        started(intent, max_price_age_secs, can_submit).can_submit == can_submit,
        started(intent, max_price_age_secs, can_submit).step == PipelineStep::Quote,
        started(intent, max_price_age_secs, can_submit).decision is None,
        started(intent, max_price_age_secs, can_submit).result is None,
        started(intent, max_price_age_secs, can_submit).stages == seq![Stage::Observed],
{
}

/// A quoted and simulated intent is decided to be submitted exactly where a route was quoted, both
/// legs succeeded and the price is no older than the bound that the pipeline was started with, and it
/// waits for a submission exactly where there is a submitter besides. A price that is too old is
/// rejected with its age and that bound.
pub proof fn lemma_submission_keeps_to_the_bound(
    intent: IntentView,
    bound: u64,
    can_submit: bool,
    route: Option<RouteQuote>,
    outcome: OutcomeView,
)
    ensures
        ({
            let p = started(intent, bound, can_submit).after(EventView::Quoted(route)).after(
                EventView::Simulated(outcome),
            );
            &&& p.decision is Some
            &&& p.decision->0 is Submit <==> route is Some && outcome.spot.success && outcome.hedge
                is Some && outcome.hedge->0.success && route->0.price_age_secs <= bound
            &&& p.step is Submit <==> p.decision->0 is Submit && can_submit
            &&& p.step is Done <==> !(p.decision->0 is Submit && can_submit)
            &&& p.result is None
            &&& route is None ==> p.decision->0 == DecisionView::Reject(
                settler::RejectView::NoQuote,
            )
            &&& route is Some && outcome.spot.success && outcome.hedge is Some
                && outcome.hedge->0.success && route->0.price_age_secs > bound ==> p.decision->0
                == DecisionView::Reject(
                settler::RejectView::PriceTooStale {
                    age_secs: route->0.price_age_secs,
                    max_secs: bound,
                },
            )
        }),
{
}

/// Whatever happened, an intent that waits for a submission, that was decided to be submitted or that
/// was settled had been quoted a route whose price is no older than the bound, and then been given a
/// simulation in which both legs succeeded; what is submitted goes to the venue of that route.
pub proof fn lemma_only_fresh_successes_are_submitted(
    intent: IntentView,
    bound: u64,
    can_submit: bool,
    events: Seq<EventView>,
)
    ensures
        ({
            let p = started(intent, bound, can_submit).after_all(events);
            p.step is Submit || p.result is Some || (p.decision is Some && p.decision->0 is Submit)
                ==> exists|i: int, j: int|
                0 <= i < j < events.len() && (#[trigger] events[i]) is Quoted
                    && events[i]->Quoted_0 is Some && events[i]->Quoted_0->0.price_age_secs
                    <= bound && (#[trigger] events[j]) is Simulated
                    && events[j]->Simulated_0.spot.success && events[j]->Simulated_0.hedge is Some
                    && events[j]->Simulated_0.hedge->0.success && p.decision is Some
                    && p.decision->0 is Submit && p.decision->0->Submit_0.intent_id
                    == intent.intent_id && p.decision->0->Submit_0.hedge.to
                    == events[i]->Quoted_0->0.hedge_venue@
        }),
        started(intent, bound, can_submit).after_all(events).step matches PipelineStep::Simulate(
            route,
        ) ==> exists|i: int|
            0 <= i < events.len() && #[trigger] events[i] == EventView::Quoted(route),
    decreases events.len(),
{
    if events.len() > 0 {
        let head = events.drop_last();
        lemma_only_fresh_successes_are_submitted(intent, bound, can_submit, head);
        lemma_intent_stays(intent, bound, can_submit, head);
        lemma_stages_are_in_order(intent, bound, can_submit, head);
        let before = started(intent, bound, can_submit).after_all(head);
        let after = before.after(events.last());
        let last = events.len() - 1;
        assert(events[last] == events.last());
        if before.step is Submit || before.result is Some || (before.decision is Some
            && before.decision->0 is Submit) {
            let (i, j) = choose|i: int, j: int|
                0 <= i < j < head.len() && (#[trigger] head[i]) is Quoted && head[i]->Quoted_0
                    is Some && head[i]->Quoted_0->0.price_age_secs <= bound && (#[trigger] head[j])
                    is Simulated && head[j]->Simulated_0.spot.success && head[j]->Simulated_0.hedge
                    is Some && head[j]->Simulated_0.hedge->0.success && before.decision is Some
                    && before.decision->0 is Submit && before.decision->0->Submit_0.intent_id
                    == intent.intent_id && before.decision->0->Submit_0.hedge.to
                    == head[i]->Quoted_0->0.hedge_venue@;
            assert(events[i] == head[i] && events[j] == head[j]);
        } else if let PipelineStep::Simulate(route) = before.step {
            let i = choose|i: int|
                0 <= i < head.len() && #[trigger] head[i] == EventView::Quoted(route);
            assert(events[i] == head[i]);
            assert(events[last] == events.last());
        }
    }
}

/// Each event that a step waits for moves the intent one step on, logs the stages that it reached and
/// keeps what it brought; every other event changes nothing.
pub proof fn lemma_each_event_moves_one_step(
    p: PipelineView,
    route: Option<RouteQuote>,
    outcome: OutcomeView,
    result: SettlementResult,
)
    ensures
        p.step is Quote ==> {
            let after = p.after(EventView::Quoted(route));
            &&& after.step == PipelineStep::Simulate(route)
            &&& after.stages == if route is Some {
                p.stages.push(Stage::Quoted)
            } else {
                p.stages
            }
            &&& after.decision == p.decision && after.result == p.result
        },
        p.step is Simulate ==> {
            let after = p.after(EventView::Simulated(outcome));
            &&& after.stages == p.stages.push(Stage::Simulated).push(Stage::Decided)
            &&& after.decision == Some(
                settler::decision_of(
                    outcome,
                    p.step->Simulate_0,
                    p.intent,
                    p.max_price_age_secs,
                ),
            )
            &&& after.step is Submit || after.step is Done
            &&& after.result == p.result
        },
        p.step is Simulate ==> {
            let after = p.after(EventView::SimulationFailed);
            &&& after.step is Done
            &&& after.stages == p.stages && after.decision == p.decision && after.result == p.result
        },
        p.step is Submit ==> {
            let after = p.after(EventView::Settled(result));
            &&& after.step is Done
            &&& after.result == Some(result)
            &&& after.stages == p.stages.push(Stage::Settled)
            &&& after.decision == p.decision
        },
        p.step is Submit ==> {
            let after = p.after(EventView::SubmitFailed);
            &&& after.step is Done
            &&& after.stages == p.stages && after.decision == p.decision && after.result == p.result
        },
        p.step !is Quote ==> p.after(EventView::Quoted(route)) == p,
        p.step !is Simulate ==> p.after(EventView::Simulated(outcome)) == p,
        p.step !is Simulate ==> p.after(EventView::SimulationFailed) == p,
        p.step !is Submit ==> p.after(EventView::Settled(result)) == p,
        p.step !is Submit ==> p.after(EventView::SubmitFailed) == p,
        p.after(EventView::StoreFailed) == p,
        p.after(EventView::Quoted(route)).intent == p.intent,
        p.after(EventView::Simulated(outcome)).intent == p.intent,
        p.after(EventView::Settled(result)).intent == p.intent,
{
}

/// Whatever happened, an intent that was settled went through all five stages in order, and one that
/// was not settled has no such stage; a result is there exactly where the last stage is.
pub proof fn lemma_settled_went_through_every_stage(
    intent: IntentView,
    bound: u64,
    can_submit: bool,
    events: Seq<EventView>,
)
    ensures
        ({
            let p = started(intent, bound, can_submit).after_all(events);
            &&& p.stages.len() > 0 && p.stages[0] == Stage::Observed
            &&& p.result is Some <==> p.stages.contains(Stage::Settled)
            &&& p.result is Some ==> p.stages == seq![
                Stage::Observed,
                Stage::Quoted,
                Stage::Simulated,
                Stage::Decided,
                Stage::Settled,
            ]
            &&& p.decision is Some <==> p.stages.contains(Stage::Decided)
        }),
{
    lemma_stages_are_in_order(intent, bound, can_submit, events);
    let p = started(intent, bound, can_submit).after_all(events);
    if p.result is Some {
        assert(p.stages[4] == Stage::Settled);
    }
    if p.decision is Some {
        assert(p.stages.len() > 2);
        if p.stages.len() == 3 {
            assert(p.stages[2] == Stage::Decided);
        } else {
            assert(p.stages[3] == Stage::Decided);
        }
    }
    if p.result is Some {
        assert(p.stages =~= seq![
            Stage::Observed,
            Stage::Quoted,
            Stage::Simulated,
            Stage::Decided,
            Stage::Settled,
        ]);
    }
}

} // verus!
