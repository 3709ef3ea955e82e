use alloy::primitives::keccak256;
use telos::abi::DecodeError;
use telos::listener::{
    fill_filter, handle_fill_log, handle_intent_log, intent_filter, route_for, Pipeline,
    PipelineEvent, PipelineStep,
};
use telos::primitives::B256;
use telos::settler::{
    DecisionConfig, LegOutcome, PriceBook, RejectReason, SettlerDecision, SimulationOutcome,
};
use telos::store::{Stage, Store};
use telos::types::{Log, PaymentIntent, RouteQuote, SettlementResult};

const INTENT: &str = "PaymentIntent(bytes32,address,address,address,uint256,uint16,uint64)";
const FILL: &str = "Fill(address,bytes32,address,bool,uint64,uint64,uint64)";

fn word(tail: &[u8]) -> B256 {
    let mut word = [0u8; 32];
    word[32 - tail.len()..].copy_from_slice(tail);
    word
}

fn intent() -> PaymentIntent {
    PaymentIntent {
        intent_id: [1; 32],
        payer: [0xbe; 20],
        merchant: [0xfe; 20],
        settlement_asset: [0xca; 20],
        settlement_amount: word(&[9]),
        max_slippage_bps: 50,
        deadline: 17,
    }
}

fn intent_log() -> Log {
    Log {
        topics: vec![
            keccak256(INTENT.as_bytes()).0,
            [1; 32],
            word(&[0xbe; 20]),
            word(&[0xfe; 20]),
        ],
        data: [word(&[0xca; 20]), word(&[9]), word(&[50]), word(&[17])].concat(),
    }
}

fn fill_log(price: u8) -> Log {
    Log {
        topics: vec![keccak256(FILL.as_bytes()).0, word(&[3; 20]), [4; 32], word(&[0xca; 20])],
        data: [word(&[1]), word(&[price]), word(&[2]), word(&[100])].concat(),
    }
}

fn outcome(success: bool) -> SimulationOutcome {
    let leg = LegOutcome { success, gas_used: 1, revert_reason: None };
    SimulationOutcome {
        spot: leg.clone(),
        hedge: Some(leg),
        transfer_emitted: success,
        hedge_acked: success,
        atomic_success: success,
    }
}

fn route() -> RouteQuote {
    let mut prices = PriceBook::new();
    handle_fill_log(&fill_log(7), &mut prices).unwrap();
    route_for(&intent(), &prices, Some(&[0x99; 20]), Some(105)).unwrap()
}

fn run(can_submit: bool, events: Vec<PipelineEvent>) -> Pipeline {
    let mut pipeline = Pipeline::start(intent(), DecisionConfig::default(), can_submit);
    for event in &events {
        pipeline.advance(event);
    }
    pipeline
}

fn dry_run() -> SettlementResult {
    SettlementResult::DryRun { intent_id: [1; 32], estimated_gas: 5 }
}

#[test]
fn filters_ask_for_one_event_of_one_contract() {
    let filter = intent_filter(&[6; 20]);
    assert_eq!((filter.address, filter.topic0), ([6; 20], keccak256(INTENT.as_bytes()).0));
    let filter = fill_filter(&[7; 20]);
    assert_eq!((filter.address, filter.topic0), ([7; 20], keccak256(FILL.as_bytes()).0));
}

#[test]
fn trades_move_the_book() {
    let mut prices = PriceBook::new();
    assert_eq!(handle_fill_log(&intent_log(), &mut prices), Err(DecodeError::Signature));
    assert_eq!(prices.get(&[0xca; 20]), None);
    let fill = handle_fill_log(&fill_log(7), &mut prices).unwrap();
    assert_eq!((fill.price_e8, fill.size_e8, fill.timestamp), (7, 2, 100));
    handle_fill_log(&fill_log(8), &mut prices).unwrap();
    assert_eq!(prices.get(&[0xca; 20]).unwrap().price_e8, 8);
}

#[test]
fn routes_need_a_venue_a_price_and_a_clock() {
    let mut prices = PriceBook::new();
    let venue = Some(&[0x99; 20]);
    assert_eq!(route_for(&intent(), &prices, venue, Some(105)), None);
    handle_fill_log(&fill_log(7), &mut prices).unwrap();
    assert_eq!(route_for(&intent(), &prices, None, Some(105)), None);
    assert_eq!(route_for(&intent(), &prices, venue, None), None);
    let route = route_for(&intent(), &prices, venue, Some(105)).unwrap();
    assert_eq!((route.price_e8, route.price_age_secs), (7, 5));
    assert_eq!((route.hedge_venue, route.hedge_size), ([0x99; 20], intent().settlement_amount));
}

#[test]
fn intents_enter_the_pipeline() {
    let cfg = DecisionConfig::default();
    let pipeline = handle_intent_log(&intent_log(), cfg, true).unwrap();
    assert_eq!(pipeline.intent, intent());
    assert_eq!(pipeline.step, PipelineStep::Quote);
    assert_eq!(pipeline.stages, [Stage::Observed]);
    assert_eq!(handle_intent_log(&fill_log(7), cfg, true), Err(DecodeError::Signature));
}

#[test]
fn an_approved_intent_goes_through_all_stages() {
    let pipeline = run(
        true,
        vec![
            PipelineEvent::Quoted(Some(route())),
            PipelineEvent::Simulated(outcome(true)),
        ],
    );
    assert_eq!(pipeline.step, PipelineStep::Submit);
    assert!(matches!(pipeline.decision, Some(SettlerDecision::Submit(_))));
    let pipeline = run(
        true,
        vec![
            PipelineEvent::Quoted(Some(route())),
            PipelineEvent::Simulated(outcome(true)),
            PipelineEvent::Settled(dry_run()),
        ],
    );
    assert_eq!(pipeline.step, PipelineStep::Done);
    assert_eq!(pipeline.result, Some(dry_run()));
    assert_eq!(
        pipeline.stages,
        [Stage::Observed, Stage::Quoted, Stage::Simulated, Stage::Decided, Stage::Settled]
    );
}

#[test]
fn without_a_quote_the_spot_leg_is_still_simulated() {
    let pipeline = run(true, vec![PipelineEvent::Quoted(None)]);
    assert_eq!(pipeline.step, PipelineStep::Simulate(None));
    let pipeline =
        run(true, vec![PipelineEvent::Quoted(None), PipelineEvent::Simulated(outcome(true))]);
    assert_eq!(pipeline.step, PipelineStep::Done);
    assert_eq!(pipeline.decision, Some(SettlerDecision::Reject(RejectReason::NoQuote)));
    assert_eq!(pipeline.stages, [Stage::Observed, Stage::Simulated, Stage::Decided]);
}

#[test]
fn rejections_and_failures_end_the_pipeline() {
    let quoted = PipelineEvent::Quoted(Some(route()));
    let rejected = run(true, vec![quoted.clone(), PipelineEvent::Simulated(outcome(false))]);
    assert_eq!(rejected.step, PipelineStep::Done);
    assert_eq!(
        rejected.decision,
        Some(SettlerDecision::Reject(RejectReason::SpotWouldRevert(None)))
    );
    let failed = run(true, vec![quoted.clone(), PipelineEvent::SimulationFailed]);
    assert_eq!(failed.step, PipelineStep::Done);
    assert_eq!(failed.stages, [Stage::Observed, Stage::Quoted]);
    let unsent = run(
        true,
        vec![quoted, PipelineEvent::Simulated(outcome(true)), PipelineEvent::SubmitFailed],
    );
    assert_eq!(unsent.step, PipelineStep::Done);
    assert_eq!(unsent.result, None);
}

#[test]
fn without_a_submitter_nothing_is_submitted() {
    let pipeline = run(
        false,
        vec![
            PipelineEvent::Quoted(Some(route())),
            PipelineEvent::Simulated(outcome(true)),
            PipelineEvent::Settled(dry_run()),
        ],
    );
    assert!(matches!(pipeline.decision, Some(SettlerDecision::Submit(_))));
    assert_eq!(pipeline.step, PipelineStep::Done);
    assert_eq!(pipeline.result, None);
}

#[test]
fn a_store_failure_changes_nothing() {
    let events = vec![
        PipelineEvent::Quoted(Some(route())),
        PipelineEvent::Simulated(outcome(true)),
        PipelineEvent::Settled(dry_run()),
    ];
    let mut noisy = Vec::new();
    for event in &events {
        noisy.push(PipelineEvent::StoreFailed);
        noisy.push(event.clone());
    }
    assert_eq!(run(true, noisy), run(true, events));
}

#[test]
fn a_logged_intent_is_in_flight_until_settled() {
    let events = vec![
        PipelineEvent::Quoted(Some(route())),
        PipelineEvent::Simulated(outcome(true)),
        PipelineEvent::Settled(dry_run()),
    ];
    for n in 0..=events.len() {
        let pipeline = run(true, events[..n].to_vec());
        let mut store = Store::new();
        for stage in &pipeline.stages {
            let id = &pipeline.intent.intent_id;
            store.record_event(id, *stage, "null".to_string(), Some(1));
        }
        assert_eq!(store.count_pending() == 1, pipeline.result.is_none());
    }
}
