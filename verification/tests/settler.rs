use alloy::primitives::keccak256;
use alloy::sol_types::{Revert, SolError};
use revm::bytecode::Bytecode;
use revm::database::{CacheDB, EmptyDB};
use revm::state::AccountInfo;
use telos::evm::{hash_means_code, Run};
use telos::primitives::{Address, B256};
use telos::settler::{
    build_hedge_tx, build_tx, decode_leg, decode_outcome, quote_route, run_legs, should_submit,
    simulate_settlement, DecisionConfig, LegOutcome, LegRun, PreparedTx, PriceBook, RejectReason,
    SettlerDecision, Simulation, SimulationOutcome, SubmissionPlan, LEG_GAS_LIMIT,
};
use telos::types::{Fill, Log, PaymentIntent, PriceQuote, PriceSource, RouteQuote};

fn number_word(n: u64) -> B256 {
    let mut word = [0u8; 32];
    word[24..].copy_from_slice(&n.to_be_bytes());
    word
}

fn address_word(address: Address) -> B256 {
    let mut word = [0u8; 32];
    word[12..].copy_from_slice(&address);
    word
}

fn intent() -> PaymentIntent {
    PaymentIntent {
        intent_id: [1; 32],
        payer: [0xbe; 20],
        merchant: [0xfe; 20],
        settlement_asset: [0xca; 20],
        settlement_amount: number_word(1_000),
        max_slippage_bps: 50,
        deadline: 1_700_000_000,
    }
}

fn fill(asset: Address, price_e8: u64, timestamp: u64) -> Fill {
    Fill { trader: [3; 20], order_id: [4; 32], asset, is_buy: true, price_e8, size_e8: 1, timestamp }
}

fn route(price_age_secs: u64) -> RouteQuote {
    RouteQuote {
        intent_id: [1; 32],
        spot_asset: [0xca; 20],
        spot_amount: number_word(1_000),
        hedge_venue: [0x99; 20],
        hedge_size: number_word(1_000),
        price_e8: 7,
        price_age_secs,
    }
}

fn transfer_log(from: Address, to: Address) -> Log {
    Log {
        topics: vec![
            keccak256(b"Transfer(address,address,uint256)").0,
            address_word(from),
            address_word(to),
        ],
        data: number_word(1_000).to_vec(),
    }
}

fn order_log(asset: Address) -> Log {
    Log {
        topics: vec![
            keccak256(b"OrderPlaced(bytes32,address,uint256)").0,
            [5; 32],
            address_word(asset),
        ],
        data: number_word(1_000).to_vec(),
    }
}

fn leg_run(success: bool, gas_used: u64, output: Option<Vec<u8>>, logs: Vec<Log>) -> LegRun {
    LegRun { code: true, run: Run { success, gas_used, output, logs } }
}

fn success(logs: Vec<Log>) -> LegRun {
    leg_run(true, 30_000, Some(vec![]), logs)
}

fn revert(output: Vec<u8>) -> LegRun {
    leg_run(false, 22_000, Some(output), vec![])
}

fn halt() -> LegRun {
    leg_run(false, 200_000, None, vec![])
}

/// Selector, offset, length, and the text padded to whole words.
fn canonical_payload(reason: &str) -> Vec<u8> {
    let mut payload = vec![0x08, 0xc3, 0x79, 0xa0];
    payload.extend(number_word(32));
    payload.extend(number_word(reason.len() as u64));
    payload.extend(reason.as_bytes());
    payload.resize(4 + 64 + reason.len().div_ceil(32) * 32, 0);
    payload
}

/// A database in which these accounts have this code.
fn database(contracts: Vec<(Address, Vec<u8>)>) -> CacheDB<EmptyDB> {
    let mut db = CacheDB::<EmptyDB>::default();
    for (address, code) in contracts {
        let code = Bytecode::new_raw(code.into());
        db.insert_account_info(address.into(), AccountInfo::from_bytecode(code));
    }
    db
}

/// Code that emits its second argument under a signature, `first`, and `second`.
fn emitter(signature: &str, first: &[u8], second: &[u8]) -> Vec<u8> {
    // mstore(0, calldataload(36))
    let mut code = vec![0x60, 0x24, 0x35, 0x60, 0x00, 0x52];
    code.extend(second);
    code.extend(first);
    code.push(0x7f);
    code.extend(keccak256(signature.as_bytes()));
    // log3(0, 32, signature, first, second)
    code.extend([0x60, 0x20, 0x60, 0x00, 0xa3, 0x00]);
    code
}

/// A token whose transfers always succeed.
fn token() -> Vec<u8> {
    // The caller, and the first argument.
    emitter("Transfer(address,address,uint256)", &[0x33], &[0x60, 0x04, 0x35])
}

/// A venue that takes every order.
fn venue() -> Vec<u8> {
    // An order number, and the first argument.
    emitter("OrderPlaced(bytes32,address,uint256)", &[0x60, 0x07], &[0x60, 0x04, 0x35])
}

/// Code that reverts with a payload.
fn reverter(payload: &[u8]) -> Vec<u8> {
    let n = payload.len() as u8;
    // codecopy(0, 12, n); revert(0, n)
    let mut code = vec![0x60, n, 0x60, 0x0c, 0x60, 0x00, 0x39, 0x60, n, 0x60, 0x00, 0xfd];
    code.extend(payload);
    code
}

fn leg(success: bool, revert_reason: Option<&str>) -> LegOutcome {
    LegOutcome { success, gas_used: 1, revert_reason: revert_reason.map(|s| s.to_string()) }
}

fn outcome(spot: LegOutcome, hedge: Option<LegOutcome>) -> SimulationOutcome {
    SimulationOutcome {
        spot,
        hedge,
        transfer_emitted: false,
        hedge_acked: false,
        atomic_success: false,
    }
}

#[test]
fn the_book_keeps_the_last_price_of_each_asset() {
    let mut book = PriceBook::new();
    assert_eq!(book.get(&[0xca; 20]), None);
    book.record_fill(&fill([0xca; 20], 10, 100));
    book.record_fill(&fill([0xcb; 20], 20, 101));
    book.record_fill(&fill([0xca; 20], 11, 102));
    let expected = PriceQuote {
        asset: [0xca; 20],
        price_e8: 11,
        timestamp: 102,
        source: PriceSource::HlFill,
    };
    assert_eq!(book.get(&[0xca; 20]), Some(expected));
    assert_eq!(book.get(&[0xcb; 20]).unwrap().price_e8, 20);
    // An older trade that arrives later is still the last one.
    book.record_fill(&fill([0xca; 20], 9, 50));
    assert_eq!(book.get(&[0xca; 20]).unwrap().price_e8, 9);
    assert_eq!(PriceBook::default().get(&[0xca; 20]), None);
}

#[test]
fn routes_hedge_one_to_one() {
    let mut book = PriceBook::new();
    assert_eq!(quote_route(&intent(), &book, &[0x99; 20], Some(105)), None);
    book.record_fill(&fill([0xca; 20], 7, 100));
    assert_eq!(quote_route(&intent(), &book, &[0x99; 20], None), None);
    assert_eq!(quote_route(&intent(), &book, &[0x99; 20], Some(105)), Some(route(5)));
    // A clock behind the trade gives an age of zero.
    assert_eq!(quote_route(&intent(), &book, &[0x99; 20], Some(99)), Some(route(0)));
}

#[test]
fn legs_are_called_as_the_payer() {
    let tx = build_tx(&intent());
    assert_eq!((tx.caller, tx.to, tx.gas_limit), ([0xbe; 20], [0xca; 20], 200_000));
    assert_eq!(tx.data[..4], [0xa9, 0x05, 0x9c, 0xbb]);
    assert_eq!(tx.data[16..36], [0xfe; 20]);
    assert_eq!(tx.data[36..], number_word(1_000));
    assert_eq!(tx.nonce, 0);

    let tx = build_hedge_tx(&[0xbe; 20], &route(0), 50);
    assert_eq!((tx.caller, tx.to, tx.gas_limit), ([0xbe; 20], [0x99; 20], 200_000));
    assert_eq!(tx.data[..4], keccak256(b"placeShort(address,uint256,uint16)")[..4]);
    assert_eq!(tx.data[16..36], [0xca; 20]);
    assert_eq!(tx.data[36..68], number_word(1_000));
    assert_eq!(tx.data[68..], number_word(50));
    assert_eq!(tx.nonce, 1);
}

#[test]
fn revert_reasons_are_decoded() {
    let payload = Revert::from("ERC20: transfer amount exceeds balance").abi_encode();
    assert_eq!(payload[..4], [0x08, 0xc3, 0x79, 0xa0]);
    let leg = decode_leg(&revert(payload));
    assert_eq!(leg.revert_reason.as_deref(), Some("ERC20: transfer amount exceeds balance"));
    assert!(!leg.success);
    assert_eq!(leg.gas_used, 22_000);

    // The payload of every text gives the text back.
    for reason in ["", "a", "\u{3c4}\u{3ad}\u{3bb}\u{3bf}\u{3c2}", &"x".repeat(32), &"y".repeat(1_000)] {
        let leg = decode_leg(&revert(Revert::from(reason).abi_encode()));
        assert_eq!(leg.revert_reason.as_deref(), Some(reason));
        assert_eq!(Revert::from(reason).abi_encode(), canonical_payload(reason));
    }

    // Other payloads have no reason.
    assert_eq!(decode_leg(&revert(vec![])).revert_reason, None);
    assert_eq!(decode_leg(&revert(vec![0x4e, 0x48, 0x7b, 0x71, 0])).revert_reason, None);
    assert_eq!(decode_leg(&revert(vec![0x08, 0xc3, 0x79, 0xa0])).revert_reason, None);
    assert_eq!(decode_leg(&halt()).revert_reason, None);

    // A call that returned such a payload did not revert.
    let mut returned = success(vec![]);
    returned.run.output = Some(Revert::from("no").abi_encode());
    assert_eq!(decode_leg(&returned).revert_reason, None);
}

#[test]
fn outcomes_tell_the_legs_apart() {
    let spot = success(vec![order_log([7; 20]), transfer_log([0xbe; 20], [0xfe; 20])]);
    let alone = decode_outcome(&spot, None, &intent());
    assert!(alone.spot.success && alone.transfer_emitted && alone.atomic_success);
    assert!(alone.hedge.is_none() && !alone.hedge_acked);

    let both = decode_outcome(&spot, Some(&success(vec![order_log([0xca; 20])])), &intent());
    assert!(both.hedge_acked && both.atomic_success);

    let unacked = decode_outcome(&spot, Some(&success(vec![order_log([0xcb; 20])])), &intent());
    assert!(!unacked.hedge_acked && unacked.atomic_success);

    let broken = decode_outcome(&spot, Some(&halt()), &intent());
    assert!(broken.spot.success && !broken.hedge.as_ref().unwrap().success);
    assert!(!broken.atomic_success);

    let spot_broken = decode_outcome(&halt(), Some(&success(vec![])), &intent());
    assert!(!spot_broken.atomic_success && spot_broken.hedge.unwrap().success);
}

#[test]
fn only_the_payers_transfer_to_the_merchant_counts() {
    for (from, to) in [([1; 20], [0xfe; 20]), ([0xbe; 20], [2; 20]), ([0xfe; 20], [0xbe; 20])] {
        let spot = success(vec![transfer_log(from, to)]);
        assert!(!decode_outcome(&spot, None, &intent()).transfer_emitted);
    }
    // The logs of a run that failed do not count.
    let mut failed = revert(vec![]);
    failed.run.logs = vec![transfer_log([0xbe; 20], [0xfe; 20])];
    assert!(!decode_outcome(&failed, None, &intent()).transfer_emitted);
}

#[test]
fn the_spot_leg_fails_on_the_empty_state() {
    let outcome = simulate_settlement(&intent(), None).unwrap();
    assert!(!outcome.spot.success && !outcome.atomic_success);
    assert!(!outcome.transfer_emitted);
    assert_eq!(outcome.spot.revert_reason, None);
    assert!(outcome.spot.gas_used > 21_000 && outcome.spot.gas_used <= LEG_GAS_LIMIT);
    assert_eq!(outcome.hedge, None);
    assert_eq!(simulate_settlement(&intent(), None).unwrap(), outcome);
    // So nothing is ever submitted without a chain.
    let both = simulate_settlement(&intent(), Some(&route(0))).unwrap();
    assert_eq!(both.spot, outcome.spot);
    let hedge = both.hedge.as_ref().unwrap();
    assert!(!hedge.success && hedge.revert_reason.is_none() && !both.hedge_acked);
    assert!(hedge.gas_used > 21_000 && hedge.gas_used <= LEG_GAS_LIMIT);
    assert_eq!(
        should_submit(&both, Some(&route(0)), &intent(), &DecisionConfig::default()),
        SettlerDecision::Reject(RejectReason::SpotWouldRevert(None))
    );
}

#[test]
fn every_asset_fails_on_the_empty_state() {
    // The addresses of the stock precompiles have no code either.
    for n in 0..=0x12u8 {
        let mut asset = [0u8; 20];
        asset[19] = n;
        let stuck = PaymentIntent { settlement_asset: asset, ..intent() };
        let outcome = simulate_settlement(&stuck, None).unwrap();
        assert!(!outcome.spot.success && !outcome.transfer_emitted);
        assert_eq!(outcome.spot.revert_reason, None);
        assert!(outcome.spot.gas_used <= LEG_GAS_LIMIT);
        // The second leg is valid whatever the venue is.
        let hedged = RouteQuote { hedge_venue: asset, ..route(0) };
        let outcome = simulate_settlement(&stuck, Some(&hedged)).unwrap();
        assert!(!outcome.hedge.unwrap().success && !outcome.hedge_acked);
    }
}

#[test]
fn accounts_without_code_do_not_count_as_settled() {
    let mut returned = success(vec![transfer_log([0xbe; 20], [0xfe; 20])]);
    returned.code = false;
    let outcome = decode_outcome(&returned, None, &intent());
    assert!(!outcome.spot.success && !outcome.transfer_emitted && !outcome.atomic_success);
    let mut reverted = revert(Revert::from("no").abi_encode());
    reverted.code = false;
    assert_eq!(decode_leg(&reverted).revert_reason, None);

    assert!(!hash_means_code(None));
    assert!(!hash_means_code(Some(&keccak256([]).0)));
    assert!(hash_means_code(Some(&[0; 32])));
}

#[test]
fn both_legs_run_over_contracts() {
    let mut db = database(vec![([0xca; 20], token()), ([0x99; 20], venue())]);
    let outcome = run_legs(&mut db, &intent(), Some(&route(0))).unwrap();
    // The payer's second transaction is valid only over what the first one left.
    assert!(outcome.spot.success && outcome.hedge.as_ref().unwrap().success);
    assert!(outcome.transfer_emitted && outcome.hedge_acked && outcome.atomic_success);
    // The payer's nonce moved, so the same legs are no valid calls any more.
    assert!(run_legs(&mut db, &intent(), Some(&route(0))).is_err());

    let mut db = database(vec![([0xca; 20], token()), ([0x99; 20], venue())]);
    let alone = run_legs(&mut db, &intent(), None).unwrap();
    assert_eq!(alone.spot, outcome.spot);
    assert!(alone.atomic_success && alone.hedge.is_none());
}

#[test]
fn a_venue_without_code_fails_the_hedge_leg() {
    let mut db = database(vec![([0xca; 20], token())]);
    let outcome = run_legs(&mut db, &intent(), Some(&route(0))).unwrap();
    assert!(outcome.spot.success && outcome.transfer_emitted);
    assert!(!outcome.hedge.unwrap().success && !outcome.atomic_success);
}

#[test]
fn a_token_that_reverts_gives_its_reason() {
    let payload = Revert::from("ERC20: transfer amount exceeds balance").abi_encode();
    let mut db = database(vec![([0xca; 20], reverter(&payload)), ([0x99; 20], venue())]);
    let outcome = run_legs(&mut db, &intent(), Some(&route(0))).unwrap();
    assert_eq!(
        outcome.spot.revert_reason.as_deref(),
        Some("ERC20: transfer amount exceeds balance")
    );
    assert!(!outcome.spot.success && outcome.hedge_acked && !outcome.atomic_success);
}

#[test]
fn a_leg_that_is_cut_off_uses_all_its_gas() {
    // An invalid opcode.
    let mut db = database(vec![([0xca; 20], vec![0xfe])]);
    let outcome = run_legs(&mut db, &intent(), None).unwrap();
    assert!(!outcome.spot.success);
    assert_eq!(outcome.spot.gas_used, LEG_GAS_LIMIT);
    assert_eq!(outcome.spot.revert_reason, None);
}

#[test]
fn decisions_reject_in_order() {
    let cfg = DecisionConfig::default();
    assert_eq!(cfg.max_price_age_secs, 30);
    let bad_spot = leg(false, Some("no balance"));
    let bad_hedge = leg(false, Some("no bytecode"));
    let good = leg(true, None);

    let reject = |o: &SimulationOutcome, r: Option<&RouteQuote>| {
        match should_submit(o, r, &intent(), &cfg) {
            SettlerDecision::Reject(reason) => reason,
            SettlerDecision::Submit(plan) => panic!("unexpected {plan:?}"),
        }
    };
    let all_bad = outcome(bad_spot, Some(bad_hedge.clone()));
    assert_eq!(reject(&all_bad, None), RejectReason::NoQuote);
    assert_eq!(
        reject(&all_bad, Some(&route(99))),
        RejectReason::SpotWouldRevert(Some("no balance".to_string()))
    );
    let hedge_bad = outcome(good.clone(), Some(bad_hedge));
    assert_eq!(
        reject(&hedge_bad, Some(&route(99))),
        RejectReason::HedgeWouldRevert(Some("no bytecode".to_string()))
    );
    let no_hedge = outcome(good.clone(), None);
    assert_eq!(reject(&no_hedge, Some(&route(99))), RejectReason::HedgeWouldRevert(None));
    let stale = outcome(good.clone(), Some(good));
    assert_eq!(
        reject(&stale, Some(&route(31))),
        RejectReason::PriceTooStale { age_secs: 31, max_secs: 30 }
    );
}

#[test]
fn an_approved_intent_sends_the_hedge_alone() {
    let good = outcome(leg(true, None), Some(leg(true, None)));
    let cfg = DecisionConfig::default();
    let tx = build_hedge_tx(&[0xbe; 20], &route(30), 50);
    let plan = SubmissionPlan {
        intent_id: [1; 32],
        hedge: PreparedTx { to: [0x99; 20], data: tx.data, gas_limit: 200_000 },
    };
    assert_eq!(
        should_submit(&good, Some(&route(30)), &intent(), &cfg),
        SettlerDecision::Submit(plan)
    );
}

#[test]
fn a_simulation_asks_for_its_calls_in_order() {
    let mut sim = Simulation::new(&intent(), Some(&route(0)));
    assert_eq!(sim.result(), None);
    assert_eq!(sim.next_call(), Some(build_tx(&intent())));
    sim.take(Ok(success(vec![transfer_log([0xbe; 20], [0xfe; 20])])));
    assert_eq!(sim.result(), None);
    assert_eq!(sim.next_call(), Some(build_hedge_tx(&[0xbe; 20], &route(0), 50)));
    sim.take(Ok(success(vec![order_log([0xca; 20])])));
    assert_eq!(sim.next_call(), None);
    let outcome = sim.result().unwrap().unwrap();
    assert!(outcome.transfer_emitted && outcome.hedge_acked && outcome.atomic_success);
    // What no call asked for is dropped.
    sim.take(Ok(halt()));
    sim.take(Err("late".to_string()));
    assert_eq!(sim.result(), Some(Ok(outcome)));

    let mut alone = Simulation::new(&intent(), None);
    alone.take(Ok(revert(vec![])));
    assert_eq!(alone.next_call(), None);
    assert!(!alone.result().unwrap().unwrap().atomic_success);
}

#[test]
fn a_leg_that_cannot_run_fails_the_simulation() {
    let mut sim = Simulation::new(&intent(), Some(&route(0)));
    sim.take(Err("unreachable".to_string()));
    assert_eq!(sim.next_call(), None);
    assert_eq!(sim.result(), Some(Err("unreachable".to_string())));
    sim.take(Ok(success(vec![])));
    assert_eq!(sim.result(), Some(Err("unreachable".to_string())));

    let mut sim = Simulation::new(&intent(), Some(&route(0)));
    sim.take(Ok(success(vec![])));
    sim.take(Err("nonce too low".to_string()));
    assert_eq!(sim.result(), Some(Err("nonce too low".to_string())));
}
