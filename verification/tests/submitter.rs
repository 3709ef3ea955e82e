use alloy::primitives::keccak256;
use telos::primitives::{Address, B256};
use telos::settler::{PreparedTx, SubmissionPlan};
use telos::submitter::{
    build_request, infer_asset_from_calldata, ConfirmConfig, Receipt, Submission, SubmitError,
    SubmitEvent, SubmitPhase, Submitter, Timeout,
};
use telos::types::{Log, SettlementResult};

const KEY: &str = "0000000000000000000000000000000000000000000000000000000000000001";
const SIGNER: Address = [
    0x7e, 0x5f, 0x45, 0x52, 0x09, 0x1a, 0x69, 0x12, 0x5d, 0x5d, 0xfc, 0xb7, 0xb8, 0xc2, 0x65, 0x90,
    0x29, 0x39, 0x5b, 0xdf,
];

fn plan() -> SubmissionPlan {
    let data = telos::abi::encode_place_short(&[0xca; 20], &[2; 32], 50);
    SubmissionPlan {
        intent_id: [1; 32],
        hedge: PreparedTx { to: [0x99; 20], data, gas_limit: 200_000 },
    }
}

fn submission(broadcast: bool) -> Submission {
    Submitter::new("http://localhost:8545".to_string(), KEY, broadcast)
        .ok()
        .unwrap()
        .submit_and_confirm(&plan(), ConfirmConfig::default())
}

fn after(broadcast: bool, events: &[SubmitEvent]) -> SubmitPhase {
    let mut submission = submission(broadcast);
    for event in events {
        submission.advance(event);
    }
    submission.phase
}

fn order_log(asset: Address) -> Log {
    let mut word: B256 = [0; 32];
    word[12..].copy_from_slice(&asset);
    Log {
        topics: vec![keccak256(b"OrderPlaced(bytes32,address,uint256)").0, [5; 32], word],
        data: vec![0; 32],
    }
}

fn receipt(status: bool, logs: Vec<Log>) -> Receipt {
    Receipt { block_number: Some(12), gas_used: 34, status, logs }
}

#[test]
fn the_default_budget_is_one_confirmation_in_a_minute() {
    let cfg = ConfirmConfig::default();
    assert_eq!(cfg.confirmations, 1);
    assert_eq!(cfg.timeout, Timeout { secs: 60, subsec_nanos: 0 });
}

#[test]
fn keys_are_read_with_or_without_prefix() {
    for key in [KEY.to_string(), format!("0x{KEY}"), format!("0x0x{KEY}")] {
        let submitter = Submitter::new("http://x".to_string(), &key, false).ok().unwrap();
        assert_eq!(submitter.signer_address(), SIGNER);
        assert_eq!(submitter.signer_key(), KEY);
        assert_eq!(submitter.rpc_url(), "http://x");
    }
}

#[test]
fn texts_that_are_no_keys_are_errors() {
    let zero = "0".repeat(64);
    let order = "fffffffffffffffffffffffffffffffebaaedce6af48a03bbfd25e8cd0364141";
    for key in ["", "0x", "abc", &KEY[1..], zero.as_str(), order, &format!("{KEY}00"), &"g".repeat(64)]
    {
        let err = Submitter::new(String::new(), key, true).err().unwrap();
        assert_eq!(err, SubmitError::InvalidSignerKey, "{key}");
        assert_eq!(err.as_str(), "invalid TELOS_SIGNER_KEY");
    }
}

#[test]
fn the_largest_key_is_below_the_order() {
    let last = "fffffffffffffffffffffffffffffffebaaedce6af48a03bbfd25e8cd0364140";
    for key in [last.to_string(), format!("0x{last}"), format!("0X{last}"), last.to_uppercase()] {
        assert!(Submitter::new("not a url".to_string(), &key, true).is_ok(), "{key}");
    }
}

#[test]
fn clones_keep_the_broadcast_flag() {
    for broadcast in [false, true] {
        let submitter = Submitter::new("http://x".to_string(), KEY, broadcast).ok().unwrap();
        let copy = submitter.clone();
        assert_eq!(copy.signer_address(), SIGNER);
        assert_eq!((copy.rpc_url(), copy.signer_key()), ("http://x", KEY));
        let submission = copy.submit_and_confirm(&plan(), ConfirmConfig::default());
        assert_eq!(submission.broadcast, broadcast);
    }
}

#[test]
fn a_read_address_decides_the_submitter() {
    let built = Submitter::with_signer("u".to_string(), "k".to_string(), Some([7; 20]), true);
    assert_eq!(built.ok().unwrap().signer_address(), [7; 20]);
    let none = Submitter::with_signer("u".to_string(), "k".to_string(), None, true);
    assert_eq!(none.err(), Some(SubmitError::InvalidSignerKey));
}

#[test]
fn requests_carry_no_value() {
    let request = build_request(&SIGNER, &plan().hedge);
    assert_eq!(request.from, SIGNER);
    assert_eq!(request.to, [0x99; 20]);
    assert_eq!(request.input, plan().hedge.data);
    assert_eq!(request.gas_limit, 200_000);
    assert_eq!(request.value, [0; 32]);
}

#[test]
fn the_asset_is_read_back_from_the_calldata() {
    assert_eq!(infer_asset_from_calldata(&plan().hedge), [0xca; 20]);
    let mut short = plan().hedge;
    short.data.truncate(36);
    assert_eq!(infer_asset_from_calldata(&short), [0xca; 20]);
    short.data.truncate(35);
    assert_eq!(infer_asset_from_calldata(&short), [0; 20]);
}

#[test]
fn dry_runs_estimate_and_never_send() {
    assert_eq!(submission(false).phase, SubmitPhase::Connecting);
    assert_eq!(submission(false).request, build_request(&SIGNER, &plan().hedge));
    assert_eq!(after(false, &[SubmitEvent::Connected]), SubmitPhase::Estimating);
    assert_eq!(
        after(false, &[SubmitEvent::Connected, SubmitEvent::GasEstimated(77)]),
        SubmitPhase::Finished(SettlementResult::DryRun { intent_id: [1; 32], estimated_gas: 77 })
    );
    // Nothing that claims to have been sent moves a dry run.
    assert_eq!(
        after(false, &[SubmitEvent::Connected, SubmitEvent::Sent([8; 32])]),
        SubmitPhase::Estimating
    );
}

#[test]
fn submitter_problems_are_errors() {
    let failed = |phase| match phase {
        SubmitPhase::Failed(e) => e.as_str(),
        other => panic!("unexpected {other:?}"),
    };
    assert_eq!(failed(after(true, &[SubmitEvent::UrlRejected])), "invalid RPC URL");
    let events = [SubmitEvent::Connected, SubmitEvent::EstimationFailed];
    assert_eq!(failed(after(false, &events)), "gas estimation failed");
    let events = [SubmitEvent::Connected, SubmitEvent::SendFailed];
    assert_eq!(failed(after(true, &events)), "broadcast failed");
    // An RPC that is lost while the receipt is awaited is no timeout.
    let events = [
        SubmitEvent::Connected,
        SubmitEvent::Sent([8; 32]),
        SubmitEvent::ReceiptUnavailable,
    ];
    assert_eq!(failed(after(true, &events)), "receipt unavailable");
    // Before anything was sent there is no receipt to lose.
    let events = [SubmitEvent::Connected, SubmitEvent::ReceiptUnavailable];
    assert_eq!(after(true, &events), SubmitPhase::Sending);
}

#[test]
fn what_the_chain_does_is_a_result() {
    let sent = |last: SubmitEvent| {
        let phase = after(true, &[SubmitEvent::Connected, SubmitEvent::Sent([8; 32]), last]);
        match phase {
            SubmitPhase::Finished(result) => result,
            other => panic!("unexpected {other:?}"),
        }
    };
    assert_eq!(
        after(true, &[SubmitEvent::Connected, SubmitEvent::Sent([8; 32])]),
        SubmitPhase::Confirming([8; 32])
    );
    assert_eq!(
        sent(SubmitEvent::Mined(receipt(false, vec![]))),
        SettlementResult::Failed { intent_id: [1; 32], tx_hash: [8; 32], block_number: 12 }
    );
    assert_eq!(
        sent(SubmitEvent::NoReceipt),
        SettlementResult::Timeout { intent_id: [1; 32], tx_hash: [8; 32], waited_secs: 60 }
    );
    let confirmed = |hedge_acked| SettlementResult::Confirmed {
        intent_id: [1; 32],
        tx_hash: [8; 32],
        block_number: 12,
        gas_used: 34,
        hedge_acked,
    };
    let acked = receipt(true, vec![order_log([0xcb; 20]), order_log([0xca; 20])]);
    assert_eq!(sent(SubmitEvent::Mined(acked)), confirmed(true));
    let other = receipt(true, vec![order_log([0xcb; 20])]);
    assert_eq!(sent(SubmitEvent::Mined(other)), confirmed(false));
    assert_eq!(sent(SubmitEvent::Mined(receipt(true, vec![]))), confirmed(false));
}

#[test]
fn a_receipt_without_a_block_counts_as_block_zero() {
    let mut unplaced = receipt(false, vec![]);
    unplaced.block_number = None;
    let events =
        [SubmitEvent::Connected, SubmitEvent::Sent([8; 32]), SubmitEvent::Mined(unplaced)];
    assert_eq!(
        after(true, &events),
        SubmitPhase::Finished(SettlementResult::Failed {
            intent_id: [1; 32],
            tx_hash: [8; 32],
            block_number: 0,
        })
    );
}

#[test]
fn an_ended_submission_stays_ended() {
    let end = after(true, &[SubmitEvent::UrlRejected]);
    let events = [SubmitEvent::UrlRejected, SubmitEvent::Connected, SubmitEvent::Sent([8; 32])];
    assert_eq!(after(true, &events), end);
}

#[test]
fn submitters_can_be_shared() {
    fn assert_send_sync<T: Send + Sync>() {}
    assert_send_sync::<Submitter>();
}
