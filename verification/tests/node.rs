use alloy::primitives::keccak256;
use telos::calls::{digest_entry, run_call, tell_end, CallEnd, CallSet, RunEnd};
use telos::evm::CallTx;
use telos::node::{
    answer_call, call_output, call_tx, parse_chain_id, EthCallRequest, RpcError, TelosNode,
    DEFAULT_BIND_IP, DEFAULT_BIND_PORT, DEFAULT_CHAIN_ID,
};
use telos::precompile::{
    IDENTITY_ADDRESS, INTENT_DIGEST_INPUT_LEN, TELOS_INTENT_DIGEST_ADDRESS,
};

fn request(to: [u8; 20], data: Vec<u8>, gas: Option<u64>) -> EthCallRequest {
    EthCallRequest { to, from: None, data: Some(data), gas }
}

fn stock(n: u8) -> [u8; 20] {
    let mut address = [0u8; 20];
    address[19] = n;
    address
}

#[test]
fn chain_ids_are_hexadecimal() {
    assert_eq!(TelosNode::new(DEFAULT_CHAIN_ID).chain_id(), "0x7e105");
    for id in [0, 1, 31337, u64::MAX] {
        assert_eq!(TelosNode::new(id).chain_id(), format!("0x{id:x}"));
    }
}

#[test]
fn absent_fields_have_defaults() {
    let req = EthCallRequest { to: [9; 20], from: None, data: None, gas: None };
    let tx = call_tx(&req);
    assert_eq!((tx.to, tx.caller, tx.gas_limit, tx.nonce), ([9; 20], [0; 20], 1_000_000, 0));
    assert!(tx.data.is_empty());

    let req = EthCallRequest {
        to: [9; 20],
        from: Some([1; 20]),
        data: Some(vec![1, 2]),
        gas: Some(5),
    };
    let tx = call_tx(&req);
    assert_eq!((tx.caller, tx.data, tx.gas_limit), ([1; 20], vec![1, 2], 5));
}

#[test]
fn ends_become_outputs() {
    assert_eq!(call_output(Ok(CallEnd::Success(vec![1, 2]))), Ok(vec![1, 2]));
    assert_eq!(
        call_output(Ok(CallEnd::Revert(vec![0xab, 1]))),
        Err("revert: 0xab01".to_string())
    );
    assert_eq!(
        call_output(Ok(CallEnd::Halt("StackOverflow".to_string()))),
        Err("halt: StackOverflow".to_string())
    );
    assert_eq!(
        call_output(Err("nonce too low".to_string())),
        Err("transact: nonce too low".to_string())
    );
}

#[test]
fn answers_are_hexadecimal_or_errors() {
    assert_eq!(answer_call(Ok(CallEnd::Success(vec![0, 0xff]))), Ok("0x00ff".to_string()));
    assert_eq!(answer_call(Ok(CallEnd::Success(vec![]))), Ok("0x".to_string()));
    assert_eq!(
        answer_call(Ok(CallEnd::Revert(vec![]))),
        Err(RpcError { code: -32000, message: "call failed: revert: 0x".to_string() })
    );
    assert_eq!(
        answer_call(Err("bad".to_string())),
        Err(RpcError { code: -32000, message: "call failed: transact: bad".to_string() })
    );
}

#[test]
fn chain_id_settings() {
    assert_eq!(parse_chain_id(None), 0x7e105);
    assert_eq!(parse_chain_id(Some("31337")), 31337);
    assert_eq!(parse_chain_id(Some("0x10")), 0x7e105);
    assert_eq!(parse_chain_id(Some("")), 0x7e105);
    assert_eq!((DEFAULT_BIND_IP, DEFAULT_BIND_PORT), ([127, 0, 0, 1], 8545));
}

#[test]
fn eth_call_to_intent_digest_returns_canonical_keccak() {
    let node = TelosNode::new(31337);
    let calldata = vec![0x42u8; INTENT_DIGEST_INPUT_LEN];
    let req = EthCallRequest {
        to: TELOS_INTENT_DIGEST_ADDRESS,
        from: None,
        data: Some(calldata.clone()),
        gas: Some(100_000),
    };

    let resp = node.eth_call(&req).expect("eth_call succeeds");

    let expected = keccak256(calldata.as_slice());
    let expected_hex = format!("{expected:#x}");
    assert_eq!(resp, expected_hex, "digest must match off-chain keccak");
}

#[test]
fn the_digest_runs_from_the_gas_that_covers_it() {
    let node = TelosNode::new(1);
    // Without zero bytes, 160 bytes cost 2560 on top of the base, and the digest 4500.
    let data = vec![0x42u8; INTENT_DIGEST_INPUT_LEN];
    let hash = format!("{:#x}", keccak256(data.as_slice()));
    for gas in [Some(28_060), Some(16_777_216), None] {
        assert_eq!(
            node.eth_call(&request(TELOS_INTENT_DIGEST_ADDRESS, data.clone(), gas)),
            Ok(hash.clone())
        );
    }
    let short = node.eth_call(&request(TELOS_INTENT_DIGEST_ADDRESS, data.clone(), Some(28_059)));
    assert_eq!(
        short.unwrap_err().message,
        "call failed: halt: OutOfGas(Precompile)"
    );
    // So does the least limit with which the data is accepted: ten for each of its 640 units.
    let short = node.eth_call(&request(TELOS_INTENT_DIGEST_ADDRESS, data.clone(), Some(27_400)));
    assert_eq!(
        short.unwrap_err().message,
        "call failed: halt: OutOfGas(Precompile)"
    );
    // Above the cap, and below that limit, the call is not valid.
    for gas in [16_777_217, 27_399, 21_000] {
        let err = node
            .eth_call(&request(TELOS_INTENT_DIGEST_ADDRESS, data.clone(), Some(gas)))
            .unwrap_err();
        assert!(err.message.starts_with("call failed: transact: "), "{}", err.message);
    }
}

#[test]
fn zero_bytes_cost_less() {
    let node = TelosNode::new(1);
    let data = vec![0u8; INTENT_DIGEST_INPUT_LEN];
    let call = |gas| node.eth_call(&request(TELOS_INTENT_DIGEST_ADDRESS, data.clone(), Some(gas)));
    assert_eq!(call(26_140), Ok(format!("{:#x}", keccak256(data.as_slice()))));
    for gas in [26_139, 22_600] {
        assert_eq!(
            call(gas).unwrap_err().message,
            "call failed: halt: OutOfGas(Precompile)"
        );
    }
    assert!(call(22_599).unwrap_err().message.starts_with("call failed: transact: "));
}

#[test]
fn the_identity_hands_its_data_back() {
    let node = TelosNode::new(1);
    assert_eq!(
        node.eth_call(&request(IDENTITY_ADDRESS, vec![0xde, 0xad], None)),
        Ok("0xdead".to_string())
    );
    assert_eq!(
        node.eth_call(&request(IDENTITY_ADDRESS, vec![], Some(21_015))),
        Ok("0x".to_string())
    );
    assert_eq!(
        node.eth_call(&request(IDENTITY_ADDRESS, vec![], Some(21_014))).unwrap_err().message,
        "call failed: halt: OutOfGas(Precompile)"
    );
    // The digest does not stand in for a stock precompile of another kind.
    let sha256 = node.eth_call(&request(stock(2), b"abc".to_vec(), None)).unwrap();
    assert!(sha256.starts_with("0xba7816bf") && sha256.len() == 66);
}

#[test]
fn a_digest_call_of_the_wrong_length_is_refused() {
    let node = TelosNode::new(1);
    for len in [0, 1, 159, 161, 1_000] {
        assert_eq!(
            node.eth_call(&request(TELOS_INTENT_DIGEST_ADDRESS, vec![1; len], None)),
            Err(RpcError {
                code: -32000,
                message: "call failed: halt: PrecompileError".to_string()
            })
        );
    }
}

#[test]
fn stock_precompiles_and_empty_accounts_answer_too() {
    let node = TelosNode::new(1);
    assert_eq!(
        node.eth_call(&request(stock(4), vec![1, 2, 3], None)),
        Ok("0x010203".to_string())
    );
    assert_eq!(node.eth_call(&request([0x77; 20], vec![1], None)), Ok("0x".to_string()));
    // A stock precompile tells why it cut the call off.
    assert_eq!(
        node.eth_call(&request(stock(9), vec![1], None)).unwrap_err().message,
        "call failed: halt: PrecompileErrorWithContext(\"wrong input length for blake2\")"
    );
}

#[test]
fn answers_do_not_depend_on_what_came_before() {
    let node = TelosNode::new(1);
    let digest = vec![7u8; INTENT_DIGEST_INPUT_LEN];
    let requests = [
        request(TELOS_INTENT_DIGEST_ADDRESS, digest.clone(), None),
        request(TELOS_INTENT_DIGEST_ADDRESS, vec![1], None),
        request(stock(4), vec![2], None),
        request([9; 20], vec![], Some(1)),
        request(TELOS_INTENT_DIGEST_ADDRESS, digest, None),
    ];
    let answers: Vec<_> = requests.iter().map(|req| node.clone().eth_call(req)).collect();
    for (req, answer) in requests.iter().zip(&answers) {
        assert_eq!(&TelosNode::new(2).eth_call(req), answer);
    }
    assert_eq!(answers[0], answers[4]);
}

#[test]
fn a_nonce_that_is_not_the_callers_is_no_valid_call() {
    let set = CallSet::new();
    let tx = CallTx {
        caller: [0; 20],
        to: stock(4),
        data: vec![],
        gas_limit: 100_000,
        nonce: 1,
    };
    assert!(run_call(&set, tx).is_err());
}

#[test]
fn only_the_digest_does_not_tell_why() {
    let halt = || RunEnd::PrecompileHalt("why".to_string());
    assert_eq!(
        tell_end(&TELOS_INTENT_DIGEST_ADDRESS, halt()),
        CallEnd::Halt("PrecompileError".to_string())
    );
    assert_eq!(tell_end(&stock(9), halt()), CallEnd::Halt("why".to_string()));
    let end = RunEnd::Halt("why".to_string());
    assert_eq!(
        tell_end(&TELOS_INTENT_DIGEST_ADDRESS, end),
        CallEnd::Halt("why".to_string())
    );
    assert_eq!(tell_end(&stock(9), RunEnd::Success(vec![1])), CallEnd::Success(vec![1]));
    assert_eq!(tell_end(&stock(9), RunEnd::Revert(vec![1])), CallEnd::Revert(vec![1]));
}

#[test]
fn the_evm_is_handed_the_digest() {
    let data = vec![3u8; INTENT_DIGEST_INPUT_LEN];
    let output = digest_entry(&data, 5_000, 11).unwrap();
    assert!(output.is_success());
    assert_eq!((output.gas_used, output.reservoir), (4_500, 11));
    assert_eq!(output.bytes.as_ref(), keccak256(data.as_slice()).as_slice());
    let output = digest_entry(&data, 4_499, 11).unwrap();
    assert!(output.halt_reason().unwrap().is_oog());
    let output = digest_entry(&[1], 5_000, 11).unwrap();
    assert_eq!(
        output.halt_reason().unwrap().to_string(),
        "intent_digest: expected 160 bytes, got 1"
    );
}
