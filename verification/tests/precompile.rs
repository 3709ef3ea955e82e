use alloy::primitives::{keccak256, Address, Bytes};
use revm::context::result::{ExecutionResult, Output};
use revm::context::{Cfg, Evm, TxEnv};
use revm::context_interface::ContextTr;
use revm::database::{CacheDB, EmptyDB};
use revm::handler::instructions::EthInstructions;
use revm::handler::{EthPrecompiles, PrecompileProvider};
use revm::interpreter::{CallInput, CallInputs, CallScheme};
use revm::interpreter::{Gas, InstructionResult, InterpreterResult};
use revm::primitives::hardfork::SpecId;
use revm::primitives::{TxKind, U256};
use revm::{Context, ExecuteEvm, MainContext};
use telos::precompile;
use telos::precompile::{
    eth_result_to_interpreter, intent_digest, PrecompileHalt, PrecompileOutput, TelosPrecompiles,
    INTENT_DIGEST_BASE_GAS, INTENT_DIGEST_INPUT_LEN, INTENT_DIGEST_PER_BYTE_GAS,
    IDENTITY_ADDRESS, TELOS_INTENT_DIGEST_ADDRESS,
};

fn sample_input() -> Vec<u8> {
    let mut buf = vec![0u8; INTENT_DIGEST_INPUT_LEN];
    // Slot 0: payer, right-aligned in its word.
    buf[12..32].copy_from_slice(&[0xbe; 20]);
    // Slot 1: merchant.
    buf[12 + 32..32 + 32].copy_from_slice(&[0xfe; 20]);
    // Slot 2: asset.
    buf[12 + 64..32 + 64].copy_from_slice(&[0xca; 20]);
    // Slot 3: amount.
    let amount: u128 = 1_000_000_000_000_000_000;
    buf[32 + 96 - 16..32 + 96].copy_from_slice(&amount.to_be_bytes());
    // Slot 4: deadline.
    let deadline: u64 = 1_700_000_000;
    buf[32 + 128 - 8..32 + 128].copy_from_slice(&deadline.to_be_bytes());
    buf
}

/// A result in the terms of the EVM.
fn handed(done: precompile::InterpreterResult) -> InterpreterResult {
    let mut gas = Gas::new(done.gas.limit);
    let _ = gas.record_regular_cost(done.gas.limit - done.gas.remaining);
    let result = match done.result {
        precompile::InstructionResult::Return => InstructionResult::Return,
        precompile::InstructionResult::Revert => InstructionResult::Revert,
        precompile::InstructionResult::PrecompileOOG => InstructionResult::PrecompileOOG,
        precompile::InstructionResult::PrecompileError => InstructionResult::PrecompileError,
    };
    InterpreterResult { result, gas, output: done.output.into() }
}

#[derive(Debug, Clone)]
struct Provider(TelosPrecompiles);

impl<CTX: ContextTr> PrecompileProvider<CTX> for Provider {
    type Output = InterpreterResult;

    fn set_spec(&mut self, spec: <CTX::Cfg as Cfg>::Spec) -> bool {
        let id: SpecId = spec.into();
        self.0.set_spec(id as u8)
    }

    fn run(
        &mut self,
        ctx: &mut CTX,
        inputs: &CallInputs,
    ) -> Result<Option<InterpreterResult>, String> {
        let address = inputs.bytecode_address.into_array();
        if address != TELOS_INTENT_DIGEST_ADDRESS {
            // A stock precompile tells the context why it halts.
            return self.0.eth.run(ctx, inputs);
        }
        let done = {
            let input = inputs.input.as_bytes(ctx);
            self.0.run(&address, &input, inputs.gas_limit)?
        };
        Ok(done.map(handed))
    }

    fn warm_addresses(&self) -> Box<impl Iterator<Item = Address>> {
        Box::new(self.0.warm_addresses().into_iter().map(Address::from))
    }

    fn contains(&self, address: &Address) -> bool {
        self.0.contains(&address.into_array())
    }
}

fn run_call(caller: [u8; 20], to: [u8; 20], data: Vec<u8>, gas_limit: u64) -> ExecutionResult {
    let ctx = Context::mainnet().with_db(CacheDB::<EmptyDB>::default());
    let spec = *ctx.cfg.spec();
    let mut evm = Evm::new(
        ctx,
        EthInstructions::new_mainnet_with_spec(spec),
        Provider(TelosPrecompiles::new(spec as u8)),
    );
    let tx = TxEnv {
        caller: caller.into(),
        kind: TxKind::Call(to.into()),
        value: U256::ZERO,
        data: Bytes::from(data),
        gas_limit,
        gas_price: 0,
        ..Default::default()
    };
    evm.transact(tx).expect("transact succeeds").result
}

#[test]
fn happy_path_matches_offchain_keccak() {
    let input = sample_input();
    let result = intent_digest(&input, 100_000).expect("should succeed");

    let expected = keccak256(input.as_slice());
    assert_eq!(result.bytes.as_slice(), expected.as_slice());
    assert_eq!(
        result.gas_used,
        INTENT_DIGEST_BASE_GAS + (input.len() as u64) * INTENT_DIGEST_PER_BYTE_GAS,
    );
    assert_eq!(result.gas_used, 4_500);
}

#[test]
fn out_of_gas_halts_before_hashing() {
    let input = sample_input();
    let stingy = INTENT_DIGEST_BASE_GAS - 1;
    let halt = intent_digest(&input, stingy).unwrap_err();
    assert!(matches!(halt, PrecompileHalt::OutOfGas));
}

#[test]
fn wrong_length_input_halts_with_message() {
    let input = vec![0u8; INTENT_DIGEST_INPUT_LEN - 1];
    let halt = intent_digest(&input, 100_000).unwrap_err();
    match halt {
        PrecompileHalt::Other(msg) => assert!(msg.contains("expected")),
        other => panic!("unexpected halt: {other:?}"),
    }
}

#[test]
fn determinism_same_input_same_digest() {
    let a = intent_digest(&sample_input(), 100_000).unwrap();
    let b = intent_digest(&sample_input(), 100_000).unwrap();
    assert_eq!(a.bytes, b.bytes);
}

#[test]
fn evm_call_returns_canonical_digest() {
    let calldata = sample_input();
    let result = run_call([0; 20], TELOS_INTENT_DIGEST_ADDRESS, calldata.clone(), 100_000);
    let output = match result {
        ExecutionResult::Success { output: Output::Call(b), .. } => b,
        other => panic!("expected Success, got {other:?}"),
    };

    let expected = keccak256(calldata.as_slice());
    assert_eq!(output.as_ref(), expected.as_slice());
}

#[test]
fn wrong_length_message_is_exact() {
    let halt = intent_digest(&[7; 3], 100_000).unwrap_err();
    assert_eq!(
        halt,
        PrecompileHalt::Other("intent_digest: expected 160 bytes, got 3".to_string())
    );
    let halt = intent_digest(&[], 100_000).unwrap_err();
    assert_eq!(
        halt,
        PrecompileHalt::Other("intent_digest: expected 160 bytes, got 0".to_string())
    );
}

#[test]
fn gas_is_checked_before_the_length() {
    // Three bytes cost 575.
    assert_eq!(intent_digest(&[7; 3], 574).unwrap_err(), PrecompileHalt::OutOfGas);
    assert!(matches!(intent_digest(&[7; 3], 575).unwrap_err(), PrecompileHalt::Other(_)));
    // The canonical input costs exactly 4500.
    assert_eq!(intent_digest(&sample_input(), 4_499).unwrap_err(), PrecompileHalt::OutOfGas);
    assert!(intent_digest(&sample_input(), 4_500).is_ok());
}

#[test]
fn a_changed_field_changes_the_digest() {
    let a = intent_digest(&sample_input(), 100_000).unwrap();
    for slot in 0..5 {
        let mut input = sample_input();
        input[32 * slot + 31] ^= 1;
        let b = intent_digest(&input, 100_000).unwrap();
        assert_ne!(a.bytes, b.bytes);
    }
}

#[test]
fn results_become_interpreter_results() {
    let ok = Ok(PrecompileOutput { gas_used: 4_500, bytes: vec![1, 2, 3] });
    let done = eth_result_to_interpreter(ok, 5_000);
    assert_eq!(done.result, precompile::InstructionResult::Return);
    assert_eq!(done.gas, precompile::Gas { limit: 5_000, remaining: 500 });
    assert_eq!(done.output, vec![1, 2, 3]);

    // A cost above the limit is not charged.
    let ok = Ok(PrecompileOutput { gas_used: 6_000, bytes: vec![] });
    let done = eth_result_to_interpreter(ok, 5_000);
    assert_eq!(done.gas, precompile::Gas { limit: 5_000, remaining: 5_000 });

    let done = eth_result_to_interpreter(Err(PrecompileHalt::OutOfGas), 5_000);
    assert_eq!(done.result, precompile::InstructionResult::PrecompileOOG);
    assert_eq!(done.gas, precompile::Gas { limit: 5_000, remaining: 0 });
    assert!(done.output.is_empty());

    let done = eth_result_to_interpreter(Err(PrecompileHalt::Other("no".to_string())), 5_000);
    assert_eq!(done.result, precompile::InstructionResult::PrecompileError);
    assert_eq!(done.gas, precompile::Gas { limit: 5_000, remaining: 0 });
    assert!(done.output.is_empty());
}

#[test]
fn interpreter_gas_matches_the_evm_gas() {
    for (limit, cost) in [(10u64, 4u64), (10, 10), (10, 11), (0, 0)] {
        let mut ours = precompile::Gas::new(limit);
        let mut theirs = Gas::new(limit);
        assert_eq!(ours.record_regular_cost(cost), theirs.record_regular_cost(cost));
        assert_eq!((ours.limit, ours.remaining), (theirs.limit(), theirs.remaining()));
        ours.spend_all();
        theirs.spend_all();
        assert_eq!((ours.limit, ours.remaining), (theirs.limit(), theirs.remaining()));
    }
}

#[test]
fn the_set_holds_the_stock_addresses_and_the_digest() {
    for spec in 0..=20u8 {
        let set = TelosPrecompiles::new(spec);
        let mut expected: Vec<u16> = vec![1, 2, 3, 4];
        if spec >= 6 {
            expected.extend([5, 6, 7, 8]);
        }
        if spec >= 9 {
            expected.push(9);
        }
        if spec >= 17 {
            expected.push(0x0a);
        }
        if spec >= 18 {
            expected.extend(0x0b..=0x11);
        }
        if spec >= 19 {
            expected.push(0x100);
        }
        expected.push(0x901);
        let address = |n: u16| {
            let mut a = [0u8; 20];
            a[18..].copy_from_slice(&n.to_be_bytes());
            a
        };
        let expected: Vec<[u8; 20]> = expected.into_iter().map(address).collect();
        let warm = set.warm_addresses();
        assert_eq!(warm.last(), Some(&TELOS_INTENT_DIGEST_ADDRESS));
        let mut sorted = warm.clone();
        sorted.sort();
        assert_eq!(sorted, expected, "hardfork {spec}");
        for n in 0..0x1000u16 {
            assert_eq!(set.contains(&address(n)), expected.contains(&address(n)));
        }
    }
}

#[test]
fn set_spec_tells_whether_the_set_changed() {
    let mut set = TelosPrecompiles::new(SpecId::OSAKA as u8);
    assert!(!set.set_spec(SpecId::OSAKA as u8));
    let p256 = {
        let mut a = [0u8; 20];
        a[18] = 1;
        a
    };
    assert!(set.contains(&p256));
    assert!(set.set_spec(SpecId::BERLIN as u8));
    assert!(!set.contains(&p256));
    assert!(set.contains(&TELOS_INTENT_DIGEST_ADDRESS));
    assert!(!set.clone().set_spec(SpecId::BERLIN as u8));
}

#[test]
fn the_digest_runs_at_its_address() {
    let set = TelosPrecompiles::new(SpecId::OSAKA as u8);
    let run = |input: &[u8], gas| set.run(&TELOS_INTENT_DIGEST_ADDRESS, input, gas).unwrap().unwrap();
    let done = run(&sample_input(), 100_000);
    assert_eq!(done.output.as_slice(), keccak256(sample_input()).as_slice());
    assert_eq!(done.gas.remaining, 95_500);
    assert_eq!(run(&[1], 100_000).result, precompile::InstructionResult::PrecompileError);
    assert_eq!(run(&[1], 524).result, precompile::InstructionResult::PrecompileOOG);
}

#[test]
fn other_addresses_run_as_stock() {
    for spec in [SpecId::FRONTIER, SpecId::BYZANTIUM, SpecId::CANCUN, SpecId::OSAKA] {
        let set = TelosPrecompiles::new(spec as u8);
        let mut stock = EthPrecompiles::new(spec);
        for n in (0..0x14u16).chain([0x100, 0x900, 0x902]) {
            let mut address = [0u8; 20];
            address[18..].copy_from_slice(&n.to_be_bytes());
            for input in [vec![], vec![1, 2, 3], vec![0; 128], vec![7; 213]] {
                for gas_limit in [0, 60, 100_000] {
                    let inputs = CallInputs {
                        input: CallInput::Bytes(input.clone().into()),
                        return_memory_offset: 0..0,
                        gas_limit,
                        reservoir: 0,
                        bytecode_address: address.into(),
                        known_bytecode: Default::default(),
                        target_address: address.into(),
                        caller: Address::ZERO,
                        value: Default::default(),
                        scheme: CallScheme::Call,
                        is_static: false,
                    };
                    let theirs = stock.run(&mut Context::mainnet(), &inputs).unwrap();
                    let ours = set.run(&address, &input, gas_limit).unwrap();
                    assert_eq!(ours.is_some(), set.contains(&address));
                    assert_eq!(ours.map(handed), theirs);
                }
            }
        }
    }
}

#[test]
fn sha256_and_identity_run_as_they_are_known() {
    let set = TelosPrecompiles::new(SpecId::OSAKA as u8);
    let mut address = [0u8; 20];
    address[19] = 2;
    let done = set.run(&address, b"abc", 100).unwrap().unwrap();
    assert_eq!(done.output[..4], [0xba, 0x78, 0x16, 0xbf]);
    assert_eq!(done.gas, precompile::Gas { limit: 100, remaining: 28 });
    address[19] = 4;
    assert_eq!(address, IDENTITY_ADDRESS);
    let done = set.run(&address, &[5; 33], 21).unwrap().unwrap();
    assert_eq!((done.output, done.gas.remaining), (vec![5; 33], 0));
    let done = set.run(&address, &[5; 33], 20).unwrap().unwrap();
    assert_eq!(done.result, precompile::InstructionResult::PrecompileOOG);
    address[19] = 0x77;
    assert_eq!(set.run(&address, &[1], 100), Ok(None));
}

#[test]
fn stock_precompiles_still_run() {
    let mut identity = [0u8; 20];
    identity[19] = 4;
    match run_call([0; 20], identity, vec![1, 2, 3], 100_000) {
        ExecutionResult::Success { output: Output::Call(b), .. } => {
            assert_eq!(b.as_ref(), &[1, 2, 3])
        }
        other => panic!("expected Success, got {other:?}"),
    }
}

#[test]
fn a_short_call_to_the_digest_halts_in_the_evm() {
    match run_call([0; 20], TELOS_INTENT_DIGEST_ADDRESS, vec![1], 100_000) {
        ExecutionResult::Halt { .. } => {}
        other => panic!("expected Halt, got {other:?}"),
    }
}
