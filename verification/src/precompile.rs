//! The intent digest precompile and the precompile set that carries it.
//!
//! A precompile is native code at a fixed EVM address. The one here commits the identity of an
//! intent: it takes the five ABI-encoded fields of the intent and returns their Keccak-256 hash.
use vstd::prelude::*;
use vstd::string::*;
use revm::database::EmptyDB;
use revm::handler::{EthPrecompiles, MainnetContext, PrecompileProvider};
use revm::interpreter::InstructionResult as Ended;
use revm::interpreter::{CallInput, CallInputs, CallScheme};
use revm::primitives::hardfork::SpecId;
use revm::{Context, MainContext};
use crate::abi;
use crate::keccak;
use crate::keccak::keccak256;
use crate::primitives;
use crate::primitives::{bytes_equal, copy_bytes, Address, B256};
use crate::text;
use crate::text::push_number;
use crate::types::IntentView;

verus! {

/// The address of the intent digest precompile, well clear of the addresses that Ethereum
/// allocates.
pub const TELOS_INTENT_DIGEST_ADDRESS: Address = [
    0, 0, 0, 0, 0, 0, 0, 0, 0, 0, 0, 0, 0, 0, 0, 0, 0, 0, 9, 1,
];

/// The length of the canonical input: five words of 32 bytes.
pub const INTENT_DIGEST_INPUT_LEN: usize = 160;

/// The gas that each call costs.
pub const INTENT_DIGEST_BASE_GAS: u64 = 500;

/// The gas that each byte of input adds.
pub const INTENT_DIGEST_PER_BYTE_GAS: u64 = 25;

/// What a precompile call that succeeds gives.
#[derive(Clone, Debug, PartialEq, Eq)]
pub struct PrecompileOutput {
    pub gas_used: u64,
    pub bytes: Vec<u8>,
}

/// Why a precompile call fails. A halt ends the EVM call, not the process.
#[derive(Clone, Debug, PartialEq, Eq)]
pub enum PrecompileHalt {
    OutOfGas,
    Other(String),
}

/// The contents of a [`PrecompileHalt`].
pub enum HaltView {
    OutOfGas,
    Other(Seq<char>),
}

/// What a digest costs on an input of this length.
pub open spec fn digest_gas(len: nat) -> nat {
    INTENT_DIGEST_BASE_GAS as nat + len * INTENT_DIGEST_PER_BYTE_GAS as nat
}

/// What is said of an input of the wrong length.
pub open spec fn wrong_length_text(len: nat) -> Seq<char> {
    "intent_digest: expected "@ + text::number_text(INTENT_DIGEST_INPUT_LEN as nat, 10)
        + " bytes, got "@ + text::number_text(len, 10)
}

/// The gas used and the digest, or why there is none. The gas is checked before the length.
pub open spec fn digest_of(input: Seq<u8>, gas_limit: u64) -> Result<(nat, Seq<u8>), HaltView> {
    if digest_gas(input.len()) > gas_limit {
        Err(HaltView::OutOfGas)
    } else if input.len() != INTENT_DIGEST_INPUT_LEN {
        Err(HaltView::Other(wrong_length_text(input.len())))
    } else {
        Ok((digest_gas(input.len()), keccak::keccak256_of(input)))
    }
}

/// A precompile result by its contents.
pub open spec fn digest_view(r: Result<PrecompileOutput, PrecompileHalt>) -> Result<
    (nat, Seq<u8>),
    HaltView,
> {
    match r {
        Ok(out) => Ok((out.gas_used as nat, out.bytes@)),
        Err(PrecompileHalt::OutOfGas) => Err(HaltView::OutOfGas),
        Err(PrecompileHalt::Other(message)) => Err(HaltView::Other(message@)),
    }
}

/// The canonical digest of an intent.
///
/// An input of the wrong length is rejected rather than padded, so that no caller hashes
/// truncated data and takes the result for a digest.
pub fn intent_digest(input: &[u8], gas_limit: u64) -> (r: Result<PrecompileOutput, PrecompileHalt>)
    ensures
        digest_view(r) == digest_of(input@, gas_limit),
        r matches Ok(out) ==> out.bytes@.len() == 32,
        r is Ok <==> input@.len() == 160 && gas_limit >= 4_500,
        r matches Ok(out) ==> out.gas_used == 4_500 && out.bytes@ == keccak::keccak256_of(input@),
        r matches Err(halt) ==> (halt is OutOfGas <==> 500 + 25 * input@.len() > gas_limit),
        r matches Err(PrecompileHalt::Other(message)) ==> message@ == "intent_digest: expected "@
            + text::number_text(160, 10) + " bytes, got "@ + text::number_text(input@.len(), 10),
{
    let len: usize = input.len();
    assert(len * INTENT_DIGEST_PER_BYTE_GAS <= 0xffff_ffff_ffff_ffff * 25) by (nonlinear_arith)
        requires
            len <= 0xffff_ffff_ffff_ffff,
            INTENT_DIGEST_PER_BYTE_GAS == 25,
    ;
    let gas: u128 = INTENT_DIGEST_BASE_GAS as u128 + (len as u128)
        * INTENT_DIGEST_PER_BYTE_GAS as u128;
    if gas > gas_limit as u128 {
        return Err(PrecompileHalt::OutOfGas);
    }
    if len != INTENT_DIGEST_INPUT_LEN {
        let mut message: String = String::from_str("intent_digest: expected ");
        push_number(&mut message, INTENT_DIGEST_INPUT_LEN as u64, 10);
        message.append(" bytes, got ");
        push_number(&mut message, len as u64, 10);
        return Err(PrecompileHalt::Other(message));
    }
    let digest: B256 = keccak256(input);
    Ok(PrecompileOutput { gas_used: gas as u64, bytes: copy_bytes(&digest) })
}

/// How a precompile call ended, in the terms of the interpreter.
#[derive(Clone, Copy, Debug, PartialEq, Eq)]
pub enum InstructionResult {
    Return,
    Revert,
    PrecompileOOG,
    PrecompileError,
}

/// The gas of one call frame.
#[derive(Clone, Copy, Debug, PartialEq, Eq)]
pub struct Gas {
    pub limit: u64,
    pub remaining: u64,
}

/// What the interpreter is handed for a precompile call.
#[derive(Clone, Debug, PartialEq, Eq)]
pub struct InterpreterResult {
    pub result: InstructionResult,
    pub gas: Gas,
    pub output: Vec<u8>,
}

impl Gas {
    /// A frame that has spent nothing.
    pub fn new(limit: u64) -> (gas: Self)
        ensures
            gas == (Gas { limit, remaining: limit }),
    {
        Gas { limit, remaining: limit }
    }

    /// Spends `cost` where that much is left, and nothing otherwise.
    pub fn record_regular_cost(&mut self, cost: u64) -> (r: bool)
        ensures
            r == (cost <= old(self).remaining),
            final(self).limit == old(self).limit,
            final(self).remaining == (if r {
                old(self).remaining - cost
            } else {
                old(self).remaining as int
            }),
    {
        if cost <= self.remaining {
            self.remaining = self.remaining - cost;
            true
        } else {
            false
        }
    }

    /// Spends all that is left.
    pub fn spend_all(&mut self)
        ensures
            *final(self) == (Gas { limit: old(self).limit, remaining: 0 }),
    {
        self.remaining = 0;
    }
}

/// What the interpreter is handed for a precompile result under a gas limit. A halt takes all the
/// gas and gives no output.
pub open spec fn interpreted(result: Result<(nat, Seq<u8>), HaltView>, gas_limit: u64) -> (
    InstructionResult,
    Gas,
    Seq<u8>,
) {
    let spent = Gas { limit: gas_limit, remaining: 0 };
    match result {
        Ok((gas_used, bytes)) => (
            InstructionResult::Return,
            Gas {
                limit: gas_limit,
                remaining: if gas_used <= gas_limit {
                    (gas_limit - gas_used) as u64
                } else {
                    gas_limit
                },
            },
            bytes,
        ),
        Err(HaltView::OutOfGas) => (InstructionResult::PrecompileOOG, spent, seq![]),
        Err(HaltView::Other(_)) => (InstructionResult::PrecompileError, spent, seq![]),
    }
}

impl View for InterpreterResult {
    type V = (InstructionResult, Gas, Seq<u8>);

    open spec fn view(&self) -> (InstructionResult, Gas, Seq<u8>) {
        (self.result, self.gas, self.output@)
    }
}

/// Turns a precompile result into what the interpreter is handed.
pub fn eth_result_to_interpreter(
    result: Result<PrecompileOutput, PrecompileHalt>,
    gas_limit: u64,
) -> (r: InterpreterResult)
    ensures
        r@ == interpreted(digest_view(result), gas_limit),
        r.gas.limit == gas_limit,
        result matches Ok(out) ==> r.result == InstructionResult::Return && r.output@ == out.bytes@
            && r.gas.remaining == (if out.gas_used <= gas_limit {
            gas_limit - out.gas_used
        } else {
            gas_limit as int
        }),
        result is Err ==> r.gas.remaining == 0 && r.output@.len() == 0,
        result matches Err(halt) ==> r.result == if halt is OutOfGas {
            InstructionResult::PrecompileOOG
        } else {
            InstructionResult::PrecompileError
        },
{
    let mut gas: Gas = Gas::new(gas_limit);
    match result {
        Ok(out) => {
            let _ = gas.record_regular_cost(out.gas_used);
            InterpreterResult { result: InstructionResult::Return, gas, output: out.bytes }
        },
        Err(PrecompileHalt::OutOfGas) => {
            gas.spend_all();
            InterpreterResult { result: InstructionResult::PrecompileOOG, gas, output: Vec::new() }
        },
        Err(PrecompileHalt::Other(_)) => {
            gas.spend_all();
            InterpreterResult { result: InstructionResult::PrecompileError, gas, output: Vec::new() }
        },
    }
}

/// The precompiles that Ethereum allocates, as revm provides them.
#[verifier::external_type_specification]
#[verifier::external_body]
pub struct ExEthPrecompiles(EthPrecompiles);

/// The number of the last hardfork that is known, counted from the first one.
pub const LAST_SPEC: u8 = 20;

/// The addresses of a set of stock precompiles.
pub uninterp spec fn eth_addresses(eth: EthPrecompiles) -> Set<Seq<u8>>;

/// The number of the hardfork that a set of stock precompiles was made for.
pub uninterp spec fn eth_spec(eth: EthPrecompiles) -> u8;

/// What the interpreter is handed for a precompile run, or why the EVM has to stop.
pub type Handed = Result<(InstructionResult, Gas, Seq<u8>), Seq<char>>;

/// What precompiles do: what is handed to the interpreter, by address, input and gas limit. An
/// address at which nothing runs has no key.
pub type Runs = Map<(Seq<u8>, Seq<u8>, u64), Handed>;

/// What the precompiles of a set do.
pub uninterp spec fn eth_runs(eth: EthPrecompiles) -> Runs;

/// What the stock precompiles of a hardfork do.
pub uninterp spec fn stock_runs(spec: u8) -> Runs;

/// What runs at an address on an input under a gas limit, if anything does.
pub open spec fn run_at(runs: Runs, address: Seq<u8>, input: Seq<u8>, gas_limit: u64) -> Option<
    Handed,
> {
    if runs.contains_key((address, input, gas_limit)) {
        Some(runs[(address, input, gas_limit)])
    } else {
        None
    }
}

/// Whether something runs at these addresses and nowhere else.
pub open spec fn runs_only_at(runs: Runs, addresses: Set<Seq<u8>>) -> bool {
    forall|address: Seq<u8>, input: Seq<u8>, gas_limit: u64|
        (#[trigger] run_at(runs, address, input, gas_limit)) is Some <==> addresses.contains(
            address,
        )
}

/// The intent digest at an address; every other address as it was.
pub open spec fn digest_added(runs: Runs, address: Seq<u8>) -> Runs {
    Map::new(
        |key: (Seq<u8>, Seq<u8>, u64)| key.0 == address || runs.contains_key(key),
        |key: (Seq<u8>, Seq<u8>, u64)|
            if key.0 == address {
                Ok(interpreted(digest_of(key.1, key.2), key.2))
            } else {
                runs[key]
            },
    )
}

/// The address of the identity precompile.
pub const IDENTITY_ADDRESS: Address = [
    0, 0, 0, 0, 0, 0, 0, 0, 0, 0, 0, 0, 0, 0, 0, 0, 0, 0, 0, 4,
];

/// The identity precompile: the input itself, for a base cost and a cost for each word that is
/// begun.
pub open spec fn identity_of(input: Seq<u8>, gas_limit: u64) -> Result<(nat, Seq<u8>), HaltView> {
    let gas = 15 + 3 * ((input.len() + 31) / 32);
    if gas > gas_limit {
        Err(HaltView::OutOfGas)
    } else {
        Ok((gas, input))
    }
}

/// Whether the identity precompile runs at its address.
pub open spec fn runs_identity(runs: Runs) -> bool {
    forall|input: Seq<u8>, gas_limit: u64| #[trigger]
        run_at(runs, IDENTITY_ADDRESS@, input, gas_limit) == Some::<Handed>(
            Ok(interpreted(identity_of(input, gas_limit), gas_limit)),
        )
}

/// Whether a hardfork has a stock precompile at the address of this number.
pub open spec fn is_stock(spec: u8, n: nat) -> bool {
    ||| 0x01 <= n <= 0x04
    ||| spec >= 6 && 0x05 <= n <= 0x08
    ||| spec >= 9 && n == 0x09
    ||| spec >= 17 && n == 0x0a
    ||| spec >= 18 && 0x0b <= n <= 0x11
    ||| spec >= 19 && n == 0x100
}

/// The addresses of the stock precompiles of a hardfork.
pub open spec fn stock_addresses(spec: u8) -> Set<Seq<u8>> {
    Set::new(|a: Seq<u8>| a.len() == 20 && is_stock(spec, primitives::be_value(a)))
}

/// Addresses by their bytes.
pub open spec fn address_views(addresses: Seq<Address>) -> Seq<Seq<u8>> {
    addresses.map_values(|a: Address| a@)
}

/// `EthPrecompiles::new` of revm: the stock precompiles of a hardfork.
///
/// What they do depends on the hardfork alone and is left to the name [`stock_runs`]. Of it this is
/// said: one runs at each address of the set and nowhere else, and one of them is the identity.
#[verifier::external_body]
pub(crate) fn eth_new(spec: u8) -> (eth: EthPrecompiles)
    requires
        spec <= LAST_SPEC,
    ensures
        eth_spec(eth) == spec,
        eth_addresses(eth) == stock_addresses(spec),
        eth_runs(eth) == stock_runs(spec),
        runs_only_at(eth_runs(eth), stock_addresses(spec)),
        runs_identity(eth_runs(eth)),
{
    EthPrecompiles::new(SpecId::try_from_u8(spec).unwrap())
}

/// `PrecompileProvider::set_spec` of revm for the stock precompiles: a new hardfork replaces the
/// set, the same one leaves it alone.
#[verifier::external_body]
pub(crate) fn eth_set_spec(eth: &mut EthPrecompiles, spec: u8) -> (changed: bool)
    requires
        spec <= LAST_SPEC,
    ensures
        changed == (spec != eth_spec(*old(eth))),
        changed ==> eth_spec(*final(eth)) == spec,
        changed ==> eth_addresses(*final(eth)) == stock_addresses(spec),
        changed ==> eth_runs(*final(eth)) == stock_runs(spec),
        changed ==> runs_only_at(eth_runs(*final(eth)), stock_addresses(spec)),
        changed ==> runs_identity(eth_runs(*final(eth))),
        !changed ==> *final(eth) == *old(eth),
{
    let spec = SpecId::try_from_u8(spec).unwrap();
    <EthPrecompiles as PrecompileProvider<MainnetContext<EmptyDB>>>::set_spec(eth, spec)
}

/// `EthPrecompiles::contains` of revm: whether an address is in the set.
#[verifier::external_body]
pub(crate) fn eth_contains(eth: &EthPrecompiles, address: &Address) -> (r: bool)
    ensures
        r == eth_addresses(*eth).contains(address@),
{
    eth.contains(&alloy::primitives::Address::from(*address))
}

/// The result of a precompile run by its contents.
pub open spec fn run_view(r: Result<Option<InterpreterResult>, String>) -> Option<Handed> {
    match r {
        Ok(Some(result)) => Some(Ok(result@)),
        Ok(None) => None,
        Err(e) => Some(Err(e@)),
    }
}

/// `PrecompileProvider::run` of revm for the stock precompiles, in a fresh context.
///
/// The result depends on the set, the address, the input and the limit alone. A context in which a
/// transaction runs is not given, so what the call tells it of a halt is left out.
#[verifier::external_body]
pub(crate) fn eth_run(eth: &EthPrecompiles, address: &Address, input: &[u8], gas_limit: u64) -> (r:
    Result<Option<InterpreterResult>, String>)
    ensures
        run_view(r) == run_at(eth_runs(*eth), address@, input@, gas_limit),
{
    let to = (*address).into();
    let inputs = CallInputs {
        input: CallInput::Bytes(input.to_vec().into()), return_memory_offset: 0..0, gas_limit,
        reservoir: 0, bytecode_address: to, known_bytecode: Default::default(), target_address: to,
        caller: to, value: Default::default(), scheme: CallScheme::Call, is_static: false };
    Ok(eth.clone().run(&mut Context::mainnet(), &inputs)?.map(|ran| InterpreterResult {
        gas: Gas { limit: ran.gas.limit(), remaining: ran.gas.remaining() },
        output: ran.output.into(),
        result: match ran.result {
            Ended::Return => InstructionResult::Return,
            Ended::Revert => InstructionResult::Revert,
            Ended::PrecompileOOG => InstructionResult::PrecompileOOG,
            _ => InstructionResult::PrecompileError,
        },
    }))
}

/// `EthPrecompiles::warm_addresses` of revm: the addresses of the set, each once, in an order that
/// is left open.
#[verifier::external_body]
pub(crate) fn eth_warm_addresses(eth: &EthPrecompiles) -> (r: Vec<Address>)
    ensures
        address_views(r@).no_duplicates(),
        address_views(r@).to_set() == eth_addresses(*eth),
{
    eth.warm_addresses().map(|address| address.into_array()).collect()
}

/// `Clone` of revm's stock precompiles, which copies the set and its hardfork.
pub assume_specification[ <EthPrecompiles as Clone>::clone ](eth: &EthPrecompiles) -> (r:
    EthPrecompiles)
    ensures
        r == *eth,
;

/// The stock precompiles and the intent digest.
#[derive(Debug)]
pub struct TelosPrecompiles {
    pub eth: EthPrecompiles,
}

impl Clone for TelosPrecompiles {
    fn clone(&self) -> (r: Self)
        ensures
            r == *self,
    {
        TelosPrecompiles { eth: self.eth.clone() }
    }
}

impl TelosPrecompiles {
    /// The addresses of the set.
    pub open spec fn addresses(&self) -> Set<Seq<u8>> {
        eth_addresses(self.eth).insert(TELOS_INTENT_DIGEST_ADDRESS@)
    }

    /// What the precompiles of the set do.
    pub open spec fn runs(&self) -> Runs {
        digest_added(eth_runs(self.eth), TELOS_INTENT_DIGEST_ADDRESS@)
    }

    /// Whether the set is that of a hardfork: the stock precompiles of the hardfork, each at its
    /// address, and the intent digest.
    pub open spec fn is_of(&self, spec: u8) -> bool {
        &&& eth_spec(self.eth) == spec
        &&& eth_addresses(self.eth) == stock_addresses(spec)
        &&& eth_runs(self.eth) == stock_runs(spec)
        &&& runs_only_at(self.runs(), self.addresses())
        &&& runs_identity(self.runs())
    }

    /// The set for a hardfork, given by its number counted from the first one.
    pub fn new(spec: u8) -> (r: Self)
        requires
            spec <= LAST_SPEC,
        ensures
            r.is_of(spec),
            eth_spec(r.eth) == spec,
            eth_addresses(r.eth) == stock_addresses(spec),
            eth_runs(r.eth) == stock_runs(spec),
    {
        let r = TelosPrecompiles { eth: eth_new(spec) };
        proof {
            lemma_digest_added(eth_runs(r.eth), eth_addresses(r.eth), TELOS_INTENT_DIGEST_ADDRESS@);
        }
        r
    }

    /// Moves the set to another hardfork, and tells whether that changed it.
    pub fn set_spec(&mut self, spec: u8) -> (changed: bool)
        requires
            spec <= LAST_SPEC,
        ensures
            changed == (spec != eth_spec(old(self).eth)),
            changed ==> final(self).is_of(spec),
            changed ==> eth_spec(final(self).eth) == spec,
            changed ==> eth_addresses(final(self).eth) == stock_addresses(spec),
            changed ==> eth_runs(final(self).eth) == stock_runs(spec),
            !changed ==> *final(self) == *old(self),
    {
        let changed: bool = eth_set_spec(&mut self.eth, spec);
        proof {
            if changed {
                lemma_digest_added(
                    eth_runs(self.eth),
                    eth_addresses(self.eth),
                    TELOS_INTENT_DIGEST_ADDRESS@,
                );
            }
        }
        changed
    }

    /// Runs the precompile at an address: the intent digest at its own, a stock one or nothing at
    /// every other.
    pub fn run(&self, bytecode_address: &Address, input: &[u8], gas_limit: u64) -> (r: Result<
        Option<InterpreterResult>,
        String,
    >)
        ensures
            run_view(r) == run_at(self.runs(), bytecode_address@, input@, gas_limit),
            bytecode_address@ == TELOS_INTENT_DIGEST_ADDRESS@ ==> run_view(r) == Some::<Handed>(
                Ok(interpreted(digest_of(input@, gas_limit), gas_limit)),
            ),
            bytecode_address@ == TELOS_INTENT_DIGEST_ADDRESS@ && input@.len() == 160 && gas_limit
                >= 4_500 ==> r is Ok && r->Ok_0 is Some && r->Ok_0->0.result
                == InstructionResult::Return && r->Ok_0->0.output@ == keccak::keccak256_of(input@)
                && r->Ok_0->0.gas.remaining == gas_limit - 4_500,
            bytecode_address@ != TELOS_INTENT_DIGEST_ADDRESS@ ==> run_view(r) == run_at(
                eth_runs(self.eth),
                bytecode_address@,
                input@,
                gas_limit,
            ),
    {
        if !bytes_equal(bytecode_address, &TELOS_INTENT_DIGEST_ADDRESS) {
            return eth_run(&self.eth, bytecode_address, input, gas_limit);
        }
        Ok(Some(eth_result_to_interpreter(intent_digest(input, gas_limit), gas_limit)))
    }

    /// The addresses of the set: the stock ones, then the intent digest.
    pub fn warm_addresses(&self) -> (r: Vec<Address>)
        ensures
            r@.len() > 0,
            address_views(r@).last() == TELOS_INTENT_DIGEST_ADDRESS@,
            address_views(r@).drop_last().no_duplicates(),
            address_views(r@).drop_last().to_set() == eth_addresses(self.eth),
            address_views(r@).to_set() == self.addresses(),
    {
        let mut addresses: Vec<Address> = eth_warm_addresses(&self.eth);
        let ghost stock = addresses@;
        addresses.push(TELOS_INTENT_DIGEST_ADDRESS);
        proof {
            let views = address_views(addresses@);
            assert(views =~= address_views(stock).push(TELOS_INTENT_DIGEST_ADDRESS@));
            assert(views.drop_last() =~= address_views(stock));
            assert forall|a: Seq<u8>| views.to_set().contains(a) == self.addresses().contains(
                a,
            ) by {
                assert(address_views(stock).to_set().contains(a) == address_views(stock).contains(a));
                if views.contains(a) {
                    let i = choose|i: int| 0 <= i < views.len() && views[i] == a;
                    if i < stock.len() {
                        assert(address_views(stock)[i] == a);
                    }
                }
                if address_views(stock).contains(a) {
                    let i = choose|i: int|
                        0 <= i < stock.len() && address_views(stock)[i] == a;
                    assert(views[i] == a);
                }
                if a == TELOS_INTENT_DIGEST_ADDRESS@ {
                    assert(views[stock.len() as int] == a);
                }
            }
            assert(views.to_set() =~= self.addresses());
        }
        addresses
    }

    /// Whether an address is in the set.
    pub fn contains(&self, address: &Address) -> (r: bool)
        ensures
            r == self.addresses().contains(address@),
    {
        bytes_equal(address, &TELOS_INTENT_DIGEST_ADDRESS) || eth_contains(&self.eth, address)
    }
}

/// The canonical input for an intent: payer, merchant, asset, amount and deadline, a word each.
pub open spec fn canonical_input(intent: IntentView) -> Seq<u8> {
    abi::address_word(intent.payer) + abi::address_word(intent.merchant) + abi::address_word(
        intent.settlement_asset,
    ) + intent.settlement_amount + abi::number_word(intent.deadline)
}

/// The canonical input of every intent has a digest: the hash of the input, for a gas that is the
/// same for all intents.
pub proof fn lemma_canonical_input_has_digest(intent: IntentView, gas_limit: u64)
    requires
        abi::intent_fits(intent),
        gas_limit >= digest_gas(INTENT_DIGEST_INPUT_LEN as nat),
    ensures
        digest_of(canonical_input(intent), gas_limit) == Ok::<(nat, Seq<u8>), HaltView>(
            (
                digest_gas(INTENT_DIGEST_INPUT_LEN as nat),
                keccak::keccak256_of(canonical_input(intent)),
            ),
        ),
{
    primitives::lemma_be_bytes_len(intent.deadline, 32);
}

/// Two intents share a canonical input exactly where they agree on payer, merchant, asset, amount
/// and deadline.
pub proof fn lemma_canonical_input_identifies(a: IntentView, b: IntentView)
    requires
        abi::intent_fits(a),
        abi::intent_fits(b),
    ensures
        canonical_input(a) == canonical_input(b) <==> {
            &&& a.payer == b.payer
            &&& a.merchant == b.merchant
            &&& a.settlement_asset == b.settlement_asset
            &&& a.settlement_amount == b.settlement_amount
            &&& a.deadline == b.deadline
        },
{
    lemma_canonical_input_parts(a);
    lemma_canonical_input_parts(b);
}

proof fn lemma_canonical_input_parts(intent: IntentView)
    requires
        abi::intent_fits(intent),
    ensures
        abi::word_address(abi::word_at(canonical_input(intent), 0)) == intent.payer,
        abi::word_address(abi::word_at(canonical_input(intent), 1)) == intent.merchant,
        abi::word_address(abi::word_at(canonical_input(intent), 2)) == intent.settlement_asset,
        abi::word_at(canonical_input(intent), 3) == intent.settlement_amount,
        abi::word_low(abi::word_at(canonical_input(intent), 4), 8) == intent.deadline,
{
    let input = canonical_input(intent);
    abi::lemma_address_word_round_trip(intent.payer);
    abi::lemma_address_word_round_trip(intent.merchant);
    abi::lemma_address_word_round_trip(intent.settlement_asset);
    reveal_with_fuel(primitives::byte_capacity, 9);
    abi::lemma_number_word_round_trip(intent.deadline, 8);
    assert(abi::word_at(input, 0) =~= abi::address_word(intent.payer));
    assert(abi::word_at(input, 1) =~= abi::address_word(intent.merchant));
    assert(abi::word_at(input, 2) =~= abi::address_word(intent.settlement_asset));
    assert(abi::word_at(input, 3) =~= intent.settlement_amount);
    assert(abi::word_at(input, 4) =~= abi::number_word(intent.deadline));
}

/// A call that cannot pay runs out of gas whatever its input is, and a call that can pay is
/// rejected on every input that does not have the canonical length.
pub proof fn lemma_only_paid_canonical_inputs_have_digests(input: Seq<u8>, gas_limit: u64)
    ensures
        digest_gas(input.len()) > gas_limit <==> digest_of(input, gas_limit) == Err::<
            (nat, Seq<u8>),
            HaltView,
        >(HaltView::OutOfGas),
        digest_of(input, gas_limit) is Ok ==> input.len() == INTENT_DIGEST_INPUT_LEN,
{
}

/// A digest charges exactly its cost, which the limit covers; every halt takes the whole limit and
/// returns nothing.
pub proof fn lemma_digest_charges(input: Seq<u8>, gas_limit: u64)
    ensures
        digest_of(input, gas_limit) is Ok ==> digest_gas(input.len()) <= gas_limit && interpreted(
            digest_of(input, gas_limit),
            gas_limit,
        ) == (
            InstructionResult::Return,
            Gas {
                limit: gas_limit,
                remaining: (gas_limit - digest_gas(input.len())) as u64,
            },
            keccak::keccak256_of(input),
        ),
        digest_of(input, gas_limit) is Err ==> {
            &&& interpreted(digest_of(input, gas_limit), gas_limit).0 != InstructionResult::Return
            &&& interpreted(digest_of(input, gas_limit), gas_limit).1 == (Gas {
                limit: gas_limit,
                remaining: 0,
            })
            &&& interpreted(digest_of(input, gas_limit), gas_limit).2 == Seq::<u8>::empty()
        },
{
}

/// No hardfork has a stock precompile at the address of the intent digest.
pub proof fn lemma_digest_address_is_free(spec: u8)
    ensures
        !stock_addresses(spec).contains(TELOS_INTENT_DIGEST_ADDRESS@),
{
    let a = TELOS_INTENT_DIGEST_ADDRESS@;
    assert(primitives::be_value(a) == 0x901) by {
        lemma_leading_zeros(a, 18);
        reveal_with_fuel(primitives::be_value, 3);
        assert(a.drop_last().drop_last() =~= a.take(18));
    }
}

/// Adding the intent digest adds its address, and leaves the identity precompile where it is.
pub proof fn lemma_digest_added(runs: Runs, addresses: Set<Seq<u8>>, address: Seq<u8>)
    requires
        runs_only_at(runs, addresses),
    ensures
        runs_only_at(digest_added(runs, address), addresses.insert(address)),
        runs_identity(runs) && address != IDENTITY_ADDRESS@ ==> runs_identity(
            digest_added(runs, address),
        ),
{
    let added = digest_added(runs, address);
    assert forall|a: Seq<u8>, input: Seq<u8>, gas_limit: u64|
        (#[trigger] run_at(added, a, input, gas_limit)) is Some <==> addresses.insert(
            address,
        ).contains(a) by {
        assert(run_at(runs, a, input, gas_limit) is Some <==> addresses.contains(a));
    }
    if runs_identity(runs) && address != IDENTITY_ADDRESS@ {
        assert forall|input: Seq<u8>, gas_limit: u64| #[trigger]
            run_at(added, IDENTITY_ADDRESS@, input, gas_limit) == Some::<Handed>(
                Ok(interpreted(identity_of(input, gas_limit), gas_limit)),
            ) by {
            assert(run_at(runs, IDENTITY_ADDRESS@, input, gas_limit) == run_at(
                added,
                IDENTITY_ADDRESS@,
                input,
                gas_limit,
            ));
        }
    }
}

/// At every address but that of the intent digest the set does what its stock precompiles do: those
/// of its hardfork, and nothing where the hardfork has none.
pub proof fn lemma_other_addresses_run_as_stock(
    set: TelosPrecompiles,
    spec: u8,
    address: Seq<u8>,
    input: Seq<u8>,
    gas_limit: u64,
)
    requires
        address != TELOS_INTENT_DIGEST_ADDRESS@,
    ensures
        run_at(set.runs(), address, input, gas_limit) == run_at(
            eth_runs(set.eth),
            address,
            input,
            gas_limit,
        ),
        set.is_of(spec) ==> run_at(set.runs(), address, input, gas_limit) == run_at(
            stock_runs(spec),
            address,
            input,
            gas_limit,
        ),
        set.is_of(spec) && !stock_addresses(spec).contains(address) ==> run_at(
            set.runs(),
            address,
            input,
            gas_limit,
        ) is None,
{
    if set.is_of(spec) {
        assert(run_at(set.runs(), address, input, gas_limit) is Some <==> set.addresses().contains(
            address,
        ));
    }
}

proof fn lemma_leading_zeros(bytes: Seq<u8>, n: int)
    requires
        0 <= n <= bytes.len(),
        forall|i: int| 0 <= i < n ==> #[trigger] bytes[i] == 0,
    ensures
        primitives::be_value(bytes.take(n)) == 0,
    decreases n,
{
    if n > 0 {
        lemma_leading_zeros(bytes, n - 1);
        assert(bytes.take(n).drop_last() =~= bytes.take(n - 1));
        assert(bytes.take(n).last() == bytes[n - 1]);
    }
}

/// There is a digest exactly for inputs of 160 bytes and a limit of at least 4500: the hash of the
/// input, for 4500. A call that cannot pay 500 and 25 for each byte runs out of gas, and every other
/// call is told how long its input should have been and was.
pub proof fn lemma_digests_are_hashes_of_whole_inputs(input: Seq<u8>, gas_limit: u64)
    ensures
        digest_of(input, gas_limit) is Ok <==> input.len() == 160 && gas_limit >= 4_500,
        digest_of(input, gas_limit) matches Ok(r) ==> r == (4_500nat, keccak::keccak256_of(input)),
        digest_of(input, gas_limit) == Err::<(nat, Seq<u8>), HaltView>(HaltView::OutOfGas)
            <==> 500 + 25 * input.len() > gas_limit,
        digest_of(input, gas_limit) matches Err(HaltView::Other(message)) ==> message
            == "intent_digest: expected "@ + text::number_text(160, 10) + " bytes, got "@
            + text::number_text(input.len(), 10),
{
}

/// What the interpreter is handed: a result with its bytes, less the gas that it used where the
/// limit covers that; a halt with nothing, and no gas left.
pub proof fn lemma_interpreter_is_handed_the_result(
    result: Result<(nat, Seq<u8>), HaltView>,
    gas_limit: u64,
)
    ensures
        interpreted(result, gas_limit).1.limit == gas_limit,
        result matches Ok(r) ==> interpreted(result, gas_limit).0 == InstructionResult::Return
            && interpreted(result, gas_limit).2 == r.1,
        result matches Ok(r) ==> r.0 <= gas_limit ==> r.0 + interpreted(result, gas_limit).1.remaining
            == gas_limit,
        result matches Ok(r) ==> r.0 > gas_limit ==> interpreted(result, gas_limit).1.remaining
            == gas_limit,
        result is Err ==> interpreted(result, gas_limit).1.remaining == 0 && interpreted(
            result,
            gas_limit,
        ).2.len() == 0,
        result matches Err(halt) ==> interpreted(result, gas_limit).0 == if halt is OutOfGas {
            InstructionResult::PrecompileOOG
        } else {
            InstructionResult::PrecompileError
        },
{
}

/// The canonical input of an intent is five words: payer, merchant and asset, each behind twelve zero
/// bytes, the whole amount, and a word whose value is the deadline.
pub proof fn lemma_canonical_input_is_five_words(intent: IntentView)
    requires
        abi::intent_fits(intent),
    ensures
        canonical_input(intent).len() == 160,
        canonical_input(intent).subrange(0, 12) == Seq::new(12, |i: int| 0u8),
        canonical_input(intent).subrange(12, 32) == intent.payer,
        canonical_input(intent).subrange(32, 44) == Seq::new(12, |i: int| 0u8),
        canonical_input(intent).subrange(44, 64) == intent.merchant,
        canonical_input(intent).subrange(64, 76) == Seq::new(12, |i: int| 0u8),
        canonical_input(intent).subrange(76, 96) == intent.settlement_asset,
        canonical_input(intent).subrange(96, 128) == intent.settlement_amount,
        primitives::be_value(canonical_input(intent).subrange(128, 160)) == intent.deadline,
{
    let input = canonical_input(intent);
    primitives::lemma_be_bytes_len(intent.deadline, 32);
    reveal_with_fuel(primitives::byte_capacity, 33);
    primitives::lemma_be_round_trip(intent.deadline, 32);
    assert(input.subrange(0, 12) =~= Seq::new(12, |i: int| 0u8));
    assert(input.subrange(12, 32) =~= intent.payer);
    assert(input.subrange(32, 44) =~= Seq::new(12, |i: int| 0u8));
    assert(input.subrange(44, 64) =~= intent.merchant);
    assert(input.subrange(64, 76) =~= Seq::new(12, |i: int| 0u8));
    assert(input.subrange(76, 96) =~= intent.settlement_asset);
    assert(input.subrange(96, 128) =~= intent.settlement_amount);
    assert(input.subrange(128, 160) =~= abi::number_word(intent.deadline));
}

/// Adding the intent digest puts it at one address, on every input and under every limit, and leaves
/// every other address as it was.
pub proof fn lemma_digest_runs_at_one_address(
    runs: Runs,
    digest_address: Seq<u8>,
    address: Seq<u8>,
    input: Seq<u8>,
    gas_limit: u64,
)
    ensures
        address == digest_address ==> run_at(
            digest_added(runs, digest_address),
            address,
            input,
            gas_limit,
        ) == Some::<Handed>(Ok(interpreted(digest_of(input, gas_limit), gas_limit))),
        address != digest_address && runs.contains_key((address, input, gas_limit)) ==> run_at(
            digest_added(runs, digest_address),
            address,
            input,
            gas_limit,
        ) == Some(runs[(address, input, gas_limit)]),
        address != digest_address && !runs.contains_key((address, input, gas_limit)) ==> run_at(
            digest_added(runs, digest_address),
            address,
            input,
            gas_limit,
        ) is None,
{
}

/// The intent digest has the address 0x901.
pub proof fn lemma_digest_address_value()
    ensures
        TELOS_INTENT_DIGEST_ADDRESS@.len() == 20,
        primitives::be_value(TELOS_INTENT_DIGEST_ADDRESS@) == 0x901,
        primitives::be_value(IDENTITY_ADDRESS@) == 4,
{
    let a = TELOS_INTENT_DIGEST_ADDRESS@;
    lemma_leading_zeros(a, 18);
    reveal_with_fuel(primitives::be_value, 3);
    assert(a.drop_last().drop_last() =~= a.take(18));
    let b = IDENTITY_ADDRESS@;
    lemma_leading_zeros(b, 19);
    assert(b.drop_last() =~= b.take(19));
}

} // verus!
