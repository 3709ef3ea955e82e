//! Calls on a fresh EVM whose precompiles include the intent digest.
//!
//! The set of precompiles is made once and shared; the state of a call is made for the call and
//! dropped with it.
use vstd::prelude::*;
use vstd::string::*;
use revm::context::result::ExecutionResult as Ran;
use revm::context::result::HaltReason::PrecompileErrorWithContext as Told;
use revm::context::TxEnv;
use revm::handler::EthPrecompiles;
use revm::precompile::{
    EthPrecompileOutput, Precompile, PrecompileError as EvmFault, PrecompileHalt as EvmHalt,
    PrecompileId, PrecompileOutput as EvmOutput,
};
use revm::primitives::TxKind;
use revm::{Context, ExecuteEvm, MainBuilder, MainContext};
use crate::evm;
use crate::evm::{CallTx, CallView};
use crate::keccak;
use crate::precompile;
use crate::precompile::{
    eth_new, intent_digest, Handed, HaltView, InstructionResult, PrecompileHalt, PrecompileOutput,
    Runs, IDENTITY_ADDRESS, TELOS_INTENT_DIGEST_ADDRESS,
};
use crate::primitives::{bytes_equal, Address};

verus! {

/// The number of the hardfork that a mainnet EVM starts with.
pub const MAINNET_SPEC: u8 = 19;

/// What a precompile hands to the EVM.
#[verifier::external_type_specification]
#[verifier::external_body]
pub struct ExEvmOutput(EvmOutput);

/// A precompile error that aborts the EVM.
#[verifier::external_type_specification]
#[verifier::external_body]
pub struct ExEvmFault(EvmFault);

/// What an output carries: the result of the precompile, and the reservoir that it was called
/// with.
pub uninterp spec fn output_parts(output: EvmOutput) -> (Result<(nat, Seq<u8>), HaltView>, u64);

/// `PrecompileOutput::from_eth_result` of revm: a precompile result in the form that the EVM takes.
#[verifier::external_body]
fn evm_output(result: Result<PrecompileOutput, PrecompileHalt>, reservoir: u64) -> (r: EvmOutput)
    ensures
        output_parts(r) == (precompile::digest_view(result), reservoir),
{
    let result = match result {
        Ok(out) => Ok(EthPrecompileOutput::new(out.gas_used, out.bytes.into())),
        Err(PrecompileHalt::OutOfGas) => Err(EvmHalt::OutOfGas),
        Err(PrecompileHalt::Other(message)) => Err(EvmHalt::other(message)),
    };
    EvmOutput::from_eth_result(result, reservoir)
}

/// The intent digest as the EVM calls it.
pub fn digest_entry(input: &[u8], gas_limit: u64, reservoir: u64) -> (r: Result<
    EvmOutput,
    EvmFault,
>)
    ensures
        r is Ok,
        output_parts(r->Ok_0) == (precompile::digest_of(input@, gas_limit), reservoir),
{
    Ok(evm_output(intent_digest(input, gas_limit), reservoir))
}

/// `Precompiles::extend` of revm: a set in which [`digest_entry`] runs at an address, whatever ran
/// there before. The hardfork stays, and so does what runs at every other address.
#[verifier::external_body]
fn with_digest(eth: &EthPrecompiles, address: &Address) -> (r: EthPrecompiles)
    ensures
        precompile::eth_spec(r) == precompile::eth_spec(*eth),
        precompile::eth_addresses(r) == precompile::eth_addresses(*eth).insert(address@),
        precompile::eth_runs(r) == precompile::digest_added(
            precompile::eth_runs(*eth),
            address@,
        ),
{
    let mut set = (*eth.precompiles).clone();
    let id = PrecompileId::custom("intent_digest");
    set.extend([Precompile::new(id, (*address).into(), digest_entry)]);
    EthPrecompiles { precompiles: Box::leak(Box::new(set)), spec: eth.spec }
}

/// The addresses of the precompiles that a call can reach.
pub open spec fn call_addresses() -> Set<Seq<u8>> {
    precompile::stock_addresses(MAINNET_SPEC).insert(TELOS_INTENT_DIGEST_ADDRESS@)
}

/// What the precompiles do that a call can reach: the intent digest runs at its own address, and at
/// every other address what the mainnet EVM has there.
pub open spec fn call_runs() -> Runs {
    precompile::digest_added(
        precompile::stock_runs(MAINNET_SPEC),
        TELOS_INTENT_DIGEST_ADDRESS@,
    )
}

/// The precompiles that a call can reach: the stock ones of the mainnet EVM and the intent digest.
/// There is no other way to make one than [`CallSet::new`].
#[derive(Debug)]
pub struct CallSet {
    eth: EthPrecompiles,
}

impl Clone for CallSet {
    fn clone(&self) -> (r: Self)
        ensures
            r == *self,
    {
        proof {
            use_type_invariant(self);
        }
        CallSet { eth: self.eth.clone() }
    }
}

impl CallSet {
    /// The addresses of the set.
    pub closed spec fn addresses(&self) -> Set<Seq<u8>> {
        precompile::eth_addresses(self.eth)
    }

    /// The number of the hardfork of the set.
    pub closed spec fn spec_number(&self) -> u8 {
        precompile::eth_spec(self.eth)
    }

    /// What the precompiles of the set do.
    pub closed spec fn runs(&self) -> Runs {
        precompile::eth_runs(self.eth)
    }

    /// Whether the set holds the stock precompiles of the mainnet EVM and the intent digest, each at
    /// its own address and nowhere else.
    #[verifier::type_invariant]
    pub closed spec fn wf(&self) -> bool {
        &&& self.spec_number() == MAINNET_SPEC
        &&& self.addresses() == call_addresses()
        &&& self.runs() == call_runs()
        &&& precompile::runs_only_at(call_runs(), call_addresses())
        &&& precompile::runs_identity(call_runs())
    }

    /// The stock precompiles of the mainnet EVM and the intent digest. The set lives as long as the
    /// process, so it is meant to be made once and cloned.
    pub fn new() -> (set: Self)
        ensures
            set.spec_number() == MAINNET_SPEC,
            set.addresses() == call_addresses(),
            set.runs() == call_runs(),
    {
        let stock: EthPrecompiles = eth_new(MAINNET_SPEC);
        proof {
            precompile::lemma_digest_added(
                precompile::eth_runs(stock),
                precompile::eth_addresses(stock),
                TELOS_INTENT_DIGEST_ADDRESS@,
            );
        }
        CallSet { eth: with_digest(&stock, &TELOS_INTENT_DIGEST_ADDRESS) }
    }
}

/// How a call ended, as the EVM tells it.
#[derive(Clone, Debug, PartialEq, Eq)]
pub enum RunEnd {
    Success(Vec<u8>),
    Revert(Vec<u8>),
    /// The call was cut off; the text names why.
    Halt(String),
    /// A precompile cut the call off and said why; the text names all of it.
    PrecompileHalt(String),
}

/// The contents of a [`RunEnd`].
pub enum RunEndView {
    Success(Seq<u8>),
    Revert(Seq<u8>),
    Halt(Seq<char>),
    PrecompileHalt(Seq<char>),
}

impl View for RunEnd {
    type V = RunEndView;

    open spec fn view(&self) -> RunEndView {
        match self {
            RunEnd::Success(output) => RunEndView::Success(output@),
            RunEnd::Revert(output) => RunEndView::Revert(output@),
            RunEnd::Halt(reason) => RunEndView::Halt(reason@),
            RunEnd::PrecompileHalt(reason) => RunEndView::PrecompileHalt(reason@),
        }
    }
}

/// How a call ended, as a caller is told.
#[derive(Clone, Debug, PartialEq, Eq)]
pub enum CallEnd {
    Success(Vec<u8>),
    Revert(Vec<u8>),
    /// The call was cut off; the text names why.
    Halt(String),
}

/// The contents of a [`CallEnd`].
pub enum EndView {
    Success(Seq<u8>),
    Revert(Seq<u8>),
    Halt(Seq<char>),
}

impl View for CallEnd {
    type V = EndView;

    open spec fn view(&self) -> EndView {
        match self {
            CallEnd::Success(output) => EndView::Success(output@),
            CallEnd::Revert(output) => EndView::Revert(output@),
            CallEnd::Halt(reason) => EndView::Halt(reason@),
        }
    }
}

/// How a call ends on a fresh mainnet EVM over no accounts with the precompiles of a [`CallSet`],
/// or why it is no valid call.
pub uninterp spec fn call_run(
    caller: Seq<u8>,
    to: Seq<u8>,
    data: Seq<u8>,
    gas_limit: u64,
    nonce: u64,
) -> Result<RunEndView, Seq<char>>;

/// How the EVM ended a call by its contents.
pub open spec fn run_end_view(end: Result<RunEnd, String>) -> Result<RunEndView, Seq<char>> {
    match end {
        Ok(end) => Ok(end@),
        Err(e) => Err(e@),
    }
}

/// Whether a call is valid where no account exists.
pub open spec fn is_valid(data: Seq<u8>, gas_limit: u64, nonce: u64) -> bool {
    nonce == 0 && evm::gas_fits(data, gas_limit)
}

/// The gas that a valid call has left to run with.
pub open spec fn gas_left(data: Seq<u8>, gas_limit: u64) -> u64 {
    (gas_limit - evm::call_cost(data)) as u64
}

/// Whether a call ends as what runs at its address says. Where nothing runs, nothing is returned.
pub open spec fn ends_as(end: Result<RunEndView, Seq<char>>, run: Option<Handed>) -> bool {
    match run {
        None => end == Ok::<RunEndView, Seq<char>>(RunEndView::Success(seq![])),
        Some(Err(_)) => end is Err,
        Some(Ok((result, _, output))) => match result {
            InstructionResult::Return => end == Ok::<RunEndView, Seq<char>>(
                RunEndView::Success(output),
            ),
            InstructionResult::Revert => end == Ok::<RunEndView, Seq<char>>(
                RunEndView::Revert(output),
            ),
            InstructionResult::PrecompileOOG => end == Ok::<RunEndView, Seq<char>>(
                RunEndView::Halt("OutOfGas(Precompile)"@),
            ),
            InstructionResult::PrecompileError => end is Ok && end->Ok_0 is PrecompileHalt,
        },
    }
}

/// Runs one call with `ExecuteEvm::transact` of revm, on a fresh mainnet EVM over an empty
/// database with the precompiles of the set, and drops the state.
///
/// The end depends on the call alone, since every [`CallSet`] holds the same precompiles, and is
/// left to the name [`call_run`]. Of it this is said: the call is refused exactly where it is not
/// valid or what runs at its address stops the EVM; otherwise it ends as what runs there says, under
/// the gas that is left once the call and its data are paid. How a refusal and the halt of a
/// precompile are worded is left out.
#[verifier::external_body]
fn transact_call(
    set: &CallSet,
    caller: Address,
    to: Address,
    data: Vec<u8>,
    gas_limit: u64,
    nonce: u64,
) -> (r: Result<RunEnd, String>)
    requires
        set.wf(),
    ensures
        run_end_view(r) == call_run(caller@, to@, data@, gas_limit, nonce),
        !is_valid(data@, gas_limit, nonce) ==> r is Err,
        is_valid(data@, gas_limit, nonce) ==> ends_as(
            run_end_view(r),
            precompile::run_at(set.runs(), to@, data@, gas_left(data@, gas_limit)),
        ),
{
    let mut evm = Context::mainnet().build_mainnet().with_precompiles(set.eth.clone());
    let kind = TxKind::Call(to.into());
    let env = TxEnv { caller: caller.into(), kind, data: data.into(), gas_limit, nonce, ..Default::default() };
    Ok(match evm.transact(env).map_err(|e| e.to_string())?.result {
        Ran::Success { output, .. } => RunEnd::Success(output.into_data().into()),
        Ran::Revert { output, .. } => RunEnd::Revert(output.into()),
        Ran::Halt { reason: r @ Told(_), .. } => RunEnd::PrecompileHalt(format!("{r:?}")),
        Ran::Halt { reason, .. } => RunEnd::Halt(format!("{reason:?}")),
    })
}

/// What a caller is told of an end. The intent digest does not tell why it cut a call off.
pub open spec fn told_end(to: Seq<u8>, end: RunEndView) -> EndView {
    match end {
        RunEndView::Success(output) => EndView::Success(output),
        RunEndView::Revert(output) => EndView::Revert(output),
        RunEndView::Halt(reason) => EndView::Halt(reason),
        RunEndView::PrecompileHalt(reason) => if to == TELOS_INTENT_DIGEST_ADDRESS@ {
            EndView::Halt("PrecompileError"@)
        } else {
            EndView::Halt(reason)
        },
    }
}

/// What a caller is told of an end.
pub fn tell_end(to: &Address, end: RunEnd) -> (r: CallEnd)
    ensures
        r@ == told_end(to@, end@),
        end matches RunEnd::Success(output) ==> r == CallEnd::Success(output),
        end matches RunEnd::Revert(output) ==> r == CallEnd::Revert(output),
        end matches RunEnd::Halt(reason) ==> r == CallEnd::Halt(reason),
        end is PrecompileHalt && to@ != TELOS_INTENT_DIGEST_ADDRESS@ ==> r == CallEnd::Halt(
            end->PrecompileHalt_0,
        ),
{
    match end {
        RunEnd::Success(output) => CallEnd::Success(output),
        RunEnd::Revert(output) => CallEnd::Revert(output),
        RunEnd::Halt(reason) => CallEnd::Halt(reason),
        RunEnd::PrecompileHalt(reason) => if bytes_equal(to, &TELOS_INTENT_DIGEST_ADDRESS) {
            CallEnd::Halt(String::from_str("PrecompileError"))
        } else {
            CallEnd::Halt(reason)
        },
    }
}

/// The end of a call by its contents.
pub open spec fn end_view(end: Result<CallEnd, String>) -> Result<EndView, Seq<char>> {
    match end {
        Ok(end) => Ok(end@),
        Err(e) => Err(e@),
    }
}

/// How a call ends, or why it is no valid call.
pub open spec fn call_end(call: CallView) -> Result<EndView, Seq<char>> {
    match call_run(call.caller, call.to, call.data, call.gas_limit, call.nonce) {
        Ok(end) => Ok(told_end(call.to, end)),
        Err(e) => Err(e),
    }
}

/// What runs at the address that a call is to, under the gas that the call has left.
pub open spec fn call_handed(call: CallView) -> Option<Handed> {
    precompile::run_at(call_runs(), call.to, call.data, gas_left(call.data, call.gas_limit))
}

/// Whether a caller is told what becomes of a call: that it is not valid, or what runs at its
/// address, which is the intent digest at its own and a stock precompile or nothing at every other.
pub open spec fn is_told(call: CallView, end: Result<EndView, Seq<char>>) -> bool {
    if !is_valid(call.data, call.gas_limit, call.nonce) {
        end is Err
    } else {
        match call_handed(call) {
            None => end == Ok::<EndView, Seq<char>>(EndView::Success(seq![])),
            Some(Err(_)) => end is Err,
            Some(Ok((result, _, output))) => match result {
                InstructionResult::Return => end == Ok::<EndView, Seq<char>>(
                    EndView::Success(output),
                ),
                InstructionResult::Revert => end == Ok::<EndView, Seq<char>>(
                    EndView::Revert(output),
                ),
                InstructionResult::PrecompileOOG => end == Ok::<EndView, Seq<char>>(
                    EndView::Halt("OutOfGas(Precompile)"@),
                ),
                InstructionResult::PrecompileError => end is Ok && end->Ok_0 is Halt && (call.to
                    == TELOS_INTENT_DIGEST_ADDRESS@ ==> end->Ok_0 == EndView::Halt(
                    "PrecompileError"@,
                )),
            },
        }
    }
}

/// How a valid call to the intent digest ends: with the digest under the gas that is left.
pub open spec fn digest_end(call: CallView) -> EndView {
    match precompile::digest_of(call.data, gas_left(call.data, call.gas_limit)) {
        Ok((_, digest)) => EndView::Success(digest),
        Err(HaltView::OutOfGas) => EndView::Halt("OutOfGas(Precompile)"@),
        Err(HaltView::Other(_)) => EndView::Halt("PrecompileError"@),
    }
}

/// How a valid call to the identity precompile ends: with its data, where the gas that is left
/// covers it.
pub open spec fn identity_end(call: CallView) -> EndView {
    match precompile::identity_of(call.data, gas_left(call.data, call.gas_limit)) {
        Ok((_, output)) => EndView::Success(output),
        Err(_) => EndView::Halt("OutOfGas(Precompile)"@),
    }
}

/// Runs one call on a fresh EVM and drops the state. The end is that of what runs at the address:
/// of the intent digest at its own, of a stock precompile, such as the identity, at its own, and of
/// nothing everywhere else.
pub fn run_call(set: &CallSet, tx: CallTx) -> (r: Result<CallEnd, String>)
    ensures
        end_view(r) == call_end(tx@),
        is_told(tx@, end_view(r)),
        !is_valid(tx.data@, tx.gas_limit, tx.nonce) ==> r is Err,
        is_valid(tx.data@, tx.gas_limit, tx.nonce) ==> (call_handed(tx@) is None
            <==> !call_addresses().contains(tx.to@)),
        is_valid(tx.data@, tx.gas_limit, tx.nonce) && tx.to@ == TELOS_INTENT_DIGEST_ADDRESS@
            ==> end_view(r) == Ok::<EndView, Seq<char>>(digest_end(tx@)),
        is_valid(tx.data@, tx.gas_limit, tx.nonce) && tx.to@ == IDENTITY_ADDRESS@ ==> end_view(r)
            == Ok::<EndView, Seq<char>>(identity_end(tx@)),
{
    proof {
        use_type_invariant(set);
    }
    let to: Address = tx.to;
    match transact_call(set, tx.caller, tx.to, tx.data, tx.gas_limit, tx.nonce) {
        Ok(end) => Ok(tell_end(&to, end)),
        Err(e) => Err(e),
    }
}

/// A caller is told every end as it was, but for one: where the intent digest cut the call off, the
/// reason is left out.
pub proof fn lemma_ends_are_told_as_they_were(
    to: Seq<u8>,
    output: Seq<u8>,
    reason: Seq<char>,
)
    ensures
        told_end(to, RunEndView::Success(output)) == EndView::Success(output),
        told_end(to, RunEndView::Revert(output)) == EndView::Revert(output),
        told_end(to, RunEndView::Halt(reason)) == EndView::Halt(reason),
        to != TELOS_INTENT_DIGEST_ADDRESS@ ==> told_end(to, RunEndView::PrecompileHalt(reason))
            == EndView::Halt(reason),
        to == TELOS_INTENT_DIGEST_ADDRESS@ ==> told_end(to, RunEndView::PrecompileHalt(reason))
            == EndView::Halt("PrecompileError"@),
{
}

/// A call is valid exactly where it is the first of its sender and its gas lies between what its data
/// has to pay and the cap. What is left to run with is the gas less 21000, 4 for each zero byte and 16
/// for each other byte of data; with no data that is all but 21000.
pub proof fn lemma_valid_calls_have_gas_left(data: Seq<u8>, gas_limit: u64, nonce: u64)
    ensures
        is_valid(data, gas_limit, nonce) <==> nonce == 0 && 21_000 + 10 * evm::data_weight(data)
            <= gas_limit <= 16_777_216,
        is_valid(data, gas_limit, nonce) ==> gas_left(data, gas_limit) + 21_000 + 4
            * evm::data_weight(data) == gas_limit,
        is_valid(Seq::empty(), gas_limit, nonce) ==> gas_left(Seq::empty(), gas_limit) + 21_000
            == gas_limit,
{
    assert(evm::data_weight(Seq::<u8>::empty()) == 0);
}

/// A valid call to the intent digest succeeds with the hash of its data exactly where the data has
/// 160 bytes and 4500 of its gas are left; it runs out of gas exactly where 500 and 25 for each byte
/// are not.
pub proof fn lemma_digest_calls_return_the_hash(call: CallView)
    ensures
        digest_end(call) == EndView::Success(keccak::keccak256_of(call.data)) <==> call.data.len()
            == 160 && gas_left(call.data, call.gas_limit) >= 4_500,
        digest_end(call) == EndView::Halt("OutOfGas(Precompile)"@) <==> 500 + 25 * call.data.len()
            > gas_left(call.data, call.gas_limit),
        call.data.len() != 160 && 500 + 25 * call.data.len() <= gas_left(call.data, call.gas_limit)
            ==> digest_end(call) == EndView::Halt("PrecompileError"@),
{
    reveal_strlit("OutOfGas(Precompile)");
    reveal_strlit("PrecompileError");
    assert("OutOfGas(Precompile)"@.len() != "PrecompileError"@.len());
}

/// A call that the EVM refuses is refused, and every other call ends as the EVM says, but for the
/// reason that the intent digest leaves out.
pub proof fn lemma_calls_end_as_the_evm_says(call: CallView)
    ensures
        ({
            let run = call_run(call.caller, call.to, call.data, call.gas_limit, call.nonce);
            &&& run matches Err(e) ==> call_end(call) == Err::<EndView, Seq<char>>(e)
            &&& run matches Ok(RunEndView::Success(output)) ==> call_end(call) == Ok::<
                EndView,
                Seq<char>,
            >(EndView::Success(output))
            &&& run matches Ok(RunEndView::Revert(output)) ==> call_end(call) == Ok::<
                EndView,
                Seq<char>,
            >(EndView::Revert(output))
            &&& run matches Ok(RunEndView::Halt(reason)) ==> call_end(call) == Ok::<
                EndView,
                Seq<char>,
            >(EndView::Halt(reason))
            &&& run matches Ok(RunEndView::PrecompileHalt(reason)) ==> call_end(call) == Ok::<
                EndView,
                Seq<char>,
            >(
                EndView::Halt(
                    if call.to == TELOS_INTENT_DIGEST_ADDRESS@ {
                        "PrecompileError"@
                    } else {
                        reason
                    },
                ),
            )
        }),
{
}

/// A valid call to the identity returns its data exactly where 15 and 3 for each word that is begun
/// are left of its gas.
pub proof fn lemma_identity_calls_return_their_data(call: CallView)
    ensures
        15 + 3 * ((call.data.len() + 31) / 32) <= gas_left(call.data, call.gas_limit)
            ==> identity_end(call) == EndView::Success(call.data),
        15 + 3 * ((call.data.len() + 31) / 32) > gas_left(call.data, call.gas_limit)
            ==> identity_end(call) == EndView::Halt("OutOfGas(Precompile)"@),
{
}

} // verus!
