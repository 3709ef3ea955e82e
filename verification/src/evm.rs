//! The contract calls that the project runs through an EVM, and what comes back of them.
use vstd::prelude::*;
use revm::context::TxEnv;
use revm::database::{CacheDB, DatabaseRef, EmptyDB};
use revm::primitives::TxKind;
use revm::{Context, ExecuteCommitEvm, MainBuilder, MainContext};
use crate::keccak;
use crate::keccak::keccak256;
use crate::primitives::{bytes_equal, Address, B256};
use crate::types;
use crate::types::{Log, LogView};

verus! {

/// A contract call without value at gas price zero.
#[derive(Clone, Debug, PartialEq, Eq)]
pub struct CallTx {
    pub caller: Address,
    pub to: Address,
    pub data: Vec<u8>,
    pub gas_limit: u64,
    pub nonce: u64,
}

/// The contents of a [`CallTx`].
pub struct CallView {
    pub caller: Seq<u8>,
    pub to: Seq<u8>,
    pub data: Seq<u8>,
    pub gas_limit: u64,
    pub nonce: u64,
}

impl View for CallTx {
    type V = CallView;

    open spec fn view(&self) -> CallView {
        CallView {
            caller: self.caller@,
            to: self.to@,
            data: self.data@,
            gas_limit: self.gas_limit,
            nonce: self.nonce,
        }
    }
}

/// What one run of the EVM gives.
#[derive(Clone, Debug, PartialEq, Eq)]
pub struct Run {
    pub success: bool,
    pub gas_used: u64,
    /// What the run returned or reverted with; absent where it was cut off.
    pub output: Option<Vec<u8>>,
    pub logs: Vec<Log>,
}

/// The contents of a [`Run`].
pub struct RunView {
    pub success: bool,
    pub gas_used: u64,
    pub output: Option<Seq<u8>>,
    pub logs: Seq<LogView>,
}

impl View for Run {
    type V = RunView;

    open spec fn view(&self) -> RunView {
        RunView {
            success: self.success,
            gas_used: self.gas_used,
            output: match self.output {
                Some(bytes) => Some(bytes@),
                None => None,
            },
            logs: types::log_views(self.logs@),
        }
    }
}

/// The in-memory database of revm.
#[verifier::external_type_specification]
#[verifier::external_body]
#[verifier::reject_recursive_types(ExtDB)]
pub struct ExCacheDB<ExtDB>(CacheDB<ExtDB>);

/// The database of revm that holds nothing.
#[verifier::external_type_specification]
#[verifier::external_body]
#[verifier::reject_recursive_types(E)]
pub struct ExEmptyDB<E>(revm::database::EmptyDBTyped<E>);

/// The accounts that a database stores: what each holds, by its address.
pub uninterp spec fn accounts_of(db: CacheDB<EmptyDB>) -> Map<Seq<u8>, Seq<u8>>;

/// What a call gives on a mainnet EVM over these accounts, or why it is no valid call; and the
/// accounts that it leaves.
pub uninterp spec fn committed_run(
    accounts: Map<Seq<u8>, Seq<u8>>,
    caller: Seq<u8>,
    to: Seq<u8>,
    data: Seq<u8>,
    gas_limit: u64,
    nonce: u64,
) -> (Result<RunView, Seq<char>>, Map<Seq<u8>, Seq<u8>>);

/// The code hash of an account, where the account exists.
pub uninterp spec fn code_hash_of(
    accounts: Map<Seq<u8>, Seq<u8>>,
    address: Seq<u8>,
) -> Option<Seq<u8>>;

/// Whether a code hash is that of an account with code: an account without code has the hash of
/// nothing.
pub open spec fn is_code_hash(hash: Option<Seq<u8>>) -> bool {
    hash matches Some(h) && h != keccak::keccak256_of(Seq::empty())
}

/// Whether an account has code.
pub open spec fn has_code(accounts: Map<Seq<u8>, Seq<u8>>, address: Seq<u8>) -> bool {
    is_code_hash(code_hash_of(accounts, address))
}

/// Whether no account has code.
pub open spec fn is_codeless(accounts: Map<Seq<u8>, Seq<u8>>) -> bool {
    forall|address: Seq<u8>| !#[trigger] has_code(accounts, address)
}

/// The nonce of an account, zero where the account does not exist.
pub uninterp spec fn nonce_of(accounts: Map<Seq<u8>, Seq<u8>>, address: Seq<u8>) -> u64;

/// What data weighs: a zero byte one unit, every other byte four.
pub open spec fn data_weight(data: Seq<u8>) -> nat
    decreases data.len(),
{
    if data.len() == 0 {
        0
    } else {
        data_weight(data.drop_last()) + if data.last() == 0 {
            1nat
        } else {
            4nat
        }
    }
}

/// What a call costs before it runs: the base cost, and the cost of its data.
pub open spec fn call_cost(data: Seq<u8>) -> nat {
    21_000 + 4 * data_weight(data)
}

/// The least gas limit with which a call is valid: the base cost, and the least that its data has
/// to pay for.
pub open spec fn call_floor(data: Seq<u8>) -> nat {
    21_000 + 10 * data_weight(data)
}

/// The most gas that a call may ask for.
pub const CALL_GAS_CAP: u64 = 16_777_216;

/// Whether a gas limit is one that a call with this data may have.
pub open spec fn gas_fits(data: Seq<u8>, gas_limit: u64) -> bool {
    call_floor(data) <= gas_limit <= CALL_GAS_CAP
}

/// No data weighs more than four units a byte.
pub proof fn lemma_data_weight_bound(data: Seq<u8>)
    ensures
        data.len() <= data_weight(data) <= 4 * data.len(),
    decreases data.len(),
{
    if data.len() > 0 {
        lemma_data_weight_bound(data.drop_last());
    }
}

/// The state in which no account exists.
pub open spec fn no_accounts() -> Map<Seq<u8>, Seq<u8>> {
    Map::empty()
}

/// `CacheDB::default` of revm over an empty database: no account is stored, so none has code and
/// every nonce is zero.
#[verifier::external_body]
pub(crate) fn empty_db() -> (db: CacheDB<EmptyDB>)
    ensures
        accounts_of(db) == no_accounts(),
        is_codeless(accounts_of(db)),
        forall|address: Seq<u8>| #[trigger] nonce_of(accounts_of(db), address) == 0,
{
    CacheDB::default()
}

/// `DatabaseRef::basic_ref` of revm for the in-memory database: the code hash of an account.
///
/// An account that is not stored has none. What it is otherwise depends on the accounts and the
/// address alone and is left to the name [`code_hash_of`].
#[verifier::external_body]
pub(crate) fn account_code_hash(db: &CacheDB<EmptyDB>, address: &Address) -> (r: Option<B256>)
    ensures
        match r {
            Some(hash) => code_hash_of(accounts_of(*db), address@) == Some(hash@),
            None => code_hash_of(accounts_of(*db), address@) is None,
        },
        !accounts_of(*db).contains_key(address@) ==> r is None,
{
    db.basic_ref((*address).into()).ok().flatten().map(|info| info.code_hash.0)
}

/// Whether a code hash is that of an account with code.
pub fn hash_means_code(hash: Option<&B256>) -> (r: bool)
    ensures
        r == is_code_hash(
            match hash {
                Some(h) => Some(h@),
                None => None,
            },
        ),
        r <==> hash is Some && hash->0@ != keccak::keccak256_of(Seq::empty()),
{
    match hash {
        Some(h) => {
            let nothing: [u8; 0] = [];
            assert(nothing@ =~= Seq::<u8>::empty());
            !bytes_equal(h, &keccak256(&nothing))
        },
        None => false,
    }
}

/// Runs one call with `ExecuteCommitEvm::transact_commit` of revm, on a mainnet EVM.
///
/// The result and the accounts afterwards depend on the accounts before and on the call alone.
/// What they are is left to the name [`committed_run`]. Of them this is said: a run that was cut
/// off did not succeed, and no run uses more gas than its limit. Where no account has code, none
/// gets any; a call with the caller's nonce, whose limit fits its data, is valid; and a valid
/// call moves the caller's nonce on by one.
#[verifier::external_body]
pub(crate) fn transact_commit(
    db: &mut CacheDB<EmptyDB>,
    caller: Address,
    to: Address,
    data: Vec<u8>,
    gas_limit: u64,
    nonce: u64,
) -> (r: Result<Run, String>)
    ensures
        match r {
            Ok(run) => committed_run(
                accounts_of(*old(db)),
                caller@,
                to@,
                data@,
                gas_limit,
                nonce,
            ).0 == Ok::<RunView, Seq<char>>(run@),
            Err(e) => committed_run(
                accounts_of(*old(db)),
                caller@,
                to@,
                data@,
                gas_limit,
                nonce,
            ).0 == Err::<RunView, Seq<char>>(e@),
        },
        accounts_of(*final(db)) == committed_run(
            accounts_of(*old(db)),
            caller@,
            to@,
            data@,
            gas_limit,
            nonce,
        ).1,
        r matches Ok(run) ==> run.success ==> run.output is Some,
        r matches Ok(run) ==> run.gas_used <= gas_limit,
        is_codeless(accounts_of(*old(db))) ==> is_codeless(accounts_of(*final(db))),
        is_codeless(accounts_of(*old(db))) && nonce_of(accounts_of(*old(db)), caller@) == nonce
            && nonce < u64::MAX && gas_fits(data@, gas_limit) ==> r is Ok,
        is_codeless(accounts_of(*old(db))) && r is Ok ==> nonce_of(
            accounts_of(*final(db)),
            caller@,
        ) == nonce + 1,
{
    let mut evm = Context::mainnet().with_db(db).build_mainnet();
    let kind = TxKind::Call(to.into());
    let tx = TxEnv { caller: caller.into(), kind, data: data.into(), gas_limit, nonce, ..Default::default() };
    let run = evm.transact_commit(tx).map_err(|e| e.to_string())?;
    Ok(Run {
        success: run.is_success(),
        gas_used: run.tx_gas_used(),
        output: run.output().map(|o| o.to_vec()),
        logs: run.logs().iter().map(|l| Log {
            topics: l.topics().iter().map(|t| t.0).collect(),
            data: l.data.data.to_vec(),
        }).collect(),
    })
}

/// An account has code exactly where it exists and its code hash is not that of nothing.
pub proof fn lemma_code_is_known_by_its_hash(accounts: Map<Seq<u8>, Seq<u8>>, address: Seq<u8>)
    ensures
        has_code(accounts, address) <==> code_hash_of(accounts, address) is Some && code_hash_of(
            accounts,
            address,
        )->0 != keccak::keccak256_of(Seq::empty()),
{
}

/// One more byte of data weighs one unit where it is zero and four otherwise; no data weighs nothing.
pub proof fn lemma_one_more_byte_weighs(data: Seq<u8>, byte: u8)
    ensures
        data_weight(Seq::empty()) == 0,
        data_weight(data.push(byte)) == data_weight(data) + if byte == 0 {
            1nat
        } else {
            4nat
        },
        call_cost(Seq::empty()) == 21_000 && call_floor(Seq::empty()) == 21_000,
        call_cost(data.push(byte)) == call_cost(data) + if byte == 0 {
            4nat
        } else {
            16nat
        },
        call_floor(data.push(byte)) == call_floor(data) + if byte == 0 {
            10nat
        } else {
            40nat
        },
{
    assert(data.push(byte).drop_last() =~= data);
}

} // verus!
