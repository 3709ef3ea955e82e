//! The JSON-RPC surface: chain id and stateless calls.
//!
//! Each call runs alone on a fresh EVM over an empty state whose precompiles include the intent
//! digest: see [`TelosNode::eth_call`].
use vstd::prelude::*;
use vstd::string::*;
use crate::calls;
use crate::calls::{run_call, CallEnd, CallSet, EndView};
use crate::evm::{CallTx, CallView};
use crate::keccak;
use crate::precompile;
use crate::primitives::{copy_bytes, Address};
use crate::text;
use crate::text::{hex_encode, hex_prefixed, parse_u64, push_number};

verus! {

/// The chain id where none is configured.
pub const DEFAULT_CHAIN_ID: u64 = 0x7e105;

/// The address that the server binds where none is configured.
pub const DEFAULT_BIND_IP: [u8; 4] = [127, 0, 0, 1];

/// The port that the server binds where none is configured.
pub const DEFAULT_BIND_PORT: u16 = 8545;

/// The gas of a call that names none.
pub const DEFAULT_CALL_GAS: u64 = 1_000_000;

/// The error code of a call that failed.
pub const CALL_FAILED_CODE: i32 = -32000;

/// The part of an `eth_call` request that is honoured.
#[derive(Clone, Debug, PartialEq, Eq)]
pub struct EthCallRequest {
    pub to: Address,
    pub from: Option<Address>,
    pub data: Option<Vec<u8>>,
    pub gas: Option<u64>,
}

/// What a caller is told of a call that failed.
#[derive(Clone, Debug, PartialEq, Eq)]
pub struct RpcError {
    pub code: i32,
    pub message: String,
}

/// The contents of an [`EthCallRequest`].
pub struct RequestView {
    pub to: Seq<u8>,
    pub from: Option<Seq<u8>>,
    pub data: Option<Seq<u8>>,
    pub gas: Option<u64>,
}

impl View for EthCallRequest {
    type V = RequestView;

    open spec fn view(&self) -> RequestView {
        RequestView {
            to: self.to@,
            from: match self.from {
                Some(from) => Some(from@),
                None => None,
            },
            data: match self.data {
                Some(data) => Some(data@),
                None => None,
            },
            gas: self.gas,
        }
    }
}

/// The call for a request: the zero address calls, with no data and the default gas, where the
/// request says nothing else.
pub open spec fn call_of(req: RequestView) -> CallView {
    CallView {
        caller: match req.from {
            Some(from) => from,
            None => Seq::new(20, |i: int| 0u8),
        },
        to: req.to,
        data: match req.data {
            Some(data) => data,
            None => Seq::empty(),
        },
        gas_limit: match req.gas {
            Some(gas) => gas,
            None => DEFAULT_CALL_GAS,
        },
        nonce: 0,
    }
}

/// The call for a request.
pub fn call_tx(req: &EthCallRequest) -> (tx: CallTx)
    ensures
        tx@ == call_of(req@),
        tx.to == req.to,
        tx.nonce == 0,
        req.from is Some ==> tx.caller == req.from->0,
        req.data is Some ==> tx.data@ == req.data->0@,
        req.data is None ==> tx.data@.len() == 0,
        tx.gas_limit == match req.gas {
            Some(gas) => gas,
            None => 1_000_000,
        },
{
    let zero: Address = [0u8;20];
    assert(zero@ =~= Seq::new(20, |i: int| 0u8));
    let caller: Address = match req.from {
        Some(from) => from,
        None => zero,
    };
    let data: Vec<u8> = match &req.data {
        Some(data) => copy_bytes(data.as_slice()),
        None => Vec::new(),
    };
    let gas_limit: u64 = match req.gas {
        Some(gas) => gas,
        None => DEFAULT_CALL_GAS,
    };
    CallTx { caller, to: req.to, data, gas_limit, nonce: 0 }
}

/// The output of a call, or what is said of its failure. `Err` is a call that was not valid.
pub open spec fn output_of(end: Result<EndView, Seq<char>>) -> Result<Seq<u8>, Seq<char>> {
    match end {
        Err(e) => Err("transact: "@ + e),
        Ok(EndView::Success(output)) => Ok(output),
        Ok(EndView::Revert(output)) => Err("revert: 0x"@ + text::hex_text(output)),
        Ok(EndView::Halt(reason)) => Err("halt: "@ + reason),
    }
}

/// The output of a call, or what is said of its failure.
pub fn call_output(end: Result<CallEnd, String>) -> (r: Result<Vec<u8>, String>)
    ensures
        match r {
            Ok(output) => Ok::<Seq<u8>, Seq<char>>(output@),
            Err(e) => Err::<Seq<u8>, Seq<char>>(e@),
        } == output_of(calls::end_view(end)),
        r is Ok <==> end is Ok && end->Ok_0 is Success,
        end matches Ok(CallEnd::Success(output)) ==> r->Ok_0@ == output@,
        end matches Ok(CallEnd::Revert(output)) ==> r->Err_0@ == "revert: 0x"@ + text::hex_text(
            output@,
        ),
        end matches Ok(CallEnd::Halt(reason)) ==> r->Err_0@ == "halt: "@ + reason@,
        end matches Err(e) ==> r->Err_0@ == "transact: "@ + e@,
{
    match end {
        Err(e) => {
            let mut message: String = String::from_str("transact: ");
            message.append(e.as_str());
            Err(message)
        },
        Ok(CallEnd::Success(output)) => Ok(output),
        Ok(CallEnd::Revert(output)) => {
            let mut message: String = String::from_str("revert: 0x");
            message.append(hex_encode(output.as_slice()).as_str());
            Err(message)
        },
        Ok(CallEnd::Halt(reason)) => {
            let mut message: String = String::from_str("halt: ");
            message.append(reason.as_str());
            Err(message)
        },
    }
}

/// The chain id as it is reported: hexadecimal with `0x`, without leading zeros.
pub open spec fn chain_id_text(chain_id: u64) -> Seq<char> {
    seq!['0', 'x'] + text::number_text(chain_id as nat, 16)
}

/// What a caller is answered: the output in hexadecimal, or an error with code and message.
pub open spec fn answer_of(end: Result<EndView, Seq<char>>) -> Result<
    Seq<char>,
    (i32, Seq<char>),
> {
    match output_of(end) {
        Ok(output) => Ok(text::prefixed_hex(output)),
        Err(e) => Err((CALL_FAILED_CODE, "call failed: "@ + e)),
    }
}

/// An answer by its contents.
pub open spec fn answer_view(r: Result<String, RpcError>) -> Result<Seq<char>, (i32, Seq<char>)> {
    match r {
        Ok(s) => Ok(s@),
        Err(e) => Err((e.code, e.message@)),
    }
}

/// What a caller is answered for a call that ended.
pub fn answer_call(end: Result<CallEnd, String>) -> (r: Result<String, RpcError>)
    ensures
        answer_view(r) == answer_of(calls::end_view(end)),
        r is Ok <==> end is Ok && end->Ok_0 is Success,
        end matches Ok(CallEnd::Success(output)) ==> r->Ok_0@ == text::prefixed_hex(output@),
        r matches Err(e) ==> e.code == -32000,
{
    match call_output(end) {
        Ok(output) => Ok(hex_prefixed(output.as_slice())),
        Err(e) => {
            let mut message: String = String::from_str("call failed: ");
            message.append(e.as_str());
            Err(RpcError { code: CALL_FAILED_CODE, message })
        },
    }
}

/// What a request is answered: it runs alone, on a fresh EVM over no accounts.
pub open spec fn request_answer(req: RequestView) -> Result<Seq<char>, (i32, Seq<char>)> {
    answer_of(calls::call_end(call_of(req)))
}

/// Whether a request is a valid call to this address.
pub open spec fn is_request_to(req: RequestView, address: Seq<u8>) -> bool {
    call_of(req).to == address && calls::is_valid(call_of(req).data, call_of(req).gas_limit, 0)
}

/// The node behind the JSON-RPC methods.
#[derive(Debug)]
pub struct TelosNode {
    pub chain_id: u64,
    /// The precompiles that calls can reach.
    pub calls: CallSet,
}

impl Clone for TelosNode {
    fn clone(&self) -> (r: Self)
        ensures
            r == *self,
    {
        TelosNode { chain_id: self.chain_id, calls: self.calls.clone() }
    }
}

impl TelosNode {
    /// A node of this chain.
    pub fn new(chain_id: u64) -> (node: Self)
        ensures
            node.chain_id == chain_id,
            node.calls.spec_number() == calls::MAINNET_SPEC,
            node.calls.addresses() == calls::call_addresses(),
            node.calls.runs() == calls::call_runs(),
    {
        TelosNode { chain_id, calls: CallSet::new() }
    }

    /// The answer to `eth_chainId`.
    pub fn chain_id(&self) -> (s: String)
        ensures
            s@ == chain_id_text(self.chain_id),
    {
        let mut s: String = String::new();
        s.push('0');
        s.push('x');
        push_number(&mut s, self.chain_id, 16);
        assert(s@ =~= chain_id_text(self.chain_id));
        s
    }

    /// The answer to `eth_call`. It depends on the request alone, and tells what becomes of the call:
    /// the intent digest answers at its own address, the stock precompiles, such as the identity,
    /// at theirs, and every other address returns nothing.
    pub fn eth_call(&self, req: &EthCallRequest) -> (r: Result<String, RpcError>)
        ensures
            answer_view(r) == request_answer(req@),
            answer_view(r) == answer_of(calls::call_end(call_of(req@))) && calls::is_told(
                call_of(req@),
                calls::call_end(call_of(req@)),
            ),
            is_request_to(req@, precompile::TELOS_INTENT_DIGEST_ADDRESS@) ==> answer_view(r)
                == answer_of(Ok(calls::digest_end(call_of(req@)))),
            is_request_to(req@, precompile::IDENTITY_ADDRESS@) ==> answer_view(r) == answer_of(
                Ok(calls::identity_end(call_of(req@))),
            ),
            is_request_to(req@, req@.to) && !calls::call_addresses().contains(req@.to)
                ==> answer_view(r) == answer_of(Ok(EndView::Success(seq![]))),
            !is_request_to(req@, req@.to) ==> r is Err,
            is_request_to(req@, precompile::TELOS_INTENT_DIGEST_ADDRESS@) && call_of(
                req@,
            ).data.len() == 160 && calls::gas_left(call_of(req@).data, call_of(req@).gas_limit)
                >= 4_500 ==> r is Ok && r->Ok_0@ == text::prefixed_hex(
                keccak::keccak256_of(call_of(req@).data),
            ),
            r matches Err(e) ==> e.code == -32000,
    {
        answer_call(run_call(&self.calls, call_tx(req)))
    }
}

/// The chain id of a setting: a decimal number, the default where it is absent or no such number.
pub fn parse_chain_id(setting: Option<&str>) -> (chain_id: u64)
    ensures
        chain_id == match setting {
            Some(s) => match text::parsed_u64(s@) {
                Some(n) => n,
                None => DEFAULT_CHAIN_ID,
            },
            None => DEFAULT_CHAIN_ID,
        },
{
    match setting {
        Some(s) => match parse_u64(s) {
            Some(n) => n,
            None => DEFAULT_CHAIN_ID,
        },
        None => DEFAULT_CHAIN_ID,
    }
}

/// The reported chain id reads back as the chain id.
pub proof fn lemma_chain_id_reads_back(chain_id: u64)
    ensures
        chain_id_text(chain_id).take(2) == seq!['0', 'x'],
        text::number_value(chain_id_text(chain_id).skip(2), 16) == chain_id,
{
    text::lemma_number_round_trip(chain_id as nat, 16);
    assert(chain_id_text(chain_id).skip(2) =~= text::number_text(chain_id as nat, 16));
    assert(chain_id_text(chain_id).take(2) =~= seq!['0', 'x']);
}

/// A call is answered with its output exactly where it succeeded; the answer decodes to the
/// output. Every other end is answered with the one error code.
pub proof fn lemma_only_success_is_answered(end: Result<EndView, Seq<char>>)
    ensures
        answer_of(end) is Ok <==> end matches Ok(EndView::Success(_)),
        end matches Ok(EndView::Success(output)) ==> text::hex_bytes(answer_of(end)->Ok_0.skip(2))
            == Some(output),
        answer_of(end) matches Err(e) ==> e.0 == CALL_FAILED_CODE,
{
    match end {
        Ok(EndView::Success(output)) => {
            text::lemma_hex_round_trip(output);
            assert(text::prefixed_hex(output).skip(2) =~= text::hex_text(output));
        },
        _ => {},
    }
}

/// The answers to a sequence of requests, each as [`TelosNode::eth_call`] gives it.
pub open spec fn answers(requests: Seq<RequestView>) -> Seq<Result<Seq<char>, (i32, Seq<char>)>> {
    requests.map_values(|req: RequestView| request_answer(req))
}

/// Calls are stateless: each request is answered as if it were the only one ever made, so equal
/// requests get equal answers, whatever was asked before, between or after them.
pub proof fn lemma_calls_are_stateless(
    before: Seq<RequestView>,
    req: RequestView,
    between: Seq<RequestView>,
    after: Seq<RequestView>,
)
    ensures
        answers(before.push(req) + between)[before.len() as int] == answers(seq![req])[0],
        answers(before.push(req) + between.push(req) + after)[before.len() as int] == answers(
            before.push(req) + between.push(req) + after,
        )[(before.len() + 1 + between.len()) as int],
{
    let all = before.push(req) + between.push(req) + after;
    assert(all[before.len() as int] == req);
    assert(all[(before.len() + 1 + between.len()) as int] == req);
    assert((before.push(req) + between)[before.len() as int] == req);
}

/// The call for a request is to its address, with its data and its gas, from its sender. A request
/// that names no sender comes from the zero address, one without data brings none, and one without
/// gas gets a million. Every call is the first of its sender.
pub proof fn lemma_call_is_the_request(req: RequestView)
    ensures
        call_of(req).to == req.to,
        req.from is Some ==> call_of(req).caller == req.from->0,
        req.from is None ==> call_of(req).caller.len() == 20 && forall|i: int|
            0 <= i < 20 ==> #[trigger] call_of(req).caller[i] == 0,
        req.data is Some ==> call_of(req).data == req.data->0,
        req.data is None ==> call_of(req).data.len() == 0,
        req.gas is Some ==> call_of(req).gas_limit == req.gas->0,
        req.gas is None ==> call_of(req).gas_limit == 1_000_000,
        call_of(req).nonce == 0,
{
}

/// What is answered: the output of a success in hexadecimal behind `0x`, and for every other end the
/// error -32000 with what happened and, for a revert, the output in hexadecimal.
pub proof fn lemma_answers_tell_the_end(output: Seq<u8>, reason: Seq<char>)
    ensures
        answer_of(Ok(EndView::Success(output))) is Ok,
        answer_of(Ok(EndView::Success(output)))->Ok_0 == seq!['0', 'x'] + text::hex_text(output),
        answer_of(Ok(EndView::Revert(output))) == Err::<Seq<char>, (i32, Seq<char>)>(
            (-32000i32, "call failed: "@ + ("revert: 0x"@ + text::hex_text(output))),
        ),
        answer_of(Ok(EndView::Halt(reason))) == Err::<Seq<char>, (i32, Seq<char>)>(
            (-32000i32, "call failed: "@ + ("halt: "@ + reason)),
        ),
        answer_of(Err(reason)) == Err::<Seq<char>, (i32, Seq<char>)>(
            (-32000i32, "call failed: "@ + ("transact: "@ + reason)),
        ),
{
}

/// The chain id is written in hexadecimal behind `0x`, in lower case and without a leading zero.
pub proof fn lemma_chain_id_is_written_short(chain_id: u64)
    ensures
        chain_id_text(chain_id).len() > 2,
        chain_id_text(chain_id)[0] == '0' && chain_id_text(chain_id)[1] == 'x',
        chain_id_text(chain_id)[2] == '0' <==> chain_id == 0,
        forall|i: int|
            2 <= i < chain_id_text(chain_id).len() ==> {
                let c = #[trigger] chain_id_text(chain_id)[i];
                '0' <= c <= '9' || 'a' <= c <= 'f'
            },
{
    text::lemma_numbers_have_one_text(chain_id as nat, 16);
    let digits = text::number_text(chain_id as nat, 16);
    assert(chain_id_text(chain_id)[2] == digits[0]);
    assert forall|i: int| 2 <= i < chain_id_text(chain_id).len() implies {
        let c = #[trigger] chain_id_text(chain_id)[i];
        '0' <= c <= '9' || 'a' <= c <= 'f'
    } by {
        assert(chain_id_text(chain_id)[i] == digits[i - 2]);
    }
}

/// A request is answered with what its call ends with.
pub proof fn lemma_requests_are_answered_with_their_call(req: RequestView)
    ensures
        request_answer(req) == answer_of(calls::call_end(call_of(req))),
        calls::call_end(call_of(req)) matches Ok(EndView::Success(output)) ==> request_answer(req)
            == Ok::<Seq<char>, (i32, Seq<char>)>(seq!['0', 'x'] + text::hex_text(output)),
        request_answer(req) is Ok <==> calls::call_end(call_of(req)) is Ok && calls::call_end(
            call_of(req),
        )->Ok_0 is Success,
{
}

} // verus!
