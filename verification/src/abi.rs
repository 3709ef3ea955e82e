//! The on-chain formats of the project: the calls it encodes and the events it decodes.
//!
//! | Signature | Use |
//! | --- | --- |
//! | `transfer(address to, uint256 amount)` | the spot leg |
//! | `placeShort(address asset, uint256 size, uint16 maxSlippageBps)` | the hedge leg |
//! | `Transfer(address indexed from, address indexed to, uint256 value)` | spot leg settled |
//! | `OrderPlaced(bytes32 indexed orderId, address indexed asset, uint256 size)` | hedge acknowledged |
//! | `PaymentIntent(bytes32 indexed intentId, address indexed payer, address indexed merchant, address settlementAsset, uint256 settlementAmount, uint16 maxSlippageBps, uint64 deadline)` | an intent |
//! | `Fill(address indexed trader, bytes32 indexed orderId, address indexed asset, bool isBuy, uint64 priceE8, uint64 sizeE8, uint64 timestamp)` | a trade |
//!
//! Every parameter occupies one 32-byte word. Numbers and addresses are right-aligned.
use vstd::prelude::*;
use crate::keccak;
use crate::keccak::{selector, signature_hash};
use crate::primitives;
use crate::primitives::{bytes_equal, push_bytes, u16_from_word, u64_from_word, Address, B256, U256};
use crate::types::{Fill, FillView, IntentView, Log, LogView, PaymentIntent};

verus! {

/// Why a log is not the event that was asked for. The checks run in this order.
#[derive(Clone, Copy, Debug, PartialEq, Eq)]
pub enum DecodeError {
    /// The number of topics is not that of the event.
    TopicCount,
    /// The first topic is not the signature hash of the event.
    Signature,
    /// The data ends before the last word of the event.
    DataTooShort,
}

/// A decoded ERC-20 transfer.
#[derive(Clone, Copy, Debug, PartialEq, Eq)]
pub struct Transfer {
    pub from: Address,
    pub to: Address,
    pub value: U256,
}

/// A decoded acknowledgement of a hedge order.
#[derive(Clone, Copy, Debug, PartialEq, Eq)]
pub struct OrderPlaced {
    pub order_id: B256,
    pub asset: Address,
    pub size: U256,
}

/// The signature of the spot call.
pub open spec fn transfer_signature() -> Seq<char> {
    "transfer(address,uint256)"@
}

/// The signature of the hedge call.
pub open spec fn place_short_signature() -> Seq<char> {
    "placeShort(address,uint256,uint16)"@
}

/// The signature of the transfer event.
pub open spec fn transfer_event_signature() -> Seq<char> {
    "Transfer(address,address,uint256)"@
}

/// The signature of the hedge acknowledgement.
pub open spec fn order_placed_signature() -> Seq<char> {
    "OrderPlaced(bytes32,address,uint256)"@
}

/// The signature of the intent event.
pub open spec fn payment_intent_signature() -> Seq<char> {
    "PaymentIntent(bytes32,address,address,address,uint256,uint16,uint64)"@
}

/// The signature of the trade event.
pub open spec fn fill_signature() -> Seq<char> {
    "Fill(address,bytes32,address,bool,uint64,uint64,uint64)"@
}

/// An address as one word: twelve zero bytes, then the address.
pub open spec fn address_word(address: Seq<u8>) -> Seq<u8> {
    Seq::new(12, |i: int| 0u8) + address
}

/// A number as one word.
pub open spec fn number_word(n: nat) -> Seq<u8> {
    primitives::be_bytes(n, 32)
}

/// A truth value as one word.
pub open spec fn bool_word(b: bool) -> Seq<u8> {
    number_word(if b {
        1
    } else {
        0
    })
}

/// The word at position `i` of event data.
pub open spec fn word_at(data: Seq<u8>, i: int) -> Seq<u8> {
    data.subrange(32 * i, 32 * i + 32)
}

/// The address in the low twenty bytes of a word.
pub open spec fn word_address(word: Seq<u8>) -> Seq<u8> {
    word.subrange(12, 32)
}

/// The number in the low `n` bytes of a word.
pub open spec fn word_low(word: Seq<u8>, n: int) -> nat {
    primitives::be_value(word.subrange(32 - n, 32))
}

/// Whether any byte of a word is not zero.
pub open spec fn word_is_set(word: Seq<u8>) -> bool {
    exists|i: int| 0 <= i < word.len() && #[trigger] word[i] != 0
}

/// The arguments of a spot transfer.
pub open spec fn transfer_args(to: Seq<u8>, amount: Seq<u8>) -> Seq<u8> {
    address_word(to) + amount
}

/// The calldata of a spot transfer.
pub open spec fn transfer_data(to: Seq<u8>, amount: Seq<u8>) -> Seq<u8> {
    keccak::selector_of(transfer_signature()) + transfer_args(to, amount)
}

/// The arguments of a hedge order.
pub open spec fn place_short_args(asset: Seq<u8>, size: Seq<u8>, max_slippage_bps: nat) -> Seq<u8> {
    address_word(asset) + size + number_word(max_slippage_bps)
}

/// The calldata of a hedge order.
pub open spec fn place_short_data(asset: Seq<u8>, size: Seq<u8>, max_slippage_bps: nat) -> Seq<u8> {
    keccak::selector_of(place_short_signature()) + place_short_args(asset, size, max_slippage_bps)
}

/// The asset in the calldata of a hedge order: the address in its first word. Data too short for
/// that word has the zero address.
pub open spec fn order_asset(data: Seq<u8>) -> Seq<u8> {
    if data.len() < 36 {
        Seq::new(20, |i: int| 0u8)
    } else {
        data.subrange(16, 36)
    }
}

/// The first check that a log fails as an event with this first topic, topic count and word count.
pub open spec fn event_error(
    log: LogView,
    topic0: Seq<u8>,
    topics: nat,
    words: nat,
) -> Option<DecodeError> {
    if log.topics.len() != topics {
        Some(DecodeError::TopicCount)
    } else if log.topics[0] != topic0 {
        Some(DecodeError::Signature)
    } else if log.data.len() < 32 * words {
        Some(DecodeError::DataTooShort)
    } else {
        None
    }
}

/// What a log says as a transfer event with this first topic: sender, recipient and value.
pub open spec fn transfer_under(log: LogView, topic0: Seq<u8>) -> Result<
    (Seq<u8>, Seq<u8>, Seq<u8>),
    DecodeError,
> {
    match event_error(log, topic0, 3, 1) {
        Some(e) => Err(e),
        None => Ok(
            (word_address(log.topics[1]), word_address(log.topics[2]), word_at(log.data, 0)),
        ),
    }
}

/// What a log says as a transfer event.
pub open spec fn transfer_of(log: LogView) -> Result<(Seq<u8>, Seq<u8>, Seq<u8>), DecodeError> {
    transfer_under(log, keccak::signature_hash_of(transfer_event_signature()))
}

/// What a log says as a hedge acknowledgement with this first topic: order, asset and size.
pub open spec fn order_placed_under(log: LogView, topic0: Seq<u8>) -> Result<
    (Seq<u8>, Seq<u8>, Seq<u8>),
    DecodeError,
> {
    match event_error(log, topic0, 3, 1) {
        Some(e) => Err(e),
        None => Ok((log.topics[1], word_address(log.topics[2]), word_at(log.data, 0))),
    }
}

/// What a log says as a hedge acknowledgement.
pub open spec fn order_placed_of(log: LogView) -> Result<(Seq<u8>, Seq<u8>, Seq<u8>), DecodeError> {
    order_placed_under(log, keccak::signature_hash_of(order_placed_signature()))
}

/// What a log says as an intent event with this first topic.
pub open spec fn payment_intent_under(log: LogView, topic0: Seq<u8>) -> Result<
    IntentView,
    DecodeError,
> {
    match event_error(log, topic0, 4, 4) {
        Some(e) => Err(e),
        None => Ok(
            IntentView {
                intent_id: log.topics[1],
                payer: word_address(log.topics[2]),
                merchant: word_address(log.topics[3]),
                settlement_asset: word_address(word_at(log.data, 0)),
                settlement_amount: word_at(log.data, 1),
                max_slippage_bps: word_low(word_at(log.data, 2), 2),
                deadline: word_low(word_at(log.data, 3), 8),
            },
        ),
    }
}

/// What a log says as an intent event.
pub open spec fn payment_intent_of(log: LogView) -> Result<IntentView, DecodeError> {
    payment_intent_under(log, keccak::signature_hash_of(payment_intent_signature()))
}

/// What a log says as a trade event with this first topic.
pub open spec fn fill_under(log: LogView, topic0: Seq<u8>) -> Result<FillView, DecodeError> {
    match event_error(log, topic0, 4, 4) {
        Some(e) => Err(e),
        None => Ok(
            FillView {
                trader: word_address(log.topics[1]),
                order_id: log.topics[2],
                asset: word_address(log.topics[3]),
                is_buy: word_is_set(word_at(log.data, 0)),
                price_e8: word_low(word_at(log.data, 1), 8),
                size_e8: word_low(word_at(log.data, 2), 8),
                timestamp: word_low(word_at(log.data, 3), 8),
            },
        ),
    }
}

/// What a log says as a trade event.
pub open spec fn fill_of(log: LogView) -> Result<FillView, DecodeError> {
    fill_under(log, keccak::signature_hash_of(fill_signature()))
}

/// The log that a contract emits for an intent.
pub open spec fn payment_intent_log(intent: IntentView) -> LogView {
    LogView {
        topics: seq![
            keccak::signature_hash_of(payment_intent_signature()),
            intent.intent_id,
            address_word(intent.payer),
            address_word(intent.merchant),
        ],
        data: address_word(intent.settlement_asset) + intent.settlement_amount + number_word(
            intent.max_slippage_bps,
        ) + number_word(intent.deadline),
    }
}

/// The log that a contract emits for a trade.
pub open spec fn fill_log(fill: FillView) -> LogView {
    LogView {
        topics: seq![
            keccak::signature_hash_of(fill_signature()),
            address_word(fill.trader),
            fill.order_id,
            address_word(fill.asset),
        ],
        data: bool_word(fill.is_buy) + number_word(fill.price_e8) + number_word(fill.size_e8)
            + number_word(fill.timestamp),
    }
}

/// The log that a token emits for a transfer.
pub open spec fn transfer_log(from: Seq<u8>, to: Seq<u8>, value: Seq<u8>) -> LogView {
    LogView {
        topics: seq![
            keccak::signature_hash_of(transfer_event_signature()),
            address_word(from),
            address_word(to),
        ],
        data: value,
    }
}

/// The log that a venue emits for an order.
pub open spec fn order_placed_log(order_id: Seq<u8>, asset: Seq<u8>, size: Seq<u8>) -> LogView {
    LogView {
        topics: seq![
            keccak::signature_hash_of(order_placed_signature()),
            order_id,
            address_word(asset),
        ],
        data: size,
    }
}

proof fn lemma_be_bytes_suffix(value: nat, len: nat, n: nat)
    requires
        n <= len,
    ensures
        be_suffix(value, len, n) == primitives::be_bytes(value, n),
    decreases n,
{
    primitives::lemma_be_bytes_len(value, len);
    if n > 0 {
        lemma_be_bytes_suffix(value / 256, (len - 1) as nat, (n - 1) as nat);
        primitives::lemma_be_bytes_len(value / 256, (len - 1) as nat);
        assert(be_suffix(value, len, n) =~= be_suffix(
            value / 256,
            (len - 1) as nat,
            (n - 1) as nat,
        ).push((value % 256) as u8));
    } else {
        assert(be_suffix(value, len, n) =~= Seq::<u8>::empty());
    }
}

spec fn be_suffix(value: nat, len: nat, n: nat) -> Seq<u8> {
    primitives::be_bytes(value, len).subrange(len - n, len as int)
}

/// A number that fits in `n` bytes is read back from the low `n` bytes of its word.
pub proof fn lemma_number_word_round_trip(value: nat, n: nat)
    requires
        n <= 32,
        value < primitives::byte_capacity(n),
    ensures
        number_word(value).len() == 32,
        word_low(number_word(value), n as int) == value,
{
    primitives::lemma_be_bytes_len(value, 32);
    lemma_be_bytes_suffix(value, 32, n);
    primitives::lemma_be_round_trip(value, n);
}

/// An address is read back from its word.
pub proof fn lemma_address_word_round_trip(address: Seq<u8>)
    requires
        address.len() == 20,
    ensures
        address_word(address).len() == 32,
        word_address(address_word(address)) == address,
{
    assert(word_address(address_word(address)) =~= address);
}

/// A truth value is read back from its word.
pub proof fn lemma_bool_word_round_trip(b: bool)
    ensures
        bool_word(b).len() == 32,
        word_is_set(bool_word(b)) == b,
{
    primitives::lemma_be_bytes_len(1, 32);
    primitives::lemma_be_bytes_len(0, 32);
    if b {
        assert(primitives::be_bytes(1, 32)[31] == 1u8);
    } else {
        lemma_zero_word(32);
    }
}

proof fn lemma_zero_word(len: nat)
    ensures
        forall|i: int| 0 <= i < len ==> #[trigger] primitives::be_bytes(0, len)[i] == 0,
    decreases len,
{
    if len > 0 {
        lemma_zero_word((len - 1) as nat);
        primitives::lemma_be_bytes_len(0, (len - 1) as nat);
        assert(0nat / 256 == 0 && 0nat % 256 == 0);
        assert(primitives::be_bytes(0, len) == primitives::be_bytes(0, (len - 1) as nat).push(0u8));
    }
}

/// Whether the widths of an intent's fields are those of its type.
pub open spec fn intent_fits(intent: IntentView) -> bool {
    &&& intent.intent_id.len() == 32
    &&& intent.payer.len() == 20
    &&& intent.merchant.len() == 20
    &&& intent.settlement_asset.len() == 20
    &&& intent.settlement_amount.len() == 32
    &&& intent.max_slippage_bps <= u16::MAX
    &&& intent.deadline <= u64::MAX
}

/// Whether the widths of a trade's fields are those of its type.
pub open spec fn fill_fits(fill: FillView) -> bool {
    &&& fill.trader.len() == 20
    &&& fill.order_id.len() == 32
    &&& fill.asset.len() == 20
    &&& fill.price_e8 <= u64::MAX
    &&& fill.size_e8 <= u64::MAX
    &&& fill.timestamp <= u64::MAX
}

proof fn lemma_four_words(a: Seq<u8>, b: Seq<u8>, c: Seq<u8>, d: Seq<u8>)
    requires
        a.len() == 32,
        b.len() == 32,
        c.len() == 32,
        d.len() == 32,
    ensures
        (a + b + c + d).len() == 128,
        word_at(a + b + c + d, 0) == a,
        word_at(a + b + c + d, 1) == b,
        word_at(a + b + c + d, 2) == c,
        word_at(a + b + c + d, 3) == d,
{
    let all = a + b + c + d;
    assert(word_at(all, 0) =~= a);
    assert(word_at(all, 1) =~= b);
    assert(word_at(all, 2) =~= c);
    assert(word_at(all, 3) =~= d);
}

proof fn lemma_capacities()
    ensures
        u16::MAX < primitives::byte_capacity(2),
        u64::MAX < primitives::byte_capacity(8),
{
    reveal_with_fuel(primitives::byte_capacity, 9);
}

/// Decoding the log of any intent gives the intent back.
pub proof fn lemma_payment_intent_log_round_trip(intent: IntentView)
    requires
        intent_fits(intent),
    ensures
        payment_intent_of(payment_intent_log(intent)) == Ok::<IntentView, DecodeError>(
            intent,
        ),
{
    lemma_capacities();
    lemma_address_word_round_trip(intent.payer);
    lemma_address_word_round_trip(intent.merchant);
    lemma_address_word_round_trip(intent.settlement_asset);
    lemma_number_word_round_trip(intent.max_slippage_bps, 2);
    lemma_number_word_round_trip(intent.deadline, 8);
    lemma_four_words(
        address_word(intent.settlement_asset),
        intent.settlement_amount,
        number_word(intent.max_slippage_bps),
        number_word(intent.deadline),
    );
}

/// Decoding the log of any trade gives the trade back.
pub proof fn lemma_fill_log_round_trip(fill: FillView)
    requires
        fill_fits(fill),
    ensures
        fill_of(fill_log(fill)) == Ok::<FillView, DecodeError>(fill),
{
    lemma_capacities();
    lemma_address_word_round_trip(fill.trader);
    lemma_address_word_round_trip(fill.asset);
    lemma_bool_word_round_trip(fill.is_buy);
    lemma_number_word_round_trip(fill.price_e8, 8);
    lemma_number_word_round_trip(fill.size_e8, 8);
    lemma_number_word_round_trip(fill.timestamp, 8);
    lemma_four_words(
        bool_word(fill.is_buy),
        number_word(fill.price_e8),
        number_word(fill.size_e8),
        number_word(fill.timestamp),
    );
}

/// Decoding the log of any transfer gives the transfer back.
pub proof fn lemma_transfer_log_round_trip(from: Seq<u8>, to: Seq<u8>, value: Seq<u8>)
    requires
        from.len() == 20,
        to.len() == 20,
        value.len() == 32,
    ensures
        transfer_of(transfer_log(from, to, value)) == Ok::<
            (Seq<u8>, Seq<u8>, Seq<u8>),
            DecodeError,
        >((from, to, value)),
{
    lemma_address_word_round_trip(from);
    lemma_address_word_round_trip(to);
    assert(word_at(value, 0) =~= value);
}

/// Decoding the log of any order gives the order back.
pub proof fn lemma_order_placed_log_round_trip(order_id: Seq<u8>, asset: Seq<u8>, size: Seq<u8>)
    requires
        order_id.len() == 32,
        asset.len() == 20,
        size.len() == 32,
    ensures
        order_placed_of(order_placed_log(order_id, asset, size)) == Ok::<
            (Seq<u8>, Seq<u8>, Seq<u8>),
            DecodeError,
        >((order_id, asset, size)),
{
    lemma_address_word_round_trip(asset);
    assert(word_at(size, 0) =~= size);
}

/// The word at position `i` of event data.
fn read_word(data: &Vec<u8>, i: usize) -> (word: B256)
    requires
        i < 4,
        data@.len() >= 32 * (i + 1),
    ensures
        word@ == word_at(data@, i as int),
{
    let mut word: B256 = [0u8; 32];
    let mut j: usize = 0;
    while j < 32
        invariant
            i < 4,
            j <= 32,
            data@.len() >= 32 * (i + 1),
            forall|k: int| 0 <= k < j ==> word@[k] == data@[32 * i + k],
        decreases 32 - j,
    {
        word[j] = data[32 * i + j];
        j += 1;
    }
    assert(word@ =~= word_at(data@, i as int));
    word
}

/// The address in the low twenty bytes of a word.
fn read_address(word: &B256) -> (address: Address)
    ensures
        address@ == word_address(word@),
{
    let mut address: Address = [0u8; 20];
    let mut j: usize = 0;
    while j < 20
        invariant
            j <= 20,
            forall|k: int| 0 <= k < j ==> address@[k] == word@[12 + k],
        decreases 20 - j,
    {
        address[j] = word[12 + j];
        j += 1;
    }
    assert(address@ =~= word_address(word@));
    address
}

/// Whether any byte of a word is not zero.
fn read_bool(word: &B256) -> (b: bool)
    ensures
        b == word_is_set(word@),
{
    let mut j: usize = 0;
    while j < 32
        invariant
            j <= 32,
            forall|k: int| 0 <= k < j ==> word@[k] == 0,
        decreases 32 - j,
    {
        if word[j] != 0 {
            assert(word@[j as int] != 0);
            return true;
        }
        j += 1;
    }
    false
}

/// Appends an address as one word.
fn push_address_word(out: &mut Vec<u8>, address: &Address)
    ensures
        final(out)@ == old(out)@ + address_word(address@),
{
    let zeros: [u8; 12] = [0u8; 12];
    push_bytes(out, &zeros);
    push_bytes(out, address);
    assert(zeros@ =~= Seq::new(12, |i: int| 0u8));
    assert(out@ =~= old(out)@ + address_word(address@));
}

proof fn lemma_leading_zeros(n: nat, tail: Seq<u8>)
    ensures
        primitives::be_value(Seq::new(n, |i: int| 0u8) + tail) == primitives::be_value(tail),
    decreases tail.len(), n,
{
    let zeros = Seq::new(n, |i: int| 0u8);
    if tail.len() > 0 {
        assert((zeros + tail).drop_last() =~= zeros + tail.drop_last());
        lemma_leading_zeros(n, tail.drop_last());
    } else if n > 0 {
        assert((zeros + tail).drop_last() =~= Seq::new((n - 1) as nat, |i: int| 0u8) + tail);
        lemma_leading_zeros((n - 1) as nat, tail);
    }
}

/// Appends a 16-bit number as one word.
fn push_u16_word(out: &mut Vec<u8>, n: u16)
    ensures
        final(out)@ == old(out)@ + number_word(n as nat),
{
    let zeros: [u8; 30] = [0u8; 30];
    push_bytes(out, &zeros);
    let low: [u8; 2] = [(n / 256) as u8, (n % 256) as u8];
    push_bytes(out, &low);
    proof {
        let word = Seq::new(30, |i: int| 0u8) + low@;
        lemma_leading_zeros(30, low@);
        reveal_with_fuel(primitives::be_value, 3);
        assert(low@.drop_last() =~= seq![(n / 256) as u8]);
        assert(low@.drop_last().drop_last() =~= Seq::<u8>::empty());
        assert(primitives::be_value(low@) == n as nat);
        primitives::lemma_be_value_inverse(word);
        assert(zeros@ =~= Seq::new(30, |i: int| 0u8));
        assert(out@ =~= old(out)@ + word);
    }
}

/// Encodes the arguments of `transfer(to, amount)`.
pub fn encode_transfer_args(to: &Address, amount: &U256) -> (args: Vec<u8>)
    ensures
        args@ == transfer_args(to@, amount@),
{
    let mut args: Vec<u8> = Vec::new();
    push_address_word(&mut args, to);
    push_bytes(&mut args, amount);
    assert(args@ =~= transfer_args(to@, amount@));
    args
}

/// Encodes `transfer(to, amount)`.
pub fn encode_transfer(to: &Address, amount: &U256) -> (data: Vec<u8>)
    ensures
        data@ == transfer_data(to@, amount@),
        data@.len() == 68,
        data@.subrange(0, 4) == keccak::keccak256_of(
            vstd::utf8::encode_utf8("transfer(address,uint256)"@),
        ).subrange(0, 4),
        data@.subrange(4, 16) == Seq::new(12, |i: int| 0u8),
        data@.subrange(16, 36) == to@,
        data@.subrange(36, 68) == amount@,
{
    let mut data: Vec<u8> = Vec::new();
    push_bytes(&mut data, &selector("transfer(address,uint256)"));
    push_bytes(&mut data, encode_transfer_args(to, amount).as_slice());
    assert(data@ =~= transfer_data(to@, amount@));
    assert(data@.subrange(0, 4) =~= keccak::selector_of("transfer(address,uint256)"@));
    assert(data@.subrange(4, 16) =~= Seq::new(12, |i: int| 0u8));
    assert(data@.subrange(16, 36) =~= to@);
    assert(data@.subrange(36, 68) =~= amount@);
    data
}

/// Encodes the arguments of `placeShort(asset, size, max_slippage_bps)`.
pub fn encode_place_short_args(asset: &Address, size: &U256, max_slippage_bps: u16) -> (args: Vec<
    u8,
>)
    ensures
        args@ == place_short_args(asset@, size@, max_slippage_bps as nat),
        args@.len() == 96,
        args@.subrange(0, 12) == Seq::new(12, |i: int| 0u8),
        args@.subrange(12, 32) == asset@,
        args@.subrange(32, 64) == size@,
        primitives::be_value(args@.subrange(64, 96)) == max_slippage_bps,
{
    let mut args: Vec<u8> = Vec::new();
    push_address_word(&mut args, asset);
    push_bytes(&mut args, size);
    push_u16_word(&mut args, max_slippage_bps);
    assert(args@ =~= place_short_args(asset@, size@, max_slippage_bps as nat));
    proof {
        primitives::lemma_be_bytes_len(max_slippage_bps as nat, 32);
        lemma_place_short_args_read_back(asset@, size@, max_slippage_bps as nat);
    }
    args
}

/// Encodes `placeShort(asset, size, max_slippage_bps)`. The asset can be read back from the data.
pub fn encode_place_short(asset: &Address, size: &U256, max_slippage_bps: u16) -> (data: Vec<u8>)
    ensures
        data@ == place_short_data(asset@, size@, max_slippage_bps as nat),
        data@.len() == 100,
        order_asset(data@) == asset@,
        data@.subrange(0, 4) == keccak::keccak256_of(
            vstd::utf8::encode_utf8("placeShort(address,uint256,uint16)"@),
        ).subrange(0, 4),
        data@.subrange(4, 16) == Seq::new(12, |i: int| 0u8),
        data@.subrange(16, 36) == asset@,
        data@.subrange(36, 68) == size@,
        primitives::be_value(data@.subrange(68, 100)) == max_slippage_bps,
{
    let mut data: Vec<u8> = Vec::new();
    push_bytes(&mut data, &selector("placeShort(address,uint256,uint16)"));
    let args: Vec<u8> = encode_place_short_args(asset, size, max_slippage_bps);
    push_bytes(&mut data, args.as_slice());
    assert(data@ =~= place_short_data(asset@, size@, max_slippage_bps as nat));
    assert(order_asset(data@) =~= asset@);
    assert(data@.subrange(0, 4) =~= keccak::selector_of("placeShort(address,uint256,uint16)"@));
    assert(data@.subrange(4, 16) =~= args@.subrange(0, 12));
    assert(data@.subrange(16, 36) =~= args@.subrange(12, 32));
    assert(data@.subrange(36, 68) =~= args@.subrange(32, 64));
    assert(data@.subrange(68, 100) =~= args@.subrange(64, 96));
    data
}

/// The first check that a log fails as an event with this first topic, topic count and word count.
fn check_event(log: &Log, topic0: &B256, topics: usize, words: usize) -> (r: Option<DecodeError>)
    requires
        0 < topics,
        words <= 4,
    ensures
        r == event_error(log@, topic0@, topics as nat, words as nat),
{
    if log.topics.len() != topics {
        return Some(DecodeError::TopicCount);
    }
    assert(log@.topics[0] == log.topics@[0]@);
    if !bytes_equal(&log.topics[0], topic0) {
        return Some(DecodeError::Signature);
    }
    if log.data.len() < 32 * words {
        return Some(DecodeError::DataTooShort);
    }
    None
}

/// Decodes a transfer event with this first topic.
pub fn decode_transfer_under(log: &Log, topic0: &B256) -> (r: Result<Transfer, DecodeError>)
    ensures
        match r {
            Ok(t) => Ok::<(Seq<u8>, Seq<u8>, Seq<u8>), DecodeError>((t.from@, t.to@, t.value@)),
            Err(e) => Err::<(Seq<u8>, Seq<u8>, Seq<u8>), DecodeError>(e),
        } == transfer_under(log@, topic0@),
{
    match check_event(log, topic0, 3, 1) {
        Some(e) => Err(e),
        None => Ok(
            Transfer {
                from: read_address(&log.topics[1]),
                to: read_address(&log.topics[2]),
                value: read_word(&log.data, 0),
            },
        ),
    }
}

/// Decodes a transfer event.
pub fn decode_transfer(log: &Log) -> (r: Result<Transfer, DecodeError>)
    ensures
        match r {
            Ok(t) => Ok::<(Seq<u8>, Seq<u8>, Seq<u8>), DecodeError>((t.from@, t.to@, t.value@)),
            Err(e) => Err::<(Seq<u8>, Seq<u8>, Seq<u8>), DecodeError>(e),
        } == transfer_of(log@),
{
    decode_transfer_under(log, &signature_hash("Transfer(address,address,uint256)"))
}

/// Decodes an acknowledgement of a hedge order with this first topic.
pub fn decode_order_placed_under(log: &Log, topic0: &B256) -> (r: Result<OrderPlaced, DecodeError>)
    ensures
        match r {
            Ok(o) => Ok::<(Seq<u8>, Seq<u8>, Seq<u8>), DecodeError>(
                (o.order_id@, o.asset@, o.size@),
            ),
            Err(e) => Err::<(Seq<u8>, Seq<u8>, Seq<u8>), DecodeError>(e),
        } == order_placed_under(log@, topic0@),
{
    match check_event(log, topic0, 3, 1) {
        Some(e) => Err(e),
        None => Ok(
            OrderPlaced {
                order_id: log.topics[1],
                asset: read_address(&log.topics[2]),
                size: read_word(&log.data, 0),
            },
        ),
    }
}

/// Decodes an acknowledgement of a hedge order.
pub fn decode_order_placed(log: &Log) -> (r: Result<OrderPlaced, DecodeError>)
    ensures
        match r {
            Ok(o) => Ok::<(Seq<u8>, Seq<u8>, Seq<u8>), DecodeError>(
                (o.order_id@, o.asset@, o.size@),
            ),
            Err(e) => Err::<(Seq<u8>, Seq<u8>, Seq<u8>), DecodeError>(e),
        } == order_placed_of(log@),
{
    decode_order_placed_under(log, &signature_hash("OrderPlaced(bytes32,address,uint256)"))
}

/// Decodes an intent event with this first topic.
pub fn decode_payment_intent_under(log: &Log, topic0: &B256) -> (r: Result<
    PaymentIntent,
    DecodeError,
>)
    ensures
        match r {
            Ok(intent) => Ok::<IntentView, DecodeError>(intent@),
            Err(e) => Err::<IntentView, DecodeError>(e),
        } == payment_intent_under(log@, topic0@),
{
    match check_event(log, topic0, 4, 4) {
        Some(e) => Err(e),
        None => Ok(
            PaymentIntent {
                intent_id: log.topics[1],
                payer: read_address(&log.topics[2]),
                merchant: read_address(&log.topics[3]),
                settlement_asset: read_address(&read_word(&log.data, 0)),
                settlement_amount: read_word(&log.data, 1),
                max_slippage_bps: u16_from_word(&read_word(&log.data, 2)),
                deadline: u64_from_word(&read_word(&log.data, 3)),
            },
        ),
    }
}

/// Decodes an intent event.
pub fn decode_payment_intent(log: &Log) -> (r: Result<PaymentIntent, DecodeError>)
    ensures
        match r {
            Ok(intent) => Ok::<IntentView, DecodeError>(intent@),
            Err(e) => Err::<IntentView, DecodeError>(e),
        } == payment_intent_of(log@),
{
    decode_payment_intent_under(
        log,
        &signature_hash("PaymentIntent(bytes32,address,address,address,uint256,uint16,uint64)"),
    )
}

/// Decodes a trade event with this first topic.
pub fn decode_fill_under(log: &Log, topic0: &B256) -> (r: Result<Fill, DecodeError>)
    ensures
        match r {
            Ok(fill) => Ok::<FillView, DecodeError>(fill@),
            Err(e) => Err::<FillView, DecodeError>(e),
        } == fill_under(log@, topic0@),
{
    match check_event(log, topic0, 4, 4) {
        Some(e) => Err(e),
        None => Ok(
            Fill {
                trader: read_address(&log.topics[1]),
                order_id: log.topics[2],
                asset: read_address(&log.topics[3]),
                is_buy: read_bool(&read_word(&log.data, 0)),
                price_e8: u64_from_word(&read_word(&log.data, 1)),
                size_e8: u64_from_word(&read_word(&log.data, 2)),
                timestamp: u64_from_word(&read_word(&log.data, 3)),
            },
        ),
    }
}

/// Decodes a trade event.
pub fn decode_fill(log: &Log) -> (r: Result<Fill, DecodeError>)
    ensures
        match r {
            Ok(fill) => Ok::<FillView, DecodeError>(fill@),
            Err(e) => Err::<FillView, DecodeError>(e),
        } == fill_of(log@),
{
    decode_fill_under(
        log,
        &signature_hash("Fill(address,bytes32,address,bool,uint64,uint64,uint64)"),
    )
}

/// The arguments of a hedge order read back: twelve zero bytes and the asset, the whole size, and a
/// word whose value is the slippage.
pub proof fn lemma_place_short_args_read_back(asset: Seq<u8>, size: Seq<u8>, max_slippage_bps: nat)
    requires
        asset.len() == 20,
        size.len() == 32,
        max_slippage_bps <= u16::MAX,
    ensures
        place_short_args(asset, size, max_slippage_bps).len() == 96,
        place_short_args(asset, size, max_slippage_bps).subrange(0, 12) == Seq::new(
            12,
            |i: int| 0u8,
        ),
        place_short_args(asset, size, max_slippage_bps).subrange(12, 32) == asset,
        place_short_args(asset, size, max_slippage_bps).subrange(32, 64) == size,
        primitives::be_value(place_short_args(asset, size, max_slippage_bps).subrange(64, 96))
            == max_slippage_bps,
{
    let args = place_short_args(asset, size, max_slippage_bps);
    let word = number_word(max_slippage_bps);
    lemma_capacities();
    lemma_number_word_round_trip(max_slippage_bps, 2);
    lemma_number_word_value(max_slippage_bps);
    assert(args.subrange(0, 12) =~= Seq::new(12, |i: int| 0u8));
    assert(args.subrange(12, 32) =~= asset);
    assert(args.subrange(32, 64) =~= size);
    assert(args.subrange(64, 96) =~= word);
}

proof fn lemma_number_word_value(value: nat)
    requires
        value <= u64::MAX,
    ensures
        primitives::be_value(number_word(value)) == value,
{
    reveal_with_fuel(primitives::byte_capacity, 33);
    primitives::lemma_be_round_trip(value, 32);
}

/// The calldata of a hedge order is the selector of `placeShort(address,uint256,uint16)` and the
/// arguments, each of which reads back whole from its place.
pub proof fn lemma_place_short_data_reads_back(asset: Seq<u8>, size: Seq<u8>, max_slippage_bps: nat)
    requires
        asset.len() == 20,
        size.len() == 32,
        max_slippage_bps <= u16::MAX,
    ensures
        place_short_data(asset, size, max_slippage_bps) == keccak::keccak256_of(
            vstd::utf8::encode_utf8("placeShort(address,uint256,uint16)"@),
        ).subrange(0, 4) + place_short_args(asset, size, max_slippage_bps),
        keccak::keccak256_of(
            vstd::utf8::encode_utf8("placeShort(address,uint256,uint16)"@),
        ).len() == 32 ==> {
            let data = place_short_data(asset, size, max_slippage_bps);
            &&& data.len() == 100
            &&& data.subrange(4, 16) == Seq::new(12, |i: int| 0u8)
            &&& data.subrange(16, 36) == asset
            &&& data.subrange(36, 68) == size
            &&& primitives::be_value(data.subrange(68, 100)) == max_slippage_bps
            &&& word_at(data.skip(4), 1) == size
        },
{
    let data = place_short_data(asset, size, max_slippage_bps);
    let args = place_short_args(asset, size, max_slippage_bps);
    lemma_place_short_args_read_back(asset, size, max_slippage_bps);
    if data.len() == 100 {
        assert(data.subrange(4, 16) =~= args.subrange(0, 12));
        assert(data.subrange(16, 36) =~= args.subrange(12, 32));
        assert(data.subrange(36, 68) =~= args.subrange(32, 64));
        assert(data.subrange(68, 100) =~= args.subrange(64, 96));
        assert(word_at(data.skip(4), 1) =~= data.subrange(36, 68));
    }
}

/// Two hedge orders share their arguments only where asset, size and slippage agree.
pub proof fn lemma_hedge_orders_differ(
    asset: Seq<u8>,
    size: Seq<u8>,
    max_slippage_bps: nat,
    other_asset: Seq<u8>,
    other_size: Seq<u8>,
    other_slippage_bps: nat,
)
    requires
        asset.len() == 20 && other_asset.len() == 20,
        size.len() == 32 && other_size.len() == 32,
        max_slippage_bps <= u16::MAX && other_slippage_bps <= u16::MAX,
    ensures
        place_short_args(asset, size, max_slippage_bps) == place_short_args(
            other_asset,
            other_size,
            other_slippage_bps,
        ) <==> asset == other_asset && size == other_size && max_slippage_bps
            == other_slippage_bps,
        place_short_data(asset, size, max_slippage_bps) == place_short_data(
            other_asset,
            other_size,
            other_slippage_bps,
        ) <==> asset == other_asset && size == other_size && max_slippage_bps
            == other_slippage_bps,
{
    lemma_place_short_args_read_back(asset, size, max_slippage_bps);
    lemma_place_short_args_read_back(other_asset, other_size, other_slippage_bps);
    let data = place_short_data(asset, size, max_slippage_bps);
    let other = place_short_data(other_asset, other_size, other_slippage_bps);
    let n = keccak::selector_of(place_short_signature()).len() as int;
    assert(data.skip(n) =~= place_short_args(asset, size, max_slippage_bps));
    assert(other.skip(n) =~= place_short_args(other_asset, other_size, other_slippage_bps));
}

/// The arguments of a spot transfer read back: twelve zero bytes and the recipient, and the whole
/// amount. Two transfers share their arguments only where both agree.
pub proof fn lemma_transfer_args_read_back(
    to: Seq<u8>,
    amount: Seq<u8>,
    other_to: Seq<u8>,
    other_amount: Seq<u8>,
)
    requires
        to.len() == 20 && other_to.len() == 20,
        amount.len() == 32 && other_amount.len() == 32,
    ensures
        transfer_args(to, amount).len() == 64,
        transfer_args(to, amount).subrange(0, 12) == Seq::new(12, |i: int| 0u8),
        transfer_args(to, amount).subrange(12, 32) == to,
        transfer_args(to, amount).subrange(32, 64) == amount,
        transfer_args(to, amount) == transfer_args(other_to, other_amount) <==> to == other_to
            && amount == other_amount,
        transfer_data(to, amount) == keccak::keccak256_of(
            vstd::utf8::encode_utf8("transfer(address,uint256)"@),
        ).subrange(0, 4) + transfer_args(to, amount),
{
    let args = transfer_args(to, amount);
    let other = transfer_args(other_to, other_amount);
    assert(args.subrange(0, 12) =~= Seq::new(12, |i: int| 0u8));
    assert(args.subrange(12, 32) =~= to);
    assert(args.subrange(32, 64) =~= amount);
    assert(other.subrange(12, 32) =~= other_to);
    assert(other.subrange(32, 64) =~= other_amount);
}

/// A log is a transfer exactly where it has three topics, of which the first is the hash of the
/// event, and a word of data; sender and recipient are the low twenty bytes of the other topics.
pub proof fn lemma_transfers_are_read_from_the_log(log: LogView)
    ensures
        transfer_of(log) is Ok <==> log.topics.len() == 3 && log.topics[0] == keccak::keccak256_of(
            vstd::utf8::encode_utf8("Transfer(address,address,uint256)"@),
        ) && log.data.len() >= 32,
        transfer_of(log) matches Ok(t) ==> t == (
            log.topics[1].subrange(12, 32),
            log.topics[2].subrange(12, 32),
            log.data.subrange(0, 32),
        ),
{
}

/// A log is the acknowledgement of an order exactly where it has three topics, of which the first
/// is the hash of the event, and a word of data; the asset is the low twenty bytes of the last topic.
pub proof fn lemma_orders_are_read_from_the_log(log: LogView)
    ensures
        order_placed_of(log) is Ok <==> log.topics.len() == 3 && log.topics[0]
            == keccak::keccak256_of(
            vstd::utf8::encode_utf8("OrderPlaced(bytes32,address,uint256)"@),
        ) && log.data.len() >= 32,
        order_placed_of(log) matches Ok(o) ==> o == (
            log.topics[1],
            log.topics[2].subrange(12, 32),
            log.data.subrange(0, 32),
        ),
{
}

/// A log is an intent exactly where it has four topics, of which the first is the hash of the event,
/// and four words of data. Every field is read from its own topic or word: addresses from the low
/// twenty bytes, amounts whole, slippage and deadline from the low two and eight bytes.
pub proof fn lemma_intents_are_read_from_the_log(log: LogView)
    ensures
        payment_intent_of(log) is Ok <==> log.topics.len() == 4 && log.topics[0]
            == keccak::keccak256_of(
            vstd::utf8::encode_utf8(
                "PaymentIntent(bytes32,address,address,address,uint256,uint16,uint64)"@,
            ),
        ) && log.data.len() >= 128,
        payment_intent_of(log) matches Ok(intent) ==> {
            &&& intent.intent_id == log.topics[1]
            &&& intent.payer == log.topics[2].subrange(12, 32)
            &&& intent.merchant == log.topics[3].subrange(12, 32)
            &&& intent.settlement_asset == log.data.subrange(12, 32)
            &&& intent.settlement_amount == log.data.subrange(32, 64)
            &&& intent.max_slippage_bps == primitives::be_value(log.data.subrange(94, 96))
            &&& intent.deadline == primitives::be_value(log.data.subrange(120, 128))
        },
{
    if log.data.len() >= 128 {
        assert(word_address(word_at(log.data, 0)) =~= log.data.subrange(12, 32));
        assert(word_at(log.data, 2).subrange(30, 32) =~= log.data.subrange(94, 96));
        assert(word_at(log.data, 3).subrange(24, 32) =~= log.data.subrange(120, 128));
    }
}

/// A log is a trade exactly where it has four topics, of which the first is the hash of the event,
/// and four words of data. Every field is read from its own topic or word: addresses from the low
/// twenty bytes, price, size and time from the low eight, and a buy is a word that is not zero.
pub proof fn lemma_fills_are_read_from_the_log(log: LogView)
    ensures
        fill_of(log) is Ok <==> log.topics.len() == 4 && log.topics[0] == keccak::keccak256_of(
            vstd::utf8::encode_utf8("Fill(address,bytes32,address,bool,uint64,uint64,uint64)"@),
        ) && log.data.len() >= 128,
        fill_of(log) matches Ok(fill) ==> {
            &&& fill.trader == log.topics[1].subrange(12, 32)
            &&& fill.order_id == log.topics[2]
            &&& fill.asset == log.topics[3].subrange(12, 32)
            &&& fill.is_buy <==> exists|i: int| 0 <= i < 32 && #[trigger] log.data[i] != 0
            &&& fill.price_e8 == primitives::be_value(log.data.subrange(56, 64))
            &&& fill.size_e8 == primitives::be_value(log.data.subrange(88, 96))
            &&& fill.timestamp == primitives::be_value(log.data.subrange(120, 128))
        },
{
    if log.data.len() >= 128 {
        let word = word_at(log.data, 0);
        assert(forall|i: int| 0 <= i < 32 ==> #[trigger] log.data[i] == word[i]);
        assert(forall|i: int| 0 <= i < 32 ==> #[trigger] word[i] == log.data[i]);
        assert(word_at(log.data, 1).subrange(24, 32) =~= log.data.subrange(56, 64));
        assert(word_at(log.data, 2).subrange(24, 32) =~= log.data.subrange(88, 96));
        assert(word_at(log.data, 3).subrange(24, 32) =~= log.data.subrange(120, 128));
    }
}

/// Under any first topic a log is the event exactly where it has that topic first, as many topics as
/// the event and as many words of data; what it says is the same under every one.
pub proof fn lemma_events_are_read_under_their_topic(log: LogView, topic0: Seq<u8>)
    ensures
        transfer_under(log, topic0) is Ok <==> log.topics.len() == 3 && log.topics[0] == topic0
            && log.data.len() >= 32,
        order_placed_under(log, topic0) is Ok <==> log.topics.len() == 3 && log.topics[0] == topic0
            && log.data.len() >= 32,
        payment_intent_under(log, topic0) is Ok <==> log.topics.len() == 4 && log.topics[0]
            == topic0 && log.data.len() >= 128,
        fill_under(log, topic0) is Ok <==> log.topics.len() == 4 && log.topics[0] == topic0
            && log.data.len() >= 128,
        transfer_under(log, topic0) matches Ok(t) ==> t == (
            log.topics[1].subrange(12, 32),
            log.topics[2].subrange(12, 32),
            log.data.subrange(0, 32),
        ),
        order_placed_under(log, topic0) matches Ok(o) ==> o == (
            log.topics[1],
            log.topics[2].subrange(12, 32),
            log.data.subrange(0, 32),
        ),
        payment_intent_under(log, topic0) matches Ok(intent) ==> intent.intent_id == log.topics[1]
            && intent.payer == log.topics[2].subrange(12, 32) && intent.merchant
            == log.topics[3].subrange(12, 32) && intent.settlement_asset == log.data.subrange(12, 32)
            && intent.settlement_amount == log.data.subrange(32, 64) && intent.max_slippage_bps
            == primitives::be_value(log.data.subrange(94, 96)) && intent.deadline
            == primitives::be_value(log.data.subrange(120, 128)),
        fill_under(log, topic0) matches Ok(fill) ==> fill.trader == log.topics[1].subrange(12, 32)
            && fill.order_id == log.topics[2] && fill.asset == log.topics[3].subrange(12, 32)
            && fill.price_e8 == primitives::be_value(log.data.subrange(56, 64)) && fill.size_e8
            == primitives::be_value(log.data.subrange(88, 96)) && fill.timestamp
            == primitives::be_value(log.data.subrange(120, 128)),
{
    if log.data.len() >= 128 {
        assert(word_address(word_at(log.data, 0)) =~= log.data.subrange(12, 32));
        assert(word_at(log.data, 2).subrange(30, 32) =~= log.data.subrange(94, 96));
        assert(word_at(log.data, 1).subrange(24, 32) =~= log.data.subrange(56, 64));
        assert(word_at(log.data, 2).subrange(24, 32) =~= log.data.subrange(88, 96));
        assert(word_at(log.data, 3).subrange(24, 32) =~= log.data.subrange(120, 128));
    }
}

/// What is wrong with a log is the first of three things: how many topics it has, the first of them,
/// and how much data there is.
pub proof fn lemma_logs_fail_in_order(log: LogView)
    ensures
        transfer_of(log) is Err ==> (transfer_of(log)->Err_0 == DecodeError::TopicCount
            <==> log.topics.len() != 3) && (transfer_of(log)->Err_0 == DecodeError::DataTooShort
            <==> log.topics.len() == 3 && log.topics[0] == keccak::keccak256_of(
            vstd::utf8::encode_utf8("Transfer(address,address,uint256)"@),
        )),
        order_placed_of(log) is Err ==> (order_placed_of(log)->Err_0 == DecodeError::TopicCount
            <==> log.topics.len() != 3) && (order_placed_of(log)->Err_0 == DecodeError::DataTooShort
            <==> log.topics.len() == 3 && log.topics[0] == keccak::keccak256_of(
            vstd::utf8::encode_utf8("OrderPlaced(bytes32,address,uint256)"@),
        )),
        payment_intent_of(log) == Err::<IntentView, DecodeError>(DecodeError::TopicCount)
            <==> log.topics.len() != 4,
        payment_intent_of(log) == Err::<IntentView, DecodeError>(DecodeError::Signature)
            <==> log.topics.len() == 4 && log.topics[0] != keccak::keccak256_of(
            vstd::utf8::encode_utf8(
                "PaymentIntent(bytes32,address,address,address,uint256,uint16,uint64)"@,
            ),
        ),
        fill_of(log) == Err::<FillView, DecodeError>(DecodeError::TopicCount) <==> log.topics.len()
            != 4,
        fill_of(log) == Err::<FillView, DecodeError>(DecodeError::Signature) <==> log.topics.len()
            == 4 && log.topics[0] != keccak::keccak256_of(
            vstd::utf8::encode_utf8("Fill(address,bytes32,address,bool,uint64,uint64,uint64)"@),
        ),
{
}

/// The asset of calldata is in its bytes from the seventeenth to the thirty-sixth, and zero where
/// there are not as many; the calldata of every order names its own asset.
pub proof fn lemma_order_asset_is_read_back(data: Seq<u8>)
    ensures
        order_asset(data).len() == 20,
        data.len() >= 36 ==> order_asset(data) == data.subrange(16, 36),
        data.len() < 36 ==> forall|i: int| 0 <= i < 20 ==> #[trigger] order_asset(data)[i] == 0,
{
}

} // verus!
