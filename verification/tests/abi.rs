use alloy::primitives::keccak256;
use telos::abi::{
    decode_fill, decode_order_placed, decode_payment_intent, decode_payment_intent_under,
    decode_transfer, encode_place_short, encode_place_short_args, encode_transfer,
    encode_transfer_args, DecodeError,
};
use telos::keccak::{selector, signature_hash};
use telos::primitives::{Address, B256};
use telos::types::{Fill, Log, PaymentIntent};

const INTENT: &str = "PaymentIntent(bytes32,address,address,address,uint256,uint16,uint64)";
const FILL: &str = "Fill(address,bytes32,address,bool,uint64,uint64,uint64)";

fn topic(signature: &str) -> B256 {
    keccak256(signature.as_bytes()).0
}

fn address_word(address: Address) -> B256 {
    let mut word = [0u8; 32];
    word[12..].copy_from_slice(&address);
    word
}

fn number_word(n: u64) -> B256 {
    let mut word = [0u8; 32];
    word[24..].copy_from_slice(&n.to_be_bytes());
    word
}

fn sample_intent() -> PaymentIntent {
    PaymentIntent {
        intent_id: [1; 32],
        payer: [0xbe; 20],
        merchant: [0xfe; 20],
        settlement_asset: [0xca; 20],
        settlement_amount: number_word(1_000_000_000_000_000_000),
        max_slippage_bps: 0x1234,
        deadline: 1_700_000_000,
    }
}

fn intent_log(intent: &PaymentIntent) -> Log {
    Log {
        topics: vec![
            topic(INTENT),
            intent.intent_id,
            address_word(intent.payer),
            address_word(intent.merchant),
        ],
        data: [
            address_word(intent.settlement_asset),
            intent.settlement_amount,
            number_word(intent.max_slippage_bps.into()),
            number_word(intent.deadline),
        ]
        .concat(),
    }
}

fn sample_fill() -> Fill {
    Fill {
        trader: [3; 20],
        order_id: [4; 32],
        asset: [0xca; 20],
        is_buy: true,
        price_e8: 123_456_789,
        size_e8: u64::MAX,
        timestamp: 1_700_000_001,
    }
}

fn fill_log(fill: &Fill) -> Log {
    Log {
        topics: vec![topic(FILL), address_word(fill.trader), fill.order_id, address_word(fill.asset)],
        data: [
            number_word(fill.is_buy.into()),
            number_word(fill.price_e8),
            number_word(fill.size_e8),
            number_word(fill.timestamp),
        ]
        .concat(),
    }
}

#[test]
fn signature_hashes_are_keccak() {
    assert_eq!(signature_hash(INTENT), topic(INTENT));
    assert_eq!(selector("transfer(address,uint256)"), [0xa9, 0x05, 0x9c, 0xbb]);
    assert_eq!(
        signature_hash("Transfer(address,address,uint256)")[..4],
        [0xdd, 0xf2, 0x52, 0xad]
    );
}

#[test]
fn transfer_calldata() {
    let data = encode_transfer(&[0xfe; 20], &number_word(5));
    let mut expected = vec![0xa9, 0x05, 0x9c, 0xbb];
    expected.extend(address_word([0xfe; 20]));
    expected.extend(number_word(5));
    assert_eq!(data, expected);
    assert_eq!(encode_transfer_args(&[0xfe; 20], &number_word(5)), expected[4..]);
}

#[test]
fn place_short_calldata() {
    let data = encode_place_short(&[0xca; 20], &number_word(7), 0x1234);
    let mut expected = keccak256(b"placeShort(address,uint256,uint16)")[..4].to_vec();
    expected.extend(address_word([0xca; 20]));
    expected.extend(number_word(7));
    expected.extend(number_word(0x1234));
    assert_eq!(data, expected);
    assert_eq!(encode_place_short_args(&[0xca; 20], &number_word(7), 0x1234), expected[4..]);
}

#[test]
fn intent_log_round_trip() {
    let intent = sample_intent();
    assert_eq!(decode_payment_intent(&intent_log(&intent)), Ok(intent));
}

#[test]
fn fill_log_round_trip() {
    let fill = sample_fill();
    assert_eq!(decode_fill(&fill_log(&fill)), Ok(fill));
    let sell = Fill { is_buy: false, ..fill };
    assert_eq!(decode_fill(&fill_log(&sell)), Ok(sell));
}

#[test]
fn decode_errors_come_in_order() {
    let log = intent_log(&sample_intent());

    let mut short = log.clone();
    short.data.pop();
    assert_eq!(decode_payment_intent(&short), Err(DecodeError::DataTooShort));

    let mut other = short.clone();
    other.topics[0] = topic(FILL);
    assert_eq!(decode_payment_intent(&other), Err(DecodeError::Signature));

    let mut fewer = other.clone();
    fewer.topics.pop();
    assert_eq!(decode_payment_intent(&fewer), Err(DecodeError::TopicCount));
    let none = Log { topics: vec![], data: vec![] };
    assert_eq!(decode_payment_intent(&none), Err(DecodeError::TopicCount));

    let mut longer = log.clone();
    longer.data.push(9);
    assert_eq!(decode_payment_intent(&longer), Ok(sample_intent()));
}

#[test]
fn only_the_low_bytes_of_a_word_count() {
    let mut log = intent_log(&sample_intent());
    log.data[0] = 0xff;
    log.data[64] = 0xff;
    log.data[96] = 0xff;
    log.topics[2][0] = 0xff;
    assert_eq!(decode_payment_intent(&log), Ok(sample_intent()));
}

#[test]
fn another_first_topic_can_be_asked_for() {
    let mut log = intent_log(&sample_intent());
    assert_eq!(decode_payment_intent_under(&log, &[9; 32]), Err(DecodeError::Signature));
    log.topics[0] = [9; 32];
    assert_eq!(decode_payment_intent_under(&log, &[9; 32]), Ok(sample_intent()));
}

#[test]
fn transfers_and_orders_decode() {
    let log = Log {
        topics: vec![
            topic("Transfer(address,address,uint256)"),
            address_word([1; 20]),
            address_word([2; 20]),
        ],
        data: number_word(9).to_vec(),
    };
    let t = decode_transfer(&log).unwrap();
    assert_eq!((t.from, t.to, t.value), ([1; 20], [2; 20], number_word(9)));
    assert_eq!(decode_order_placed(&log), Err(DecodeError::Signature));

    let log = Log {
        topics: vec![
            topic("OrderPlaced(bytes32,address,uint256)"),
            [5; 32],
            address_word([0xca; 20]),
        ],
        data: number_word(9).to_vec(),
    };
    let o = decode_order_placed(&log).unwrap();
    assert_eq!((o.order_id, o.asset, o.size), ([5; 32], [0xca; 20], number_word(9)));
    assert_eq!(decode_transfer(&log), Err(DecodeError::Signature));
}
