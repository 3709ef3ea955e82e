use alloy::primitives::B256;
use telos::config::parse_addr;
use telos::text::{hex_encode, hex_prefixed, parse_u64, push_number, text_equal, trim_prefixes};

#[test]
fn hex_is_lower_case_with_leading_zeros() {
    assert_eq!(hex_encode(&[0x00, 0x0f, 0xab, 0xff]), "000fabff");
    assert_eq!(hex_encode(&[]), "");
    assert_eq!(hex_prefixed(&[0x42; 32]), format!("{:#x}", B256::from([0x42; 32])));
}

#[test]
fn numbers_have_no_leading_zeros() {
    for n in [0, 1, 9, 10, 15, 16, 255, 0x7e105, u64::MAX] {
        let mut dec = String::from("n=");
        push_number(&mut dec, n, 10);
        assert_eq!(dec, format!("n={n}"));
        let mut hex = String::new();
        push_number(&mut hex, n, 16);
        assert_eq!(hex, format!("{n:x}"));
    }
}

#[test]
fn decimal_parsing_agrees_with_std() {
    for s in [
        "", "+", "-", "0", "+7", "-7", "007", "12a", " 1", "18446744073709551615",
        "18446744073709551616", "99999999999999999999999", "++1", "\u{0661}",
    ] {
        assert_eq!(parse_u64(s), s.parse::<u64>().ok(), "{s}");
    }
}

#[test]
fn every_leading_prefix_is_trimmed() {
    for s in ["", "0", "0x", "0x0x12", "x0x", "0X12", "12"] {
        assert_eq!(trim_prefixes(s), s.trim_start_matches("0x"), "{s}");
    }
}

#[test]
fn texts_compare() {
    assert!(text_equal("1", "1"));
    assert!(!text_equal("1", "01"));
}

#[test]
fn addresses_parse() {
    let ca = "cA".repeat(20);
    for (s, good) in [
        (ca.clone(), true),
        (format!("0x{ca}"), true),
        (format!("0X{ca}"), true),
        (format!("0x0x{ca}"), false),
        (format!("{ca}0"), false),
        (ca[1..].to_string(), false),
        (format!("g{}", &ca[1..]), false),
        (String::new(), false),
        (format!(" {ca}"), false),
    ] {
        let parsed = parse_addr("VAR", &Some(s.clone()));
        if good {
            assert_eq!(parsed, Ok(Some([0xca; 20])), "{s}");
        } else {
            assert_eq!(parsed.unwrap_err().message(), "VAR must be a hex address", "{s}");
        }
    }
    assert_eq!(parse_addr("VAR", &None), Ok(None));
}

#[test]
fn written_values_read_back() {
    let address = [0x0a; 20];
    assert_eq!(parse_addr("VAR", &Some(hex_prefixed(&address))), Ok(Some(address)));
    assert_eq!(parse_addr("VAR", &Some(hex_encode(&address))), Ok(Some(address)));
    for n in [0, 7, 1_000_000, u64::MAX] {
        let mut s = String::new();
        push_number(&mut s, n, 10);
        assert_eq!(parse_u64(&s), Some(n));
    }
}
