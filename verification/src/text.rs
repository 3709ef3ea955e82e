//! Text that the project reads and writes: hexadecimal, decimal and prefixed forms.
use vstd::prelude::*;
use vstd::string::*;
use crate::primitives::Address;

verus! {

/// `String::push` appends one character.
pub assume_specification[ String::push ](s: &mut String, c: char)
    ensures
        final(s)@ == old(s)@.push(c),
;

/// The character of a digit below sixteen, in lower case.
pub open spec fn digit_char(d: nat) -> char {
    if d < 10 {
        (48 + d) as char
    } else {
        (87 + d) as char
    }
}

/// The value of a hexadecimal digit in either case.
pub open spec fn digit_value(c: char) -> Option<nat> {
    let n = c as nat;
    if 48 <= n <= 57 {
        Some((n - 48) as nat)
    } else if 97 <= n <= 102 {
        Some((n - 87) as nat)
    } else if 65 <= n <= 70 {
        Some((n - 55) as nat)
    } else {
        None
    }
}

/// Two lower-case hexadecimal digits for each byte.
pub open spec fn hex_text(bytes: Seq<u8>) -> Seq<char> {
    Seq::new(
        2 * bytes.len(),
        |i: int|
            digit_char(
                if i % 2 == 0 {
                    bytes[i / 2] as nat / 16
                } else {
                    bytes[i / 2] as nat % 16
                },
            ),
    )
}

/// The bytes that a text of hexadecimal digits spells, or `None` where it spells none.
pub open spec fn hex_bytes(text: Seq<char>) -> Option<Seq<u8>> {
    if text.len() % 2 == 0 && (forall|i: int|
        0 <= i < text.len() ==> digit_value(#[trigger] text[i]) is Some) {
        Some(
            Seq::new(
                text.len() / 2,
                |i: int|
                    (16 * digit_value(text[2 * i])->0 + digit_value(text[2 * i + 1])->0) as u8,
            ),
        )
    } else {
        None
    }
}

/// `bytes` in hexadecimal with the `0x` prefix.
pub open spec fn prefixed_hex(bytes: Seq<u8>) -> Seq<char> {
    seq!['0', 'x'] + hex_text(bytes)
}

/// The digits of `n` in base `base`, without leading zeros.
pub open spec fn number_text(n: nat, base: nat) -> Seq<char>
    decreases n,
{
    if n < base || base < 2 {
        seq![digit_char(n)]
    } else {
        proof {
            assert(n / base < n) by (nonlinear_arith)
                requires
                    n >= base,
                    base >= 2,
            ;
        }
        number_text(n / base, base).push(digit_char(n % base))
    }
}

/// The number that a text of digits spells in base `base`.
pub open spec fn number_value(text: Seq<char>, base: nat) -> nat
    decreases text.len(),
{
    if text.len() == 0 {
        0
    } else {
        number_value(text.drop_last(), base) * base + digit_value(text.last())->0
    }
}

/// Whether a text holds decimal digits alone.
pub open spec fn all_decimal(text: Seq<char>) -> bool {
    forall|i: int| 0 <= i < text.len() ==> 48 <= #[trigger] text[i] as nat <= 57
}

/// The `u64` that a text spells in decimal: an optional `+`, then at least one digit.
pub open spec fn parsed_u64(text: Seq<char>) -> Option<u64> {
    let digits = if text.len() > 0 && text[0] == '+' {
        text.skip(1)
    } else {
        text
    };
    if digits.len() > 0 && all_decimal(digits) && number_value(digits, 10) <= u64::MAX {
        Some(number_value(digits, 10) as u64)
    } else {
        None
    }
}

/// `text` without one leading `0x` or `0X`, where it has one.
pub open spec fn without_prefix(text: Seq<char>) -> Seq<char> {
    if text.len() >= 2 && text[0] == '0' && (text[1] == 'x' || text[1] == 'X') {
        text.skip(2)
    } else {
        text
    }
}

/// `text` without any leading run of `0x`.
pub open spec fn without_prefixes(text: Seq<char>) -> Seq<char>
    decreases text.len(),
{
    if text.len() >= 2 && text[0] == '0' && text[1] == 'x' {
        without_prefixes(text.skip(2))
    } else {
        text
    }
}

/// The address that a text spells: forty hexadecimal digits, with or without one `0x` or `0X`.
pub open spec fn parsed_address(text: Seq<char>) -> Option<Seq<u8>> {
    if without_prefix(text).len() == 40 {
        hex_bytes(without_prefix(text))
    } else {
        None
    }
}

/// Each digit below sixteen reads back as itself.
pub proof fn lemma_digit_round_trip(d: nat)
    requires
        d < 16,
    ensures
        digit_value(digit_char(d)) == Some(d),
{
}

/// Decoding the hexadecimal text of some bytes gives the bytes: two different byte strings
/// never share a text.
pub proof fn lemma_hex_round_trip(bytes: Seq<u8>)
    ensures
        hex_text(bytes).len() == 2 * bytes.len(),
        hex_bytes(hex_text(bytes)) == Some(bytes),
{
    let text = hex_text(bytes);
    assert forall|i: int| 0 <= i < text.len() implies digit_value(#[trigger] text[i]) is Some by {
        if i % 2 == 0 {
            lemma_digit_round_trip(bytes[i / 2] as nat / 16);
        } else {
            lemma_digit_round_trip(bytes[i / 2] as nat % 16);
        }
    }
    assert forall|i: int| 0 <= i < bytes.len() implies #[trigger] hex_bytes(text)->0[i]
        == bytes[i] by {
        lemma_digit_round_trip(bytes[i] as nat / 16);
        lemma_digit_round_trip(bytes[i] as nat % 16);
        assert((2 * i) / 2 == i && (2 * i) % 2 == 0);
        assert((2 * i + 1) / 2 == i && (2 * i + 1) % 2 == 1);
    }
    assert(hex_bytes(text)->0 =~= bytes);
}

/// An address written in hexadecimal, with or without `0x`, parses back to itself.
pub proof fn lemma_address_text_round_trip(address: Seq<u8>)
    requires
        address.len() == 20,
    ensures
        parsed_address(hex_text(address)) == Some(address),
        parsed_address(prefixed_hex(address)) == Some(address),
{
    lemma_hex_round_trip(address);
    assert(hex_text(address).len() == 40);
    let text = hex_text(address);
    assert(text[1] != 'x' && text[1] != 'X') by {
        lemma_digit_round_trip(address[0] as nat % 16);
        assert(text[1] == digit_char(address[0] as nat % 16));
    }
    assert(prefixed_hex(address).skip(2) =~= text);
}

/// The digits of a number, read back in the same base, give the number.
pub proof fn lemma_number_round_trip(n: nat, base: nat)
    requires
        2 <= base <= 16,
    ensures
        number_value(number_text(n, base), base) == n,
    decreases n,
{
    if n < base {
        lemma_digit_round_trip(n);
        let t = number_text(n, base);
        assert(t.drop_last() =~= Seq::<char>::empty());
        assert(number_value(t.drop_last(), base) == 0);
        assert(0 * base == 0);
    } else {
        assert(n / base < n) by (nonlinear_arith)
            requires
                n >= base,
                base >= 2,
        ;
        lemma_number_round_trip(n / base, base);
        lemma_digit_round_trip(n % base);
        let head = number_text(n / base, base);
        assert(number_text(n, base).drop_last() =~= head);
        assert((n / base) * base + n % base == n) by (nonlinear_arith)
            requires
                base >= 2,
        ;
    }
}

/// The decimal digits of any `u64` parse back to it.
pub proof fn lemma_decimal_parse_round_trip(n: u64)
    ensures
        parsed_u64(number_text(n as nat, 10)) == Some(n),
{
    lemma_number_round_trip(n as nat, 10);
    lemma_decimal_digits(n as nat);
}

proof fn lemma_decimal_digits(n: nat)
    ensures
        number_text(n, 10).len() > 0,
        all_decimal(number_text(n, 10)),
    decreases n,
{
    if n >= 10 {
        lemma_decimal_digits(n / 10);
    }
}

/// The character of a digit below sixteen.
pub fn digit(d: u8) -> (c: char)
    requires
        d < 16,
    ensures
        c == digit_char(d as nat),
{
    if d < 10 {
        (48 + d) as char
    } else {
        (87 + d) as char
    }
}

/// Two lower-case hexadecimal digits for each byte, without a prefix.
pub fn hex_encode(bytes: &[u8]) -> (s: String)
    ensures
        s@ == hex_text(bytes@),
{
    let mut s: String = String::new();
    let mut i: usize = 0;
    while i < bytes.len()
        invariant
            i <= bytes@.len(),
            s@ == hex_text(bytes@.take(i as int)),
        decreases bytes@.len() - i,
    {
        let b: u8 = bytes[i];
        s.push(digit(b / 16));
        s.push(digit(b % 16));
        proof {
            let next = bytes@.take(i + 1);
            let prev = bytes@.take(i as int);
            assert forall|k: int| 0 <= k < 2 * i implies hex_text(next)[k] == hex_text(prev)[k] by {
                assert(next[k / 2] == prev[k / 2]);
            }
            assert((2 * i) / 2 == i && (2 * i) % 2 == 0);
            assert((2 * i + 1) / 2 == i && (2 * i + 1) % 2 == 1);
            assert(s@ =~= hex_text(next));
        }
        i += 1;
    }
    assert(bytes@.take(i as int) =~= bytes@);
    s
}

/// `bytes` in hexadecimal with the `0x` prefix.
pub fn hex_prefixed(bytes: &[u8]) -> (s: String)
    ensures
        s@ == prefixed_hex(bytes@),
{
    let mut s: String = String::new();
    s.push('0');
    s.push('x');
    s.append(hex_encode(bytes).as_str());
    assert(s@ =~= prefixed_hex(bytes@));
    s
}

/// Appends the digits of `n` in base `base`, without leading zeros.
pub fn push_number(s: &mut String, n: u64, base: u64)
    requires
        2 <= base <= 16,
    ensures
        final(s)@ == old(s)@ + number_text(n as nat, base as nat),
    decreases n,
{
    if n >= base {
        assert(n / base < n) by (nonlinear_arith)
            requires
                n >= base,
                base >= 2,
        ;
        push_number(s, n / base, base);
    }
    let d: u64 = n % base;
    assert(n < base ==> n % base == n) by (nonlinear_arith)
        requires
            base >= 2,
    ;
    s.push(digit(d as u8));
    proof {
        assert(s@ =~= old(s)@ + number_text(n as nat, base as nat));
    }
}

/// Whether two texts are the same.
pub fn text_equal(a: &str, b: &str) -> (r: bool)
    ensures
        r == (a@ == b@),
{
    let a: String = String::from_str(a);
    let b: String = String::from_str(b);
    a == b
}

/// Reads a `u64` in decimal.
pub fn parse_u64(text: &str) -> (r: Option<u64>)
    ensures
        r == parsed_u64(text@),
{
    let len: usize = text.unicode_len();
    let start: usize = if len > 0 && text.get_char(0) == '+' {
        1
    } else {
        0
    };
    let ghost digits = text@.skip(start as int);
    assert(text@.skip(0) =~= text@);
    if start == len {
        return None;
    }
    let mut value: u64 = 0;
    let mut i: usize = start;
    while i < len
        invariant
            start <= i <= len,
            len == text@.len(),
            start < len,
            digits == text@.skip(start as int),
            parsed_u64(text@) == (if digits.len() > 0 && all_decimal(digits) && number_value(
                digits,
                10,
            ) <= u64::MAX {
                Some(number_value(digits, 10) as u64)
            } else {
                None
            }),
            all_decimal(digits.take(i - start)),
            value as nat == number_value(digits.take(i - start), 10),
        decreases len - i,
    {
        let c: char = text.get_char(i);
        assert(c == digits[i - start]);
        let code: u32 = c as u32;
        if code < 48 || code > 57 {
            return None;
        }
        let d: u64 = (code - 48) as u64;
        let ghost shorter = digits.take(i - start);
        let ghost longer = digits.take(i + 1 - start);
        assert(longer.drop_last() =~= shorter);
        assert(number_value(longer, 10) == value * 10 + d);
        if value > (u64::MAX - d) / 10 {
            proof {
                lemma_number_value_grows(digits, i + 1 - start, 10);
            }
            return None;
        }
        value = value * 10 + d;
        i += 1;
    }
    assert(digits.take(i - start) =~= digits);
    Some(value)
}

proof fn lemma_number_value_grows(text: Seq<char>, n: int, base: nat)
    requires
        0 <= n <= text.len(),
        base >= 1,
    ensures
        number_value(text.take(n), base) <= number_value(text, base),
    decreases text.len() - n,
{
    if n == text.len() {
        assert(text.take(n) =~= text);
    } else {
        lemma_number_value_grows(text, n + 1, base);
        assert(text.take(n + 1).drop_last() =~= text.take(n));
        let v = number_value(text.take(n), base);
        assert(v * base >= v) by (nonlinear_arith)
            requires
                base >= 1,
        ;
    }
}

/// `text` without any leading run of `0x`.
pub fn trim_prefixes(text: &str) -> (r: String)
    ensures
        r@ == without_prefixes(text@),
{
    let len: usize = text.unicode_len();
    let mut i: usize = 0;
    assert(text@.skip(0) =~= text@);
    while len - i >= 2 && text.get_char(i) == '0' && text.get_char(i + 1) == 'x'
        invariant
            i <= len,
            len == text@.len(),
            without_prefixes(text@) == without_prefixes(text@.skip(i as int)),
        decreases len - i,
    {
        assert(text@.skip(i as int).skip(2) =~= text@.skip(i + 2));
        i += 2;
    }
    let rest: &str = text.substring_char(i, len);
    assert(rest@ =~= text@.skip(i as int));
    String::from_str(rest)
}

/// Parses an address with `Address::from_str` of alloy.
///
/// The text may start with one `0x` or `0X`; forty hexadecimal digits in either case must follow, and
/// nothing else. No checksum is asked of mixed case.
#[verifier::external_body]
pub(crate) fn parse_address(text: &str) -> (r: Option<Address>)
    ensures
        match r {
            Some(address) => parsed_address(text@) == Some(address@),
            None => parsed_address(text@) is None,
        },
{
    text.parse::<alloy::primitives::Address>().ok().map(|address| address.into_array())
}

/// Each byte is written as its high digit and then its low digit, the digits from ten on as the
/// letters from `a` on; the prefix is `0x` and nothing else comes before or after.
pub proof fn lemma_hex_digits(bytes: Seq<u8>, i: int)
    requires
        0 <= i < bytes.len(),
    ensures
        prefixed_hex(bytes).len() == 2 + 2 * bytes.len(),
        prefixed_hex(bytes)[0] == '0' && prefixed_hex(bytes)[1] == 'x',
        prefixed_hex(bytes).skip(2) == hex_text(bytes),
        bytes[i] / 16 < 10 ==> hex_text(bytes)[2 * i] as nat == 48 + bytes[i] / 16,
        bytes[i] / 16 >= 10 ==> hex_text(bytes)[2 * i] as nat == 87 + bytes[i] / 16,
        bytes[i] % 16 < 10 ==> hex_text(bytes)[2 * i + 1] as nat == 48 + bytes[i] % 16,
        bytes[i] % 16 >= 10 ==> hex_text(bytes)[2 * i + 1] as nat == 87 + bytes[i] % 16,
{
    assert((2 * i) / 2 == i && (2 * i) % 2 == 0);
    assert((2 * i + 1) / 2 == i && (2 * i + 1) % 2 == 1);
    assert(prefixed_hex(bytes).skip(2) =~= hex_text(bytes));
}

/// The digits are `0` to `9` and the letters `a` to `f` in either case, each with its usual value,
/// and no other character is one.
pub proof fn lemma_digit_values(c: char)
    ensures
        '0' <= c <= '9' ==> digit_value(c) == Some((c as nat - 48) as nat),
        'a' <= c <= 'f' ==> digit_value(c) == Some((c as nat - 97 + 10) as nat),
        'A' <= c <= 'F' ==> digit_value(c) == Some((c as nat - 65 + 10) as nat),
        digit_value(c) is Some <==> '0' <= c <= '9' || 'a' <= c <= 'f' || 'A' <= c <= 'F',
{
}

/// One more digit multiplies what came before it by the base and adds itself.
pub proof fn lemma_one_more_digit(text: Seq<char>, c: char, base: nat)
    requires
        digit_value(c) is Some,
    ensures
        number_value(Seq::empty(), base) == 0,
        number_value(text.push(c), base) == number_value(text, base) * base + digit_value(c)->0,
{
    assert(text.push(c).drop_last() =~= text);
}

/// A number is written with digits below the base, in lower case, without a leading zero, and reads
/// back as itself.
pub proof fn lemma_numbers_have_one_text(n: nat, base: nat)
    requires
        2 <= base <= 16,
    ensures
        number_text(n, base).len() > 0,
        number_text(n, base)[0] == '0' <==> n == 0,
        n == 0 ==> number_text(n, base).len() == 1,
        forall|i: int|
            0 <= i < number_text(n, base).len() ==> {
                let c = #[trigger] number_text(n, base)[i];
                ('0' <= c <= '9' || 'a' <= c <= 'f') && digit_value(c)->0 < base
            },
        number_value(number_text(n, base), base) == n,
    decreases n,
{
    lemma_number_round_trip(n, base);
    if n >= base {
        assert(n / base < n && n / base > 0) by (nonlinear_arith)
            requires
                n >= base,
                base >= 2,
        ;
        assert(n % base < base) by (nonlinear_arith)
            requires
                base >= 2,
        ;
        lemma_numbers_have_one_text(n / base, base);
        let head = number_text(n / base, base);
        assert forall|i: int| 0 <= i < number_text(n, base).len() implies {
            let c = #[trigger] number_text(n, base)[i];
            ('0' <= c <= '9' || 'a' <= c <= 'f') && digit_value(c)->0 < base
        } by {
            if i < head.len() {
                assert(number_text(n, base)[i] == head[i]);
            } else {
                lemma_digit_round_trip(n % base);
            }
        }
        assert(number_text(n, base)[0] == head[0]);
    } else {
        lemma_digit_round_trip(n);
    }
}

/// A text is a decimal number exactly where it has at least one digit, and digits alone, after one
/// sign `+` that may be left out, and where its value fits; the value is that of its digits.
pub proof fn lemma_decimal_texts(digits: Seq<char>)
    requires
        digits.len() == 0 || digits[0] != '+',
    ensures
        parsed_u64(digits) == parsed_u64(seq!['+'] + digits),
        parsed_u64(digits) is Some <==> {
            &&& digits.len() > 0
            &&& forall|i: int| 0 <= i < digits.len() ==> 48 <= #[trigger] digits[i] as nat <= 57
            &&& number_value(digits, 10) <= 0xffff_ffff_ffff_ffff
        },
        parsed_u64(digits) matches Some(n) ==> n as nat == number_value(digits, 10),
        parsed_u64(seq!['+', '+'] + digits) is None,
{
    assert((seq!['+'] + digits).skip(1) =~= digits);
    let twice = seq!['+', '+'] + digits;
    assert(twice.skip(1)[0] == '+');
}

/// What is left of a text once its prefixes are taken off is an end of the text that starts with no
/// prefix, and what was taken off is `0x` and again `0x`.
pub proof fn lemma_prefixes_are_taken_off(text: Seq<char>)
    ensures
        text.len() - without_prefixes(text).len() >= 0,
        (text.len() - without_prefixes(text).len()) % 2 == 0,
        without_prefixes(text) == text.skip(text.len() - without_prefixes(text).len()),
        forall|i: int|
            0 <= i < text.len() - without_prefixes(text).len() ==> #[trigger] text[i] == if i % 2
                == 0 {
                '0'
            } else {
                'x'
            },
        !(without_prefixes(text).len() >= 2 && without_prefixes(text)[0] == '0'
            && without_prefixes(text)[1] == 'x'),
    decreases text.len(),
{
    let n = text.len() - without_prefixes(text).len();
    if text.len() >= 2 && text[0] == '0' && text[1] == 'x' {
        let rest = text.skip(2);
        lemma_prefixes_are_taken_off(rest);
        assert(rest.skip(n - 2) =~= text.skip(n));
        assert forall|i: int| 0 <= i < n implies #[trigger] text[i] == if i % 2 == 0 {
            '0'
        } else {
            'x'
        } by {
            if i >= 2 {
                assert(rest[i - 2] == text[i]);
            }
        }
    } else {
        assert(text.skip(0) =~= text);
    }
}

} // verus!
