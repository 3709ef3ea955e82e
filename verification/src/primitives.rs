//! Fixed-width values shared by every module, and their big-endian numeric reading.
use vstd::prelude::*;

verus! {

/// An account or contract address.
pub type Address = [u8; 20];

/// A 32-byte identifier or hash.
pub type B256 = [u8; 32];

/// An unsigned 256-bit amount, held as its 32 big-endian bytes.
pub type U256 = [u8; 32];

/// The number that a sequence of bytes spells, most significant byte first.
pub open spec fn be_value(bytes: Seq<u8>) -> nat
    decreases bytes.len(),
{
    if bytes.len() == 0 {
        0
    } else {
        be_value(bytes.drop_last()) * 256 + bytes.last() as nat
    }
}

/// `256` to the power `n`.
pub open spec fn byte_capacity(n: nat) -> nat
    decreases n,
{
    if n == 0 {
        1
    } else {
        256 * byte_capacity((n - 1) as nat)
    }
}

/// The `len` bytes that spell `value`, most significant byte first, dropping what does not fit.
pub open spec fn be_bytes(value: nat, len: nat) -> Seq<u8>
    decreases len,
{
    if len == 0 {
        seq![]
    } else {
        be_bytes(value / 256, (len - 1) as nat).push((value % 256) as u8)
    }
}

/// The spelled bytes have the length asked for.
pub proof fn lemma_be_bytes_len(value: nat, len: nat)
    ensures
        be_bytes(value, len).len() == len,
    decreases len,
{
    if len > 0 {
        lemma_be_bytes_len(value / 256, (len - 1) as nat);
    }
}

/// Spelling a number and reading it back gives the number, where it fits.
pub proof fn lemma_be_round_trip(value: nat, len: nat)
    requires
        value < byte_capacity(len),
    ensures
        be_value(be_bytes(value, len)) == value,
    decreases len,
{
    if len > 0 {
        let head = be_bytes(value / 256, (len - 1) as nat);
        assert(value / 256 < byte_capacity((len - 1) as nat)) by {
            assert(value < 256 * byte_capacity((len - 1) as nat));
        }
        lemma_be_round_trip(value / 256, (len - 1) as nat);
        assert(be_bytes(value, len).drop_last() =~= head);
    }
}

/// Reading bytes and spelling the number again gives the bytes.
pub proof fn lemma_be_value_inverse(bytes: Seq<u8>)
    ensures
        be_bytes(be_value(bytes), bytes.len()) == bytes,
    decreases bytes.len(),
{
    if bytes.len() > 0 {
        lemma_be_value_inverse(bytes.drop_last());
        let v = be_value(bytes);
        assert(v / 256 == be_value(bytes.drop_last()));
        assert(v % 256 == bytes.last() as nat);
        assert(bytes.drop_last().push(bytes.last()) =~= bytes);
    } else {
        assert(be_bytes(be_value(bytes), 0) =~= bytes);
    }
}

/// Whether two byte slices hold the same bytes.
pub fn bytes_equal(a: &[u8], b: &[u8]) -> (r: bool)
    ensures
        r == (a@ == b@),
{
    if a.len() != b.len() {
        return false;
    }
    let mut i: usize = 0;
    while i < a.len()
        invariant
            a@.len() == b@.len(),
            i <= a@.len(),
            forall|k: int| 0 <= k < i ==> a@[k] == b@[k],
        decreases a@.len() - i,
    {
        if a[i] != b[i] {
            assert(a@[i as int] != b@[i as int]);
            return false;
        }
        i += 1;
    }
    assert(a@ =~= b@);
    true
}

/// Appends every byte of a slice to a buffer.
pub fn push_bytes(out: &mut Vec<u8>, bytes: &[u8])
    ensures
        final(out)@ == old(out)@ + bytes@,
{
    let mut i: usize = 0;
    while i < bytes.len()
        invariant
            i <= bytes@.len(),
            out@ == old(out)@ + bytes@.take(i as int),
        decreases bytes@.len() - i,
    {
        out.push(bytes[i]);
        i += 1;
        assert(bytes@.take(i as int) =~= bytes@.take(i - 1).push(bytes@[i - 1]));
    }
    assert(bytes@.take(i as int) =~= bytes@);
}

/// A copy of a byte slice.
pub fn copy_bytes(bytes: &[u8]) -> (out: Vec<u8>)
    ensures
        out@ == bytes@,
{
    let mut out: Vec<u8> = Vec::new();
    push_bytes(&mut out, bytes);
    assert(Seq::<u8>::empty() + bytes@ =~= bytes@);
    out
}

/// The low eight bytes of a word, read as a number.
pub fn u64_from_word(word: &B256) -> (r: u64)
    ensures
        r as nat == be_value(word@.subrange(24, 32)),
{
    let mut r: u64 = 0;
    let mut i: usize = 24;
    while i < 32
        invariant
            24 <= i <= 32,
            r as nat == be_value(word@.subrange(24, i as int)),
            (r as nat) < byte_capacity((i - 24) as nat),
        decreases 32 - i,
    {
        proof {
            reveal_with_fuel(byte_capacity, 9);
            assert(word@.subrange(24, i + 1).drop_last() =~= word@.subrange(24, i as int));
        }
        r = r * 256 + word[i] as u64;
        i += 1;
    }
    r
}

/// The low two bytes of a word, read as a number.
pub fn u16_from_word(word: &B256) -> (r: u16)
    ensures
        r as nat == be_value(word@.subrange(30, 32)),
{
    proof {
        reveal_with_fuel(be_value, 3);
        assert(word@.subrange(30, 32).drop_last() =~= word@.subrange(30, 31));
        assert(word@.subrange(30, 31).drop_last() =~= Seq::<u8>::empty());
    }
    word[30] as u16 * 256 + word[31] as u16
}

/// Nothing spells zero, and one more byte at the end multiplies what came before it by 256 and adds
/// itself. Bytes of one length that spell the same number are the same bytes.
pub proof fn lemma_one_more_byte(bytes: Seq<u8>, other: Seq<u8>, byte: u8)
    ensures
        be_value(Seq::empty()) == 0,
        be_value(bytes.push(byte)) == 256 * be_value(bytes) + byte,
        bytes.len() == other.len() && be_value(bytes) == be_value(other) ==> bytes == other,
{
    assert(bytes.push(byte).drop_last() =~= bytes);
    lemma_be_value_inverse(bytes);
    lemma_be_value_inverse(other);
}

} // verus!
