//! The hash that identities, selectors and event signatures are made of.
use vstd::prelude::*;
use crate::primitives::B256;

verus! {

/// The Keccak-256 hash of some bytes.
pub uninterp spec fn keccak256_of(data: Seq<u8>) -> Seq<u8>;

/// The first topic of the logs of the event with this signature.
pub open spec fn signature_hash_of(signature: Seq<char>) -> Seq<u8> {
    keccak256_of(vstd::utf8::encode_utf8(signature))
}

/// The four bytes that start a call of the function with this signature.
pub open spec fn selector_of(signature: Seq<char>) -> Seq<u8> {
    signature_hash_of(signature).take(4)
}

/// Hashes bytes with `keccak256` of alloy.
///
/// The 32 bytes of the result depend on the bytes alone. What they are is left to the name
/// [`keccak256_of`].
#[verifier::external_body]
pub(crate) fn keccak256(data: &[u8]) -> (hash: B256)
    ensures
        hash@ == keccak256_of(data@),
{
    alloy::primitives::keccak256(data).0
}

/// The first topic of the logs of the event with this signature.
pub fn signature_hash(signature: &str) -> (hash: B256)
    ensures
        hash@ == signature_hash_of(signature@),
        hash@ == keccak256_of(vstd::utf8::encode_utf8(signature@)),
{
    keccak256(signature.as_bytes())
}

/// The four bytes that start a call of the function with this signature.
pub fn selector(signature: &str) -> (s: [u8; 4])
    ensures
        s@ == selector_of(signature@),
        s@ == keccak256_of(vstd::utf8::encode_utf8(signature@)).subrange(0, 4),
{
    let hash: B256 = signature_hash(signature);
    let s: [u8; 4] = [hash[0], hash[1], hash[2], hash[3]];
    assert(s@ =~= hash@.take(4));
    s
}

/// An event is known by the hash of its signature in UTF-8, and a function by the first four bytes
/// of that hash.
pub proof fn lemma_signatures_are_hashed(signature: Seq<char>)
    ensures
        signature_hash_of(signature) == keccak256_of(vstd::utf8::encode_utf8(signature)),
        selector_of(signature) == keccak256_of(vstd::utf8::encode_utf8(signature)).subrange(0, 4),
{
}

} // verus!
