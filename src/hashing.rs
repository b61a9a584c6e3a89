//! The double SHA-256 checksum that guards each payload.

use vstd::prelude::*;

verus! {

/// The SHA-256 digest of a byte sequence.
pub uninterp spec fn sha256_of(data: Seq<u8>) -> Seq<u8>;

/// Relies on `bitcoin_hashes::sha256::Hash::hash`: the 32-byte SHA-256
/// digest of `data`, which depends on the bytes alone.
#[verifier::external_body]
fn sha256(data: &[u8]) -> (r: Vec<u8>)
    ensures
        r@ == sha256_of(data@),
        r@.len() == 32,
{
    let digest = <bitcoin_hashes::sha256::Hash as bitcoin_hashes::Hash>::hash(data);
    bitcoin_hashes::Hash::to_byte_array(digest).to_vec()
}

/// The checksum of a payload: the first four bytes of SHA-256 applied twice.
pub open spec fn checksum_of(payload: Seq<u8>) -> Seq<u8> {
    let d = sha256_of(sha256_of(payload));
    seq![d[0], d[1], d[2], d[3]]
}

/// Computes the checksum of `payload`.
pub fn checksum(payload: &[u8]) -> (r: [u8; 4])
    ensures
        r@ == checksum_of(payload@),
{
    let first = sha256(payload);
    let second = sha256(first.as_slice());
    let r = [second[0], second[1], second[2], second[3]];
    assert(r@ =~= checksum_of(payload@));
    r
}

/// Tells whether `expected` is the checksum of `payload`.
pub fn verify_checksum(payload: &[u8], expected: &[u8]) -> (r: bool)
    ensures
        r == (expected@ == checksum_of(payload@)),
{
    let actual = checksum(payload);
    if expected.len() != 4 {
        return false;
    }
    let mut i: usize = 0;
    while i < 4
        invariant
            i <= 4,
            expected@.len() == 4,
            actual@ == checksum_of(payload@),
            forall|j: int| 0 <= j < i ==> expected@[j] == actual@[j],
        decreases 4 - i,
    {
        if expected[i] != actual[i] {
            return false;
        }
        i = i + 1;
    }
    assert(expected@ =~= actual@);
    true
}

} // verus!
