//! Trusted boundaries to the two hash functions the protocol samples with.

use sha2::Digest;
use vstd::prelude::*;

verus! {

/// The SHA-256 digest of a byte sequence, named but not written out: every
/// contract that mentions a digest speaks of this function.
pub uninterp spec fn sha256_of(msg: Seq<u8>) -> Seq<u8>;

/// Relies on sha2's `Sha256`: a 32-byte digest that depends on the input
/// bytes alone.
#[verifier::external_body]
pub fn sha256(msg: &[u8]) -> (r: Vec<u8>)
    ensures
        r@ == sha256_of(msg@),
        r@.len() == 32,
{
    sha2::Sha256::digest(msg).to_vec()
}

/// The BLAKE2b digest (64-byte output) of a byte sequence.
pub uninterp spec fn blake2b_of(msg: Seq<u8>) -> Seq<u8>;

/// Relies on blake2b_simd's `blake2b`: a 64-byte digest that depends on the
/// input bytes alone.
#[verifier::external_body]
pub fn blake2b(msg: &[u8]) -> (r: Vec<u8>)
    ensures
        r@ == blake2b_of(msg@),
        r@.len() == 64,
{
    blake2b_simd::blake2b(msg).as_bytes().to_vec()
}

} // verus!
