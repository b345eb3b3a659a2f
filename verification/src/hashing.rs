//! Trusted access to the SHA-256 implementation used for Merkle hashing.
//!
//! The digest itself is not restated here: `sha256_of` names the result of
//! the outside hash function, and everything the library proves about Merkle
//! roots is stated in terms of that name.

use vstd::prelude::*;

verus! {

/// The SHA-256 digest of a byte sequence, as computed by the outside hash
/// function. The digest is a function of the input bytes alone.
pub uninterp spec fn sha256_of(data: Seq<u8>) -> Seq<u8>;

/// Relies on `solana_sha256_hasher::hashv`: it returns the SHA-256 digest of
/// the concatenation of the given slices, a 32-byte value determined by those
/// bytes alone.
#[verifier::external_body]
pub(crate) fn sha256_pair(a: &[u8; 32], b: &[u8; 32]) -> (r: [u8; 32])
    ensures
        r@ == sha256_of(a@ + b@),
{
    solana_sha256_hasher::hashv(&[a.as_slice(), b.as_slice()]).to_bytes()
}

/// Relies on `solana_sha256_hasher::hashv`: it returns the SHA-256 digest of
/// the given bytes, a 32-byte value determined by those bytes alone.
#[verifier::external_body]
pub(crate) fn sha256_single(a: &[u8; 32]) -> (r: [u8; 32])
    ensures
        r@ == sha256_of(a@),
{
    solana_sha256_hasher::hashv(&[a.as_slice()]).to_bytes()
}

} // verus!
