//! SHA-256.

use vstd::prelude::*;

verus! {

pub const SHA256_DIGEST_LEN: usize = 32;

/// A 32-byte SHA-256 digest.
pub type Sha256Digest = Vec<u8>;

/// The SHA-256 digest of `data`: a pure function of the input bytes.
/// No contract says its value on any input.
pub uninterp spec fn sha256_of(data: Seq<u8>) -> Seq<u8>;

/// Relies on `ring::digest::digest` with SHA-256: the digest depends on
/// the input alone and is 32 bytes long.
#[verifier::external_body]
pub fn sha256(data: &[u8]) -> (r: Sha256Digest)
    ensures
        r@ == sha256_of(data@),
        r@.len() == 32,
{
    ring::digest::digest(&ring::digest::SHA256, data).as_ref().to_vec()
}

} // verus!
