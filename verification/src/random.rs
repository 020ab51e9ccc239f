//! Cryptographically secure random bytes.

use vstd::prelude::*;

use crate::error::CryptoError;

verus! {

/// Relies on `ring::rand::SystemRandom`: on success the buffer is filled
/// with `len` bytes from the system CSPRNG. Nothing is promised of their
/// values.
#[verifier::external_body]
pub fn random_bytes(len: usize) -> (r: Result<Vec<u8>, CryptoError>)
    ensures
        match r {
            Ok(v) => v@.len() == len,
            Err(e) => e == CryptoError::Provider,
        },
{
    let mut v = vec![0u8; len];
    match ring::rand::SecureRandom::fill(&ring::rand::SystemRandom::new(), &mut v[..]) {
        Ok(()) => Ok(v),
        Err(_) => Err(CryptoError::Provider),
    }
}

} // verus!
