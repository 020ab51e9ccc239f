//! RSA-PKCS#1-v1.5-SHA256 signing and verification.
//!
//! Verification is a pure function of the public key bytes, the message
//! and the signature; the name [`rsa_verifies`] stands for it, and the
//! key-exchange and attestation-report checks are specified against it.

use vstd::prelude::*;

use crate::error::CryptoError;
use crate::pem::pem_to_der;

verus! {

/// RSA signature; its length is the modulus byte length.
pub type Signature = Vec<u8>;

#[verifier::external_type_specification]
#[verifier::external_body]
pub struct ExRsaKeyPair(ring::signature::RsaKeyPair);

/// Whether `signature` is a valid RSA-PKCS#1-v1.5-SHA256 signature on
/// `message` under the public key `key_der` (a DER `RSAPublicKey`,
/// 2048 to 8192 bit modulus). Deterministic in its arguments; no
/// contract says its value on any input.
pub uninterp spec fn rsa_verifies(key_der: Seq<u8>, message: Seq<u8>, signature: Seq<u8>) -> bool;

/// An RSA public key held as DER `RSAPublicKey` bytes.
pub struct VerificationKey {
    key: Vec<u8>,
}

impl VerificationKey {
    /// The DER bytes this key verifies under.
    pub closed spec fn key_view(&self) -> Seq<u8> {
        self.key@
    }

    pub fn new_from_der(public_key_der: &[u8]) -> (r: Self)
        ensures
            r.key_view() == public_key_der@,
    {
        let key = crate::wire::copy_bytes(public_key_der, 0, public_key_der.len());
        proof {
            assert(public_key_der@.subrange(0, public_key_der@.len() as int)
                =~= public_key_der@);
        }
        Self { key }
    }

    /// Accepts a PEM block whose body decodes to the DER key.
    pub fn new_from_pem(public_key_pem: &[u8]) -> (r: Result<Self, CryptoError>)
        ensures
            match r {
                Ok(k) => crate::pem::spec_pem_ok(public_key_pem@) && k.key_view()
                    == crate::pem::spec_pem_der(public_key_pem@),
                Err(e) => !crate::pem::spec_pem_ok(public_key_pem@) && e
                    == CryptoError::Encoding,
            },
    {
        match pem_to_der(public_key_pem) {
            Ok(der) => Ok(Self { key: der }),
            Err(e) => Err(e),
        }
    }

    /// Succeeds exactly when the signature verifies.
    ///
    /// Relies on `ring::signature::UnparsedPublicKey::verify` with
    /// `RSA_PKCS1_2048_8192_SHA256`: acceptance depends on the key,
    /// message and signature bytes alone.
    #[verifier::external_body]
    pub fn verify(&self, message: &[u8], signature: &[u8]) -> (r: Result<(), CryptoError>)
        ensures
            match r {
                Ok(()) => rsa_verifies(self.key_view(), message@, signature@),
                Err(e) => !rsa_verifies(self.key_view(), message@, signature@) && e
                    == CryptoError::BadSignature,
            },
    {
        let key = ring::signature::UnparsedPublicKey::new(
            &ring::signature::RSA_PKCS1_2048_8192_SHA256,
            &self.key[..],
        );
        key.verify(message, signature).map_err(|_| CryptoError::BadSignature)
    }
}

/// Whether the bytes parse as a usable DER `RSAPrivateKey` (2048 to
/// 8192 bit modulus): a function of the bytes alone. No contract says
/// its value on any input.
pub uninterp spec fn rsa_private_key_valid(der: Seq<u8>) -> bool;

/// An RSA private key for signing, together with its public half; the
/// modulus length fixes the signature length.
pub struct SigningKey {
    key_pair: ring::signature::RsaKeyPair,
    public_key_der: Vec<u8>,
    modulus_len: usize,
}

impl SigningKey {
    /// The signature length this key produces (its modulus byte length).
    pub closed spec fn sig_len(&self) -> usize {
        self.modulus_len
    }

    /// The DER `RSAPublicKey` of this key's public half: what
    /// [`rsa_verifies`] holds this key's signatures against.
    pub closed spec fn public_view(&self) -> Seq<u8> {
        self.public_key_der@
    }

    /// Relies on `ring::signature::RsaKeyPair::from_der`: parsing
    /// succeeds exactly on usable keys (deterministic in the bytes),
    /// `public_key` is the DER `RSAPublicKey` of the pair, and
    /// `public_modulus_len` is the positive modulus byte length.
    #[verifier::external_body]
    pub fn new_from_der(private_key_der: &[u8]) -> (r: Result<Self, CryptoError>)
        ensures
            match r {
                Ok(k) => rsa_private_key_valid(private_key_der@) && 0 < k.sig_len(),
                Err(e) => !rsa_private_key_valid(private_key_der@) && e
                    == CryptoError::Provider,
            },
    {
        let key_pair = match ring::signature::RsaKeyPair::from_der(private_key_der) {
            Ok(kp) => kp,
            Err(_) => {
                return Err(CryptoError::Provider);
            },
        };
        let public_key_der = ring::signature::KeyPair::public_key(&key_pair).as_ref().to_vec();
        let modulus_len = key_pair.public_modulus_len();
        Ok(Self { key_pair, public_key_der, modulus_len })
    }

    /// Accepts a PEM block whose body decodes to a usable DER
    /// `RSAPrivateKey`; each failure keeps its own error.
    pub fn new_from_pem(private_key_pem: &[u8]) -> (r: Result<Self, CryptoError>)
        ensures
            match r {
                Ok(k) => {
                    &&& crate::pem::spec_pem_ok(private_key_pem@)
                    &&& rsa_private_key_valid(crate::pem::spec_pem_der(private_key_pem@))
                    &&& 0 < k.sig_len()
                },
                Err(CryptoError::Encoding) => !crate::pem::spec_pem_ok(private_key_pem@),
                Err(CryptoError::Provider) => crate::pem::spec_pem_ok(private_key_pem@)
                    && !rsa_private_key_valid(crate::pem::spec_pem_der(private_key_pem@)),
                Err(_) => false,
            },
    {
        match pem_to_der(private_key_pem) {
            Ok(der) => Self::new_from_der(der.as_slice()),
            Err(e) => Err(e),
        }
    }

    /// The DER `RSAPublicKey` of this key's public half, for pinning on
    /// the verifying side.
    pub fn public_key_der(&self) -> (r: &[u8])
        ensures
            r@ == self.public_view(),
    {
        self.public_key_der.as_slice()
    }

    /// Sign a message; the signature is `sig_len` bytes and verifies
    /// under this key's public half.
    ///
    /// Relies on `ring::signature::RsaKeyPair::sign` with
    /// `RSA_PKCS1_SHA256`: it fills exactly the modulus length, and
    /// ring's own verifier accepts the PKCS#1 v1.5 signature it
    /// produces over the same message under the pair's public key.
    #[verifier::external_body]
    pub fn sign(&self, message: &[u8]) -> (r: Result<Signature, CryptoError>)
        ensures
            match r {
                Ok(s) => {
                    &&& s@.len() == self.sig_len()
                    &&& rsa_verifies(self.public_view(), message@, s@)
                },
                Err(e) => e == CryptoError::Provider,
            },
    {
        let mut signature = vec![0u8; self.modulus_len];
        let rng = ring::rand::SystemRandom::new();
        match self.key_pair.sign(
            &ring::signature::RSA_PKCS1_SHA256,
            &rng,
            message,
            &mut signature,
        ) {
            Ok(()) => Ok(signature),
            Err(_) => Err(CryptoError::Provider),
        }
    }
}

} // verus!
