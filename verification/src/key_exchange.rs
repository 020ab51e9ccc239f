//! Ephemeral ECDH on P-256 with one-way authentication.
//!
//! The shared secret is a function of the two public points alone and is
//! symmetric in them; the name [`ecdh_shared_of`] stands for it, stated
//! both ways round by the agreement wrapper. The KDK is the CMAC of the
//! shared secret under an all-zero key, so both sides provably derive
//! the same KDK ([`spec_kdk`] is symmetric at every call).
//!
//! The private exponent lives only inside [`DHKE`], and the agreement
//! consumes the value, so an exponent cannot be reused.

use vstd::prelude::*;

use crate::cmac::{cmac_of, Cmac};
use crate::error::CryptoError;
use crate::signature::{rsa_verifies, Signature, SigningKey, VerificationKey};
use crate::wire::{append_bytes, copy_bytes, zero_bytes};

verus! {

pub const DHKE_PUBKEY_LEN: usize = 65;

/// 65-byte uncompressed P-256 point (0x04 || X || Y).
pub type DHKEPublicKey = Vec<u8>;

/// 16-byte key-derivation key.
pub type KDK = Vec<u8>;

#[verifier::external_type_specification]
#[verifier::external_body]
pub struct ExEphemeralPrivateKey(ring::agreement::EphemeralPrivateKey);

/// The raw X coordinate (32 bytes, big-endian) of the ECDH product
/// point for the key pairs behind the two public keys. The private
/// scalar is determined by its public point, so this is a function of
/// the two points — and a symmetric one, which is the heart of the key
/// agreement. No contract says its value on any input.
pub uninterp spec fn ecdh_shared_of(pub_a: Seq<u8>, pub_b: Seq<u8>) -> Seq<u8>;

/// Whether the bytes are a valid uncompressed encoding of a P-256
/// point, as the agreement's peer-key validation decides it: a
/// function of the bytes alone. No contract says its value on any
/// input; generated keys are valid by construction.
pub uninterp spec fn p256_point_valid(p: Seq<u8>) -> bool;

/// The all-zero CMAC key used for KDK extraction.
pub open spec fn cmac_zero_key() -> Seq<u8> {
    Seq::new(16, |i: int| 0u8)
}

/// The KDK both peers derive: CMAC of the shared secret under the
/// all-zero key.
pub open spec fn spec_kdk(pub_a: Seq<u8>, pub_b: Seq<u8>) -> Seq<u8> {
    cmac_of(cmac_zero_key(), ecdh_shared_of(pub_a, pub_b))
}

/// An ephemeral P-256 key pair. Deriving a key consumes it.
pub struct DHKE {
    private_key: ring::agreement::EphemeralPrivateKey,
    public_key: Vec<u8>,
}

impl DHKE {
    pub closed spec fn wf(&self) -> bool {
        &&& self.public_key@.len() == 65
        &&& self.public_key@[0] == 0x04
    }

    /// The 65-byte public encoding of this key pair.
    pub closed spec fn public_view(&self) -> Seq<u8> {
        self.public_key@
    }

    /// Relies on `ring::agreement::EphemeralPrivateKey::generate` and
    /// `compute_public_key` with `ECDH_P256`: the public key is the
    /// 65-byte uncompressed encoding (leading byte 0x04) of a fresh
    /// random pair's point, which the agreement accepts as a peer key.
    #[verifier::external_body]
    pub fn generate_keypair() -> (r: Result<Self, CryptoError>)
        ensures
            match r {
                Ok(kp) => {
                    &&& kp.wf()
                    &&& kp.public_view().len() == 65
                    &&& kp.public_view()[0] == 0x04
                    &&& p256_point_valid(kp.public_view())
                },
                Err(e) => e == CryptoError::Provider,
            },
    {
        let rng = ring::rand::SystemRandom::new();
        let private_key = ring::agreement::EphemeralPrivateKey::generate(
            &ring::agreement::ECDH_P256,
            &rng,
        ).map_err(|_| CryptoError::Provider)?;
        let public_key =
            private_key.compute_public_key().map_err(|_| CryptoError::Provider)?.as_ref().to_vec();
        Ok(Self { private_key, public_key })
    }

    pub fn get_public_key(&self) -> (r: DHKEPublicKey)
        requires
            self.wf(),
        ensures
            r@ == self.public_view(),
            r@.len() == 65,
            r@[0] == 0x04,
    {
        let r = copy_bytes(self.public_key.as_slice(), 0, self.public_key.len());
        proof {
            assert(self.public_key@.subrange(0, self.public_key@.len() as int)
                =~= self.public_key@);
        }
        r
    }

    /// Relies on `ring::agreement::agree_ephemeral` with `ECDH_P256`:
    /// it fails exactly when the peer bytes fail the uncompressed-point
    /// validation, and on success the raw key material is the 32-byte
    /// X coordinate of the product point, a function of the two public
    /// points alone and symmetric in them. Consumes the private
    /// exponent.
    #[verifier::external_body]
    fn agree(self, peer_public_key: &DHKEPublicKey) -> (r: Result<Vec<u8>, CryptoError>)
        ensures
            match r {
                Ok(s) => {
                    &&& p256_point_valid(peer_public_key@)
                    &&& s@ == ecdh_shared_of(self.public_view(), peer_public_key@)
                    &&& s@ == ecdh_shared_of(peer_public_key@, self.public_view())
                    &&& s@.len() == 32
                },
                Err(e) => !p256_point_valid(peer_public_key@) && e == CryptoError::Provider,
            },
    {
        let peer = ring::agreement::UnparsedPublicKey::new(
            &ring::agreement::ECDH_P256,
            &peer_public_key[..],
        );
        ring::agreement::agree_ephemeral(
            self.private_key,
            &peer,
            CryptoError::Provider,
            |ikm| Ok(ikm.to_vec()),
        )
    }

    /// Agree with the peer and extract the KDK: it succeeds exactly on
    /// valid peer points, and both peers obtain `spec_kdk` of the same
    /// two points, whichever side they stand on.
    pub fn derive_key(self, peer_public_key: &DHKEPublicKey) -> (r: Result<KDK, CryptoError>)
        requires
            self.wf(),
        ensures
            match r {
                Ok(k) => {
                    &&& p256_point_valid(peer_public_key@)
                    &&& k@ == spec_kdk(self.public_view(), peer_public_key@)
                    &&& k@ == spec_kdk(peer_public_key@, self.public_view())
                    &&& k@.len() == 16
                },
                Err(e) => !p256_point_valid(peer_public_key@) && e == CryptoError::Provider,
            },
    {
        let ghost own_pub = self.public_view();
        let shared = match self.agree(peer_public_key) {
            Ok(s) => s,
            Err(e) => {
                return Err(e);
            },
        };
        let zero_key = zero_bytes(16);
        let kdf = match Cmac::new(zero_key.as_slice()) {
            Ok(c) => c,
            Err(_) => {
                return Err(CryptoError::Provider);
            },
        };
        let kdk = kdf.sign(shared.as_slice());
        proof {
            assert(zero_key@ =~= cmac_zero_key());
        }
        Ok(kdk)
    }
}

/// One-way authenticated DHKE: the SP (holder of `g_b`) signs, the
/// enclave (holder of `g_a`) verifies before trusting any derived key.
pub struct OneWayAuthenticatedDHKE {
    inner: DHKE,
}

impl OneWayAuthenticatedDHKE {
    pub closed spec fn wf(&self) -> bool {
        self.inner.wf()
    }

    /// The 65-byte public encoding of the underlying pair.
    pub closed spec fn public_view(&self) -> Seq<u8> {
        self.inner.public_view()
    }

    pub fn generate_keypair() -> (r: Result<Self, CryptoError>)
        ensures
            match r {
                Ok(kp) => {
                    &&& kp.wf()
                    &&& kp.public_view().len() == 65
                    &&& kp.public_view()[0] == 0x04
                    &&& p256_point_valid(kp.public_view())
                },
                Err(e) => e == CryptoError::Provider,
            },
    {
        match DHKE::generate_keypair() {
            Ok(inner) => Ok(Self { inner }),
            Err(e) => Err(e),
        }
    }

    pub fn get_public_key(&self) -> (r: DHKEPublicKey)
        requires
            self.wf(),
        ensures
            r@ == self.public_view(),
            r@.len() == 65,
            r@[0] == 0x04,
    {
        self.inner.get_public_key()
    }

    /// SP side: sign `g_b || g_a` and derive the KDK. The signature
    /// verifies under the signing key's public half; failure comes only
    /// from the signer's RNG or an invalid peer point.
    pub fn sign_and_derive(
        self,
        g_a: &DHKEPublicKey,
        signing_key: &SigningKey,
    ) -> (r: Result<(KDK, Signature), CryptoError>)
        requires
            self.wf(),
        ensures
            match r {
                Ok((kdk, sign_gb_ga)) => {
                    &&& p256_point_valid(g_a@)
                    &&& kdk@ == spec_kdk(self.public_view(), g_a@)
                    &&& kdk@ == spec_kdk(g_a@, self.public_view())
                    &&& kdk@.len() == 16
                    &&& sign_gb_ga@.len() == signing_key.sig_len()
                    &&& rsa_verifies(
                        signing_key.public_view(),
                        self.public_view() + g_a@,
                        sign_gb_ga@,
                    )
                },
                Err(e) => e == CryptoError::Provider,
            },
    {
        let g_b = self.inner.get_public_key();
        let mut gb_ga: Vec<u8> = Vec::new();
        append_bytes(&mut gb_ga, g_b.as_slice());
        append_bytes(&mut gb_ga, g_a.as_slice());
        let sign_gb_ga = match signing_key.sign(gb_ga.as_slice()) {
            Ok(s) => s,
            Err(e) => {
                return Err(e);
            },
        };
        let kdk = match self.inner.derive_key(g_a) {
            Ok(k) => k,
            Err(e) => {
                return Err(e);
            },
        };
        Ok((kdk, sign_gb_ga))
    }

    /// Enclave side: verify the SP's signature on `g_b || g_a`, then
    /// derive the KDK. A bad signature is rejected before any key is
    /// derived; a verified signature over a valid point always derives.
    pub fn verify_and_derive(
        self,
        g_b: &DHKEPublicKey,
        sign_gb_ga: &Signature,
        verification_key: &VerificationKey,
    ) -> (r: Result<KDK, CryptoError>)
        requires
            self.wf(),
        ensures
            r == Err::<KDK, CryptoError>(CryptoError::BadSignature) <==> !rsa_verifies(
                verification_key.key_view(),
                g_b@ + self.public_view(),
                sign_gb_ga@,
            ),
            match r {
                Ok(kdk) => {
                    &&& p256_point_valid(g_b@)
                    &&& kdk@ == spec_kdk(self.public_view(), g_b@)
                    &&& kdk@ == spec_kdk(g_b@, self.public_view())
                    &&& kdk@.len() == 16
                },
                Err(CryptoError::BadSignature) => true,
                Err(CryptoError::Provider) => rsa_verifies(
                    verification_key.key_view(),
                    g_b@ + self.public_view(),
                    sign_gb_ga@,
                ) && !p256_point_valid(g_b@),
                Err(_) => false,
            },
    {
        let g_a = self.inner.get_public_key();
        let mut gb_ga: Vec<u8> = Vec::new();
        append_bytes(&mut gb_ga, g_b.as_slice());
        append_bytes(&mut gb_ga, g_a.as_slice());
        match verification_key.verify(gb_ga.as_slice(), sign_gb_ga.as_slice()) {
            Ok(()) => {},
            Err(_) => {
                return Err(CryptoError::BadSignature);
            },
        }
        self.inner.derive_key(g_b)
    }
}

} // verus!
