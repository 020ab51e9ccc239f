//! The enclave side of the attestation state machine.
//!
//! The enclave pins the SP's RSA verification key, contributes the
//! ephemeral `g_a`, and on MSG2 verifies the SP's signature over
//! `g_b || g_a` before deriving any key, then the MAC under SMK. On
//! success it holds the four derived keys and the report data that
//! binds the transcript into the quote.

use vstd::prelude::*;

use crate::cmac::{cmac_of, Cmac, MacTag};
use crate::digest::{sha256, sha256_of};
use crate::error::{CryptoError, EnclaveRaError};
use crate::kdf::{derive_secret_keys, spec_mk, spec_sk, spec_smk, spec_vk};
use crate::key_exchange::{spec_kdk, DHKEPublicKey, OneWayAuthenticatedDHKE};
use crate::msg::{msg3_mac_input, Quote, RaMsg2, RaMsg3, RaMsg4};
use crate::pem::{spec_pem_der, spec_pem_ok};
use crate::signature::{rsa_verifies, VerificationKey};
use crate::wire::{append_bytes, copy_bytes, zero_bytes};

verus! {

/// The keys and report data the enclave holds after MSG2 validation.
pub struct EnclaveKeys {
    pub smk: Vec<u8>,
    pub sk: Vec<u8>,
    pub mk: Vec<u8>,
    pub vk: Vec<u8>,
    /// `SHA-256(g_a || g_b || VK)` followed by 32 zero bytes.
    pub report_data: Vec<u8>,
}

impl EnclaveKeys {
    pub open spec fn wf(&self) -> bool {
        &&& self.smk@.len() == 16
        &&& self.sk@.len() == 16
        &&& self.mk@.len() == 16
        &&& self.vk@.len() == 16
        &&& self.report_data@.len() == 64
    }

    /// The MSG3 MAC: CMAC under SMK of `g_a || quote` (no platform
    /// descriptor in this profile).
    pub fn mac_msg3(&self, g_a: &DHKEPublicKey, quote: &Quote) -> (r: Result<
        MacTag,
        EnclaveRaError,
    >)
        requires
            self.wf(),
            g_a@.len() == 65,
            quote@.len() == 1116,
        ensures
            match r {
                Ok(t) => t@ == cmac_of(self.smk@, msg3_mac_input(g_a@, None, quote@)),
                Err(_) => false,
            },
    {
        let smk_cmac = match Cmac::new(self.smk.as_slice()) {
            Ok(c) => c,
            Err(e) => {
                return Err(EnclaveRaError::Crypto(e));
            },
        };
        let g_a_copy = copy_bytes(g_a.as_slice(), 0, g_a.len());
        let quote_copy = copy_bytes(quote.as_slice(), 0, quote.len());
        proof {
            assert(g_a@.subrange(0, g_a@.len() as int) =~= g_a@);
            assert(quote@.subrange(0, quote@.len() as int) =~= quote@);
        }
        match RaMsg3::new(&smk_cmac, g_a_copy, None, quote_copy) {
            Ok(m3) => Ok(m3.mac),
            Err(e) => Err(EnclaveRaError::Crypto(e)),
        }
    }
}

/// The enclave-side attestation context.
pub struct EnclaveRaContext {
    verification_key: VerificationKey,
    key_exchange: Option<OneWayAuthenticatedDHKE>,
}

impl EnclaveRaContext {
    /// The SP verification key the enclave pins.
    pub closed spec fn vk_view(&self) -> Seq<u8> {
        self.verification_key.key_view()
    }

    /// The enclave's ephemeral public key, fixed at `init`.
    pub closed spec fn g_a_view(&self) -> Seq<u8> {
        self.key_exchange.unwrap().public_view()
    }

    pub closed spec fn wf(&self) -> bool {
        match self.key_exchange {
            Some(ref kx) => kx.wf(),
            None => true,
        }
    }

    pub closed spec fn awaiting_msg2(&self) -> bool {
        self.key_exchange is Some
    }

    /// Pin the SP's verification key (a PEM block) and generate the
    /// ephemeral pair. A bad PEM is exactly the encoding error; the
    /// only other failure is the key generator's RNG.
    pub fn init(sp_vkey_pem: &[u8]) -> (r: Result<Self, EnclaveRaError>)
        ensures
            !spec_pem_ok(sp_vkey_pem@) ==> r == Err::<Self, EnclaveRaError>(
                EnclaveRaError::Crypto(CryptoError::Encoding),
            ),
            match r {
                Ok(c) => {
                    &&& spec_pem_ok(sp_vkey_pem@)
                    &&& c.wf()
                    &&& c.awaiting_msg2()
                    &&& c.vk_view() == spec_pem_der(sp_vkey_pem@)
                    &&& c.g_a_view().len() == 65
                },
                Err(EnclaveRaError::Crypto(CryptoError::Encoding)) => !spec_pem_ok(sp_vkey_pem@),
                Err(EnclaveRaError::Crypto(CryptoError::Provider)) => spec_pem_ok(sp_vkey_pem@),
                Err(_) => false,
            },
    {
        let verification_key = match VerificationKey::new_from_pem(sp_vkey_pem) {
            Ok(k) => k,
            Err(e) => {
                return Err(EnclaveRaError::Crypto(e));
            },
        };
        let key_exchange = match OneWayAuthenticatedDHKE::generate_keypair() {
            Ok(kx) => kx,
            Err(e) => {
                return Err(EnclaveRaError::Crypto(e));
            },
        };
        Ok(Self { verification_key, key_exchange: Some(key_exchange) })
    }

    /// The `g_a` the client forwards in MSG1.
    pub fn get_public_key(&self) -> (r: DHKEPublicKey)
        requires
            self.wf(),
            self.awaiting_msg2(),
        ensures
            r@ == self.g_a_view(),
            r@.len() == 65,
    {
        self.key_exchange.as_ref().unwrap().get_public_key()
    }

    /// Validate MSG2 and derive the session keys. The SP's signature
    /// over `g_b || g_a` is verified before any key is derived; then
    /// the MAC under SMK. Either failing is one integrity error. On
    /// success the four keys and the report data binding
    /// `SHA-256(g_a || g_b || VK)` come back, and the ephemeral
    /// exponent is consumed.
    pub fn process_msg_2(&mut self, msg2: &RaMsg2) -> (r: Result<EnclaveKeys, EnclaveRaError>)
        requires
            old(self).wf(),
            old(self).awaiting_msg2(),
            msg2.wf(),
        ensures
            ({
                let ga = old(self).g_a_view();
                let sig_ok = rsa_verifies(
                    old(self).vk_view(),
                    msg2.g_b@ + ga,
                    msg2.sign_gb_ga@,
                );
                let kdk = spec_kdk(ga, msg2.g_b@);
                let mac_ok = msg2.mac@ == cmac_of(spec_smk(kdk), msg2.mac_input());
                &&& (!sig_ok ==> r == Err::<EnclaveKeys, EnclaveRaError>(
                    EnclaveRaError::IntegrityError,
                ))
                &&& (sig_ok && crate::key_exchange::p256_point_valid(msg2.g_b@) && mac_ok
                    ==> r is Ok)
                &&& match r {
                    Ok(keys) => {
                        &&& sig_ok
                        &&& mac_ok
                        &&& crate::key_exchange::p256_point_valid(msg2.g_b@)
                        &&& kdk == spec_kdk(msg2.g_b@, ga)
                        &&& keys.wf()
                        &&& keys.smk@ == spec_smk(kdk)
                        &&& keys.sk@ == spec_sk(kdk)
                        &&& keys.mk@ == spec_mk(kdk)
                        &&& keys.vk@ == spec_vk(kdk)
                        &&& keys.report_data@ == sha256_of(ga + msg2.g_b@ + spec_vk(kdk))
                            + Seq::new(32, |i: int| 0u8)
                    },
                    Err(EnclaveRaError::IntegrityError) => !sig_ok || !mac_ok,
                    Err(EnclaveRaError::Crypto(e)) => sig_ok
                        && !crate::key_exchange::p256_point_valid(msg2.g_b@) && e
                        == CryptoError::Provider,
                    Err(_) => false,
                }
            }),
    {
        let key_exchange = match self.key_exchange.take() {
            Some(kx) => kx,
            None => {
                return Err(EnclaveRaError::Crypto(CryptoError::Provider));
            },
        };
        let g_a = key_exchange.get_public_key();

        // Verify the SP's signature, then derive; the exponent is
        // consumed either way.
        let kdk = match key_exchange.verify_and_derive(
            &msg2.g_b,
            &msg2.sign_gb_ga,
            &self.verification_key,
        ) {
            Ok(k) => k,
            Err(CryptoError::BadSignature) => {
                return Err(EnclaveRaError::IntegrityError);
            },
            Err(e) => {
                return Err(EnclaveRaError::Crypto(e));
            },
        };
        let kdk_cmac = match Cmac::new(kdk.as_slice()) {
            Ok(c) => c,
            Err(e) => {
                return Err(EnclaveRaError::Crypto(e));
            },
        };
        let (smk, sk, mk, vk) = match derive_secret_keys(&kdk_cmac) {
            Ok(t) => t,
            Err(e) => {
                return Err(EnclaveRaError::Crypto(e));
            },
        };
        let smk_cmac = match Cmac::new(smk.as_slice()) {
            Ok(c) => c,
            Err(e) => {
                return Err(EnclaveRaError::Crypto(e));
            },
        };
        match msg2.verify_mac(&smk_cmac) {
            Ok(()) => {},
            Err(_) => {
                return Err(EnclaveRaError::IntegrityError);
            },
        }

        // report_data = SHA-256(g_a || g_b || VK) || 32 zero bytes.
        let mut transcript: Vec<u8> = Vec::new();
        append_bytes(&mut transcript, g_a.as_slice());
        append_bytes(&mut transcript, msg2.g_b.as_slice());
        append_bytes(&mut transcript, vk.as_slice());
        let mut report_data = sha256(transcript.as_slice());
        let zeros = zero_bytes(32);
        append_bytes(&mut report_data, zeros.as_slice());

        Ok(EnclaveKeys { smk, sk, mk, vk, report_data })
    }

    /// MSG4 carries the trust decision: an untrusted enclave or
    /// platform-services manifest aborts the handshake, and the caller
    /// must discard every derived key.
    pub fn process_msg_4(&self, msg4: &RaMsg4) -> (r: Result<(), EnclaveRaError>)
        ensures
            match r {
                Ok(()) => msg4.is_enclave_trusted && msg4.is_pse_manifest_trusted != Some(false),
                Err(EnclaveRaError::EnclaveNotTrusted) => !msg4.is_enclave_trusted,
                Err(EnclaveRaError::PseNotTrusted) => msg4.is_enclave_trusted
                    && msg4.is_pse_manifest_trusted == Some(false),
                Err(_) => false,
            },
    {
        if !msg4.is_enclave_trusted {
            return Err(EnclaveRaError::EnclaveNotTrusted);
        }
        match msg4.is_pse_manifest_trusted {
            Some(false) => Err(EnclaveRaError::PseNotTrusted),
            _ => Ok(()),
        }
    }
}

} // verus!
