//! X.509 certificates, held as DER bytes.
//!
//! Parsing and field extraction are delegated to an outside parser
//! under the names [`x509_well_formed`], [`x509_tbs_of`],
//! [`x509_spki_of`] and [`x509_sig_of`]; chain and message signature
//! checks are then exact statements over [`rsa_verifies`].
//!
//! Certificate validity windows are not evaluated here: trust in the
//! attestation-service chain rests on the pinned root certificate and
//! the signature chain alone.

use vstd::prelude::*;

use crate::error::CryptoError;
use crate::pem::{pem_to_der, spec_pem_der, spec_pem_ok};
use crate::signature::{rsa_verifies, Signature, VerificationKey};
use crate::wire::{bytes_eq, copy_bytes};

verus! {

/// Whether the bytes parse as a DER X.509 certificate.
pub uninterp spec fn x509_well_formed(der: Seq<u8>) -> bool;

/// The raw `TBSCertificate` bytes of a well-formed certificate.
pub uninterp spec fn x509_tbs_of(der: Seq<u8>) -> Seq<u8>;

/// The subject public key bits (for RSA: the DER `RSAPublicKey`) of a
/// well-formed certificate.
pub uninterp spec fn x509_spki_of(der: Seq<u8>) -> Seq<u8>;

/// The signature bits of a well-formed certificate.
pub uninterp spec fn x509_sig_of(der: Seq<u8>) -> Seq<u8>;

/// Relies on `x509_parser::parse_x509_certificate`: success and the
/// three extracted fields depend on the DER bytes alone.
#[verifier::external_body]
fn parse_certificate(der: &[u8]) -> (r: Option<(Vec<u8>, Vec<u8>, Vec<u8>)>)
    ensures
        match r {
            Some((tbs, spki, sig)) => {
                &&& x509_well_formed(der@)
                &&& tbs@ == x509_tbs_of(der@)
                &&& spki@ == x509_spki_of(der@)
                &&& sig@ == x509_sig_of(der@)
            },
            None => !x509_well_formed(der@),
        },
{
    match x509_parser::parse_x509_certificate(der) {
        Ok((_, cert)) => {
            let tbs = cert.tbs_certificate.as_ref().to_vec();
            let spki = cert.tbs_certificate.subject_pki.subject_public_key.data.to_vec();
            let sig = cert.signature_value.data.to_vec();
            Some((tbs, spki, sig))
        },
        Err(_) => None,
    }
}

/// A parsed X.509 certificate: the DER bytes plus the fields the
/// protocol reads, pinned to them by [`X509Cert::wf`].
pub struct X509Cert {
    cert: Vec<u8>,
    tbs: Vec<u8>,
    spki: Vec<u8>,
    sig: Vec<u8>,
}

impl X509Cert {
    /// The certificate's DER bytes.
    pub closed spec fn der_view(&self) -> Seq<u8> {
        self.cert@
    }

    pub closed spec fn wf(&self) -> bool {
        &&& x509_well_formed(self.cert@)
        &&& self.tbs@ == x509_tbs_of(self.cert@)
        &&& self.spki@ == x509_spki_of(self.cert@)
        &&& self.sig@ == x509_sig_of(self.cert@)
    }

    pub fn new_from_der(x509_der: &[u8]) -> (r: Result<Self, CryptoError>)
        ensures
            match r {
                Ok(c) => {
                    &&& c.wf()
                    &&& c.der_view() == x509_der@
                    &&& x509_well_formed(x509_der@)
                },
                Err(e) => !x509_well_formed(x509_der@) && e == CryptoError::Encoding,
            },
    {
        match parse_certificate(x509_der) {
            Some((tbs, spki, sig)) => {
                let cert = copy_bytes(x509_der, 0, x509_der.len());
                proof {
                    assert(x509_der@.subrange(0, x509_der@.len() as int) =~= x509_der@);
                }
                Ok(Self { cert, tbs, spki, sig })
            },
            None => Err(CryptoError::Encoding),
        }
    }

    pub fn new_from_pem(x509_pem: &[u8]) -> (r: Result<Self, CryptoError>)
        ensures
            match r {
                Ok(c) => {
                    &&& spec_pem_ok(x509_pem@)
                    &&& x509_well_formed(spec_pem_der(x509_pem@))
                    &&& c.wf()
                    &&& c.der_view() == spec_pem_der(x509_pem@)
                },
                Err(e) => {
                    &&& (!spec_pem_ok(x509_pem@) || !x509_well_formed(spec_pem_der(x509_pem@)))
                    &&& e == CryptoError::Encoding
                },
            },
    {
        match pem_to_der(x509_pem) {
            Ok(der) => Self::new_from_der(der.as_slice()),
            Err(e) => Err(e),
        }
    }

    /// The DER bytes.
    pub fn as_der(&self) -> (r: &[u8])
        ensures
            r@ == self.der_view(),
    {
        self.cert.as_slice()
    }

    /// The key that verifies signatures made by this certificate's
    /// subject.
    pub fn get_verification_key(&self) -> (r: VerificationKey)
        requires
            self.wf(),
        ensures
            r.key_view() == x509_spki_of(self.der_view()),
    {
        VerificationKey::new_from_der(self.spki.as_slice())
    }

    /// This certificate's own signature bits.
    pub fn get_signature(&self) -> (r: Signature)
        requires
            self.wf(),
        ensures
            r@ == x509_sig_of(self.der_view()),
    {
        copy_bytes(self.sig.as_slice(), 0, self.sig.len())
    }

    /// Succeeds exactly when this certificate's signature over its
    /// `TBSCertificate` verifies under `trust_ca`'s public key.
    pub fn verify_this_certificate(&self, trust_ca: &X509Cert) -> (r: Result<(), CryptoError>)
        requires
            self.wf(),
            trust_ca.wf(),
        ensures
            r is Ok <==> rsa_verifies(
                x509_spki_of(trust_ca.der_view()),
                x509_tbs_of(self.der_view()),
                x509_sig_of(self.der_view()),
            ),
            r is Err ==> r == Err::<(), CryptoError>(CryptoError::BadSignature),
    {
        let ca_key = trust_ca.get_verification_key();
        ca_key.verify(self.tbs.as_slice(), self.sig.as_slice())
    }

    /// Succeeds exactly when `signature` over `message` verifies under
    /// this certificate's subject key.
    pub fn verify_signature(&self, message: &[u8], signature: &[u8]) -> (r: Result<
        (),
        CryptoError,
    >)
        requires
            self.wf(),
        ensures
            r is Ok <==> rsa_verifies(x509_spki_of(self.der_view()), message@, signature@),
            r is Err ==> r == Err::<(), CryptoError>(CryptoError::BadSignature),
    {
        let key = self.get_verification_key();
        key.verify(message, signature)
    }
}

impl PartialEq for X509Cert {
    /// Certificates are equal when their DER bytes are.
    fn eq(&self, other: &Self) -> (r: bool) {
        bytes_eq(self.cert.as_slice(), other.cert.as_slice())
    }
}

impl vstd::std_specs::cmp::PartialEqSpecImpl for X509Cert {
    open spec fn obeys_eq_spec() -> bool {
        true
    }

    open spec fn eq_spec(&self, other: &Self) -> bool {
        self.der_view() == other.der_view()
    }
}

} // verus!
