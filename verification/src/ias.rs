//! Verification of a signed attestation-service report.
//!
//! The service answers with a JSON body and two security headers: a
//! URL-encoded PEM chain (leaf first, then the intermediate) and a
//! base64 signature over the raw body bytes. [`verify_response`]
//! decides, exactly, whether the chain ends at the pinned root and the
//! signature verifies under the leaf.
//!
//! HTTP transport and JSON field extraction are left to the embedding
//! program; this module sees only the header strings and the raw body.

use vstd::prelude::*;

use crate::certificate::{x509_sig_of, x509_spki_of, x509_tbs_of, x509_well_formed, X509Cert};
use crate::error::AttestationError;
use crate::pem::{b64_decode_of, b64_valid, base64_decode, spec_pem_der, spec_pem_ok};
use crate::signature::rsa_verifies;

verus! {

/// The fields of an attestation-service report, as plain values.
#[derive(Debug)]
pub struct AttestationResponse {
    // headers
    pub advisory_url: Option<String>,
    pub advisory_ids: Option<String>,
    pub request_id: String,
    // body
    pub id: String,
    pub timestamp: String,
    pub version: u16,
    pub isv_enclave_quote_status: String,
    pub isv_enclave_quote_body: String,
    pub revocation_reason: Option<String>,
    pub pse_manifest_status: Option<String>,
    pub pse_manifest_hash: Option<String>,
    pub platform_info_blob: Option<String>,
    pub nonce: Option<String>,
    pub epid_pseudonym: Option<String>,
}

/// Whether a regex pattern compiles.
pub uninterp spec fn regex_ok(pattern: Seq<char>) -> bool;

/// The non-overlapping matches of a pattern in a text, in order: a
/// function of pattern and text alone.
pub uninterp spec fn regex_matches_of(pattern: Seq<char>, text: Seq<char>) -> Seq<Seq<char>>;

/// Relies on `regex::Regex::new` and `find_iter`: compilation success
/// depends on the pattern alone; the match list on pattern and text.
#[verifier::external_body]
fn regex_find_all(pattern: &str, text: &str) -> (r: Option<Vec<String>>)
    ensures
        match r {
            Some(ms) => regex_ok(pattern@) && ms.deep_view() == regex_matches_of(
                pattern@,
                text@,
            ),
            None => !regex_ok(pattern@),
        },
{
    let re = match regex::Regex::new(pattern) {
        Ok(re) => re,
        Err(_) => return None,
    };
    Some(re.find_iter(text).map(|m| m.as_str().to_owned()).collect())
}

/// Whether percent-decoding yields valid UTF-8.
pub uninterp spec fn pct_ok(s: Seq<char>) -> bool;

/// The percent-decoded text: a function of the input alone.
pub uninterp spec fn pct_decoded_of(s: Seq<char>) -> Seq<char>;

/// Relies on `percent_encoding::percent_decode_str` followed by a
/// UTF-8 check: success and result depend on the input alone.
#[verifier::external_body]
fn percent_decode(s: &str) -> (r: Option<String>)
    ensures
        match r {
            Some(d) => pct_ok(s@) && d@ == pct_decoded_of(s@),
            None => !pct_ok(s@),
        },
{
    match percent_encoding::percent_decode_str(s).decode_utf8() {
        Ok(c) => Some(c.into_owned()),
        Err(_) => None,
    }
}

/// The pattern that matches one PEM block (BEGIN line, base64 body,
/// END line) inside the signing-certificate header.
pub open spec fn spec_pem_block_pattern() -> Seq<char> {
    "(-----BEGIN .*-----\\n)((([A-Za-z0-9+/]{4})*([A-Za-z0-9+/]{2}==|[A-Za-z0-9+/]{3}=)*\\n)+)(-----END .*-----)"@
}

/// The PEM blocks found in the percent-decoded certificate header.
pub open spec fn spec_ias_blocks(cert_header: Seq<char>) -> Seq<Seq<char>> {
    regex_matches_of(spec_pem_block_pattern(), pct_decoded_of(cert_header))
}

/// The DER bytes of the block at `i`.
pub open spec fn spec_ias_block_der(cert_header: Seq<char>, i: int) -> Seq<u8> {
    spec_pem_der(vstd::utf8::encode_utf8(spec_ias_blocks(cert_header)[i]))
}

/// The header decodes into at least two certificates: a leaf and an
/// intermediate, both PEM blocks holding well-formed DER.
pub open spec fn spec_ias_chain_parsed(cert_header: Seq<char>) -> bool {
    &&& pct_ok(cert_header)
    &&& regex_ok(spec_pem_block_pattern())
    &&& spec_ias_blocks(cert_header).len() >= 2
    &&& spec_pem_ok(vstd::utf8::encode_utf8(spec_ias_blocks(cert_header)[0]))
    &&& x509_well_formed(spec_ias_block_der(cert_header, 0))
    &&& spec_pem_ok(vstd::utf8::encode_utf8(spec_ias_blocks(cert_header)[1]))
    &&& x509_well_formed(spec_ias_block_der(cert_header, 1))
}

/// The presented intermediate equals the pinned root certificate.
pub open spec fn spec_ias_ca_matches(root_der: Seq<u8>, cert_header: Seq<char>) -> bool {
    spec_ias_block_der(cert_header, 1) == root_der
}

/// The leaf is signed by the root.
pub open spec fn spec_ias_chain_sig_ok(root_der: Seq<u8>, cert_header: Seq<char>) -> bool {
    rsa_verifies(
        x509_spki_of(root_der),
        x509_tbs_of(spec_ias_block_der(cert_header, 0)),
        x509_sig_of(spec_ias_block_der(cert_header, 0)),
    )
}

/// The signature header is base64 and verifies over the raw body under
/// the leaf's key.
pub open spec fn spec_ias_report_sig_ok(
    cert_header: Seq<char>,
    sig_header: Seq<char>,
    body: Seq<u8>,
) -> bool {
    &&& b64_valid(vstd::utf8::encode_utf8(sig_header))
    &&& rsa_verifies(
        x509_spki_of(spec_ias_block_der(cert_header, 0)),
        body,
        b64_decode_of(vstd::utf8::encode_utf8(sig_header)),
    )
}

/// Verify a report: split the URL-encoded PEM chain, require the
/// intermediate to equal the pinned root byte for byte, check the
/// leaf's signature under the root, then check the report signature
/// over the raw body bytes under the leaf. Each failure keeps its own
/// error; nothing else is accepted.
pub fn verify_response(
    root_ca_cert: &X509Cert,
    signing_cert_header: &str,
    signature_header: &str,
    body: &[u8],
) -> (r: Result<(), AttestationError>)
    requires
        root_ca_cert.wf(),
    ensures
        match r {
            Ok(()) => {
                &&& spec_ias_chain_parsed(signing_cert_header@)
                &&& spec_ias_ca_matches(root_ca_cert.der_view(), signing_cert_header@)
                &&& spec_ias_chain_sig_ok(root_ca_cert.der_view(), signing_cert_header@)
                &&& spec_ias_report_sig_ok(signing_cert_header@, signature_header@, body@)
            },
            Err(AttestationError::MismatchedIASRootCertificate) => {
                &&& spec_ias_chain_parsed(signing_cert_header@)
                &&& !spec_ias_ca_matches(root_ca_cert.der_view(), signing_cert_header@)
            },
            Err(AttestationError::InvalidIASCertificate) => {
                ||| !spec_ias_chain_parsed(signing_cert_header@)
                ||| (spec_ias_chain_parsed(signing_cert_header@) && spec_ias_ca_matches(
                    root_ca_cert.der_view(),
                    signing_cert_header@,
                ) && !spec_ias_chain_sig_ok(root_ca_cert.der_view(), signing_cert_header@))
            },
            Err(AttestationError::BadSignature) => {
                &&& spec_ias_chain_parsed(signing_cert_header@)
                &&& spec_ias_ca_matches(root_ca_cert.der_view(), signing_cert_header@)
                &&& spec_ias_chain_sig_ok(root_ca_cert.der_view(), signing_cert_header@)
                &&& !spec_ias_report_sig_ok(signing_cert_header@, signature_header@, body@)
            },
            Err(AttestationError::Connection(_)) => false,
        },
{
    let decoded = match percent_decode(signing_cert_header) {
        Some(d) => d,
        None => {
            return Err(AttestationError::InvalidIASCertificate);
        },
    };
    let pattern = "(-----BEGIN .*-----\\n)((([A-Za-z0-9+/]{4})*([A-Za-z0-9+/]{2}==|[A-Za-z0-9+/]{3}=)*\\n)+)(-----END .*-----)";
    let blocks = match regex_find_all(pattern, decoded.as_str()) {
        Some(b) => b,
        None => {
            return Err(AttestationError::InvalidIASCertificate);
        },
    };
    if blocks.len() < 2 {
        return Err(AttestationError::InvalidIASCertificate);
    }
    let leaf_pem = &blocks[0];
    let ca_pem = &blocks[1];
    proof {
        assert(leaf_pem@ == spec_ias_blocks(signing_cert_header@)[0]);
        assert(ca_pem@ == spec_ias_blocks(signing_cert_header@)[1]);
    }
    let certificate = match X509Cert::new_from_pem(leaf_pem.as_str().as_bytes()) {
        Ok(c) => c,
        Err(_) => {
            return Err(AttestationError::InvalidIASCertificate);
        },
    };
    let ca_certificate = match X509Cert::new_from_pem(ca_pem.as_str().as_bytes()) {
        Ok(c) => c,
        Err(_) => {
            return Err(AttestationError::InvalidIASCertificate);
        },
    };
    // The presented intermediate must byte-equal the pinned root.
    if !(root_ca_cert == &ca_certificate) {
        return Err(AttestationError::MismatchedIASRootCertificate);
    }
    match certificate.verify_this_certificate(root_ca_cert) {
        Ok(()) => {},
        Err(_) => {
            return Err(AttestationError::InvalidIASCertificate);
        },
    }
    let signature = match base64_decode(signature_header.as_bytes()) {
        Some(s) => s,
        None => {
            return Err(AttestationError::BadSignature);
        },
    };
    match certificate.verify_signature(body, signature.as_slice()) {
        Ok(()) => Ok(()),
        Err(_) => Err(AttestationError::BadSignature),
    }
}

} // verus!
