//! Error types surfaced by the attestation core.
//!
//! Every variant is a plain value, so the errors can be stated exactly in
//! contracts and compared in tests. Transport-level failures (sockets,
//! HTTP) are handled by the embedding program and never enter the library.

use vstd::prelude::*;

verus! {

/// Failure of a cryptographic primitive.
#[derive(Debug, Clone, Copy, PartialEq, Eq, Structural)]
pub enum CryptoError {
    /// The underlying crypto provider refused the operation
    /// (bad key material, point not on the curve, RNG failure).
    Provider,
    /// A CMAC tag did not match the data it was checked against.
    CmacVerificationError,
    /// An RSA signature did not verify under the given key.
    BadSignature,
    /// A PEM or DER encoding could not be decoded.
    Encoding,
}

/// Secure-channel failure.
#[derive(Debug, Clone, Copy, PartialEq, Eq, Structural)]
pub enum ChannelError {
    Crypto(CryptoError),
    /// A record failed authentication or carried the wrong sequence
    /// number. Deliberately one variant: peers must not learn which
    /// check failed.
    Integrity,
    /// A record header declared a length beyond the configured capacity.
    InvalidInput,
    /// The 64-bit sequence space of this direction is used up.
    SequenceExhausted,
}

/// Enclave-side attestation failure.
#[derive(Debug, Clone, Copy, PartialEq, Eq, Structural)]
pub enum EnclaveRaError {
    Crypto(CryptoError),
    /// A MAC or signature check on MSG2 failed; fatal, never retried.
    IntegrityError,
    ReportDataLongerThan64Bytes,
    LocalAttestation(LocalAttestationError),
    /// MSG4 reported the enclave untrusted.
    EnclaveNotTrusted,
    /// MSG4 reported the platform-services manifest untrusted.
    PseNotTrusted,
}

/// Failure of the local-attestation exchange with the quoting enclave.
#[derive(Debug, Clone, Copy, PartialEq, Eq, Structural)]
pub enum LocalAttestationError {
    Crypto(CryptoError),
    IncorrectReportLength,
    IntegrityError,
}

/// Client-side attestation failure.
#[derive(Debug, Clone, Copy, PartialEq, Eq, Structural)]
pub enum ClientRaError {
    EnclaveNotTrusted,
    PseNotTrusted,
}

/// Service-provider-side attestation failure.
#[derive(Debug, Clone, Copy, PartialEq, Eq, Structural)]
pub enum SpRaError {
    Crypto(CryptoError),
    IAS(IasError),
    /// A MAC, digest-binding or echo check on MSG3 failed.
    IntegrityError,
    /// The quote's identity fields deviate from the configured SIGSTRUCT.
    SigstructMismatched,
    /// The enclave advertises the DEBUG attribute on a release build.
    EnclaveInDebugMode,
    EnclaveNotTrusted,
    /// The SP configuration is not usable (bad SPID hex, reserved option set).
    BadConfiguration,
    /// MSG0 selected an extended EPID group other than 0.
    UnsupportedExtendedEpidGroup,
}

/// Failure while checking an attestation-service response.
#[derive(Debug, Clone, Copy, PartialEq, Eq, Structural)]
pub enum AttestationError {
    /// Non-200 response from the report endpoint; carries the status code.
    Connection(u16),
    /// The presented chain does not end at the configured IAS root.
    MismatchedIASRootCertificate,
    /// The presented chain is malformed or the leaf is not signed by the root.
    InvalidIASCertificate,
    /// The report signature does not verify under the leaf certificate.
    BadSignature,
}

/// Failure while talking to the attestation service.
#[derive(Debug, Clone, Copy, PartialEq, Eq, Structural)]
pub enum IasError {
    /// Non-200 response from the sigrl endpoint; carries the status code.
    SigRLError(u16),
    Attestation(AttestationError),
}

} // verus!
