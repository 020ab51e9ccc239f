//! Core of a three-party SGX-style remote attestation protocol: the
//! canonical message codec, key derivation, attestation state machines
//! for the enclave, client and service-provider roles, verification of
//! the attestation service's signed reports, and the sequenced AES-GCM
//! secure channel built over the master key.

pub mod certificate;
pub mod client;
pub mod cmac;
pub mod codec;
pub mod digest;
pub mod enclave;
pub mod error;
pub mod ias;
pub mod kdf;
pub mod key_exchange;
pub mod local_attestation;
pub mod msg;
pub mod pem;
pub mod random;
pub mod secure_channel;
pub mod signature;
pub mod sp;
pub mod wire;
