//! 128-bit AES-CMAC.
//!
//! The tag itself is computed by an outside provider; everything the
//! protocol concludes from a tag goes through the name [`cmac_of`], which
//! stands for that computation as a pure function of key and data.

use vstd::prelude::*;

use crate::error::CryptoError;
use crate::wire::bytes_eq_ct;

verus! {

pub const MAC_LEN: usize = 16;

/// A 16-byte AES-128-CMAC tag.
pub type MacTag = Vec<u8>;

/// The AES-128-CMAC tag of `data` under `key` (16-byte key, 16-byte tag).
/// Deterministic in its arguments; no contract says its value on any input.
pub uninterp spec fn cmac_of(key: Seq<u8>, data: Seq<u8>) -> Seq<u8>;

/// Relies on the `cmac` crate's `Cmac<Aes128>`: the tag depends on key and
/// data alone and is one block (16 bytes) long.
#[verifier::external_body]
fn cmac_sign_bytes(key: &[u8], data: &[u8]) -> (r: Vec<u8>)
    requires
        key@.len() == 16,
    ensures
        r@ == cmac_of(key@, data@),
        r@.len() == 16,
{
    let mut mac = <cmac::Cmac<aes::Aes128> as cmac::Mac>::new_from_slice(key).unwrap();
    cmac::Mac::update(&mut mac, data);
    cmac::Mac::finalize(mac).into_bytes().to_vec()
}

/// 128-bit AES-CMAC keyed with a fixed 16-byte key.
pub struct Cmac {
    key: Vec<u8>,
}

impl Cmac {
    pub closed spec fn wf(&self) -> bool {
        self.key@.len() == 16
    }

    /// The key this instance signs under.
    pub closed spec fn key_view(&self) -> Seq<u8> {
        self.key@
    }

    pub fn new(key: &[u8]) -> (r: Result<Self, CryptoError>)
        ensures
            match r {
                Ok(c) => c.wf() && c.key_view() == key@ && key@.len() == 16,
                Err(e) => key@.len() != 16 && e == CryptoError::Provider,
            },
    {
        if key.len() != 16 {
            return Err(CryptoError::Provider);
        }
        let mut k: Vec<u8> = Vec::new();
        k.extend_from_slice(key);
        proof {
            assert(k@ =~= key@);
        }
        Ok(Self { key: k })
    }

    pub fn sign(&self, data: &[u8]) -> (r: MacTag)
        requires
            self.wf(),
        ensures
            r@ == cmac_of(self.key_view(), data@),
            r@.len() == 16,
    {
        cmac_sign_bytes(self.key.as_slice(), data)
    }

    /// Succeeds exactly when `tag` is the CMAC of `data` under this
    /// key. The comparison scans every byte, so it does not leak the
    /// position of a mismatch.
    pub fn verify(&self, data: &[u8], tag: &[u8]) -> (r: Result<(), CryptoError>)
        requires
            self.wf(),
        ensures
            r is Ok <==> tag@ == cmac_of(self.key_view(), data@),
            r is Err ==> r == Err::<(), CryptoError>(CryptoError::CmacVerificationError),
    {
        let expected = self.sign(data);
        if bytes_eq_ct(expected.as_slice(), tag) {
            Ok(())
        } else {
            Err(CryptoError::CmacVerificationError)
        }
    }
}

} // verus!
