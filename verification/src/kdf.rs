//! Derivation of the four child keys SMK, SK, MK and VK from the KDK.
//!
//! Each key is the AES-128-CMAC, under the KDK, of a short label string:
//! `0x01 || label || 0x00 || 0x80 0x00` with label the ASCII bytes of
//! "SMK", "SK", "MK" or "VK".

use vstd::prelude::*;

use crate::cmac::{cmac_of, Cmac, MacTag};
use crate::error::CryptoError;

verus! {

pub open spec fn smk_label() -> Seq<u8> {
    seq![0x01u8, 0x53u8, 0x4du8, 0x4bu8, 0x00u8, 0x80u8, 0x00u8]
}

pub open spec fn sk_label() -> Seq<u8> {
    seq![0x01u8, 0x53u8, 0x4bu8, 0x00u8, 0x80u8, 0x00u8]
}

pub open spec fn mk_label() -> Seq<u8> {
    seq![0x01u8, 0x4du8, 0x4bu8, 0x00u8, 0x80u8, 0x00u8]
}

pub open spec fn vk_label() -> Seq<u8> {
    seq![0x01u8, 0x56u8, 0x4bu8, 0x00u8, 0x80u8, 0x00u8]
}

pub open spec fn spec_smk(kdk: Seq<u8>) -> Seq<u8> {
    cmac_of(kdk, smk_label())
}

pub open spec fn spec_sk(kdk: Seq<u8>) -> Seq<u8> {
    cmac_of(kdk, sk_label())
}

pub open spec fn spec_mk(kdk: Seq<u8>) -> Seq<u8> {
    cmac_of(kdk, mk_label())
}

pub open spec fn spec_vk(kdk: Seq<u8>) -> Seq<u8> {
    cmac_of(kdk, vk_label())
}

/// Derive (SMK, SK, MK, VK) from a CMAC instance keyed with the KDK.
///
/// Each child key is a function of the KDK alone, so the derivation is
/// stable: two runs over equal KDKs yield equal keys.
pub fn derive_secret_keys(kdk: &Cmac) -> (r: Result<(MacTag, MacTag, MacTag, MacTag), CryptoError>)
    requires
        kdk.wf(),
    ensures
        match r {
            Ok((smk, sk, mk, vk)) => {
                &&& smk@ == spec_smk(kdk.key_view())
                &&& sk@ == spec_sk(kdk.key_view())
                &&& mk@ == spec_mk(kdk.key_view())
                &&& vk@ == spec_vk(kdk.key_view())
                &&& smk@.len() == 16
                &&& sk@.len() == 16
                &&& mk@.len() == 16
                &&& vk@.len() == 16
            },
            Err(_) => false,
        },
{
    let smk_data: Vec<u8> = vec![0x01, 0x53, 0x4d, 0x4b, 0x00, 0x80, 0x00];
    proof {
        assert(smk_data@ =~= smk_label());
    }
    let smk = kdk.sign(smk_data.as_slice());

    let sk_data: Vec<u8> = vec![0x01, 0x53, 0x4b, 0x00, 0x80, 0x00];
    proof {
        assert(sk_data@ =~= sk_label());
    }
    let sk = kdk.sign(sk_data.as_slice());

    let mk_data: Vec<u8> = vec![0x01, 0x4d, 0x4b, 0x00, 0x80, 0x00];
    proof {
        assert(mk_data@ =~= mk_label());
    }
    let mk = kdk.sign(mk_data.as_slice());

    let vk_data: Vec<u8> = vec![0x01, 0x56, 0x4b, 0x00, 0x80, 0x00];
    proof {
        assert(vk_data@ =~= vk_label());
    }
    let vk = kdk.sign(vk_data.as_slice());

    Ok((smk, sk, mk, vk))
}

} // verus!
