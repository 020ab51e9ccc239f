//! The attestation messages MSG0 through MSG4 and their MAC transcripts.
//!
//! MSG2 and MSG3 carry an AES-128-CMAC tag under SMK over a canonical
//! transcript of their fields. The transcripts are defined as spec
//! functions, proved injective in the MAC-covered fields, and the
//! constructors and checkers are specified exactly against them.

use vstd::prelude::*;

use crate::cmac::{cmac_of, Cmac, MacTag};
use crate::error::CryptoError;
use crate::wire::{append_bytes, lemma_u16_le_roundtrip, spec_u16_le, u16_le};

verus! {

pub const GID_LEN: usize = 4;

pub const SPID_LEN: usize = 16;

pub const PS_SEC_PROP_LEN: usize = 256;

pub const QUOTE_LEN: usize = 1116;

pub const DHKE_PUBKEY_LEN: usize = 65;

/// 4-byte EPID group identifier.
pub type Gid = Vec<u8>;

/// 16-byte service-provider identifier.
pub type Spid = Vec<u8>;

/// 256-byte platform-services security property descriptor.
pub type PsSecPropDesc = Vec<u8>;

/// 1116-byte EPID quote, opaque but for fixed offsets.
pub type Quote = Vec<u8>;

/// 65-byte uncompressed P-256 point (0x04 || X || Y).
pub type DHKEPublicKey = Vec<u8>;

/// RSA signature; its length is the modulus byte length.
pub type Signature = Vec<u8>;

/// MSG0: extended EPID group selection. Zero selects IAS-based
/// attestation, the only supported mode.
#[derive(Debug)]
pub struct RaMsg0 {
    pub exgid: u32,
}

/// MSG1 (client to SP): platform group id and the enclave's ephemeral
/// public key.
pub struct RaMsg1 {
    pub gid: Gid,
    pub g_a: DHKEPublicKey,
}

impl RaMsg1 {
    pub open spec fn wf(&self) -> bool {
        &&& self.gid@.len() == 4
        &&& self.g_a@.len() == 65
    }
}

/// MSG2 (SP to enclave): the SP's ephemeral key, signed key exchange,
/// and MAC over the transcript under SMK.
pub struct RaMsg2 {
    pub g_b: DHKEPublicKey,
    pub spid: Spid,
    /// 0 selects an unlinkable quote, 1 a linkable quote.
    pub quote_type: u16,
    pub sign_gb_ga: Signature,
    pub mac: MacTag,
    pub sig_rl: Option<Vec<u8>>,
}

/// The MAC transcript of MSG2:
/// `a = g_b || spid || quote_type (LE u16) || sign_gb_ga`.
pub open spec fn msg2_mac_input(g_b: Seq<u8>, spid: Seq<u8>, quote_type: u16, sign_gb_ga: Seq<u8>) -> Seq<u8> {
    g_b + spid + spec_u16_le(quote_type) + sign_gb_ga
}

impl RaMsg2 {
    pub open spec fn wf(&self) -> bool {
        &&& self.g_b@.len() == 65
        &&& self.spid@.len() == 16
        &&& self.mac@.len() == 16
    }

    /// The transcript this message's MAC covers.
    pub open spec fn mac_input(&self) -> Seq<u8> {
        msg2_mac_input(self.g_b@, self.spid@, self.quote_type, self.sign_gb_ga@)
    }

    /// Assemble MSG2 and tag its transcript under SMK.
    pub fn new(
        smk: &Cmac,
        g_b: DHKEPublicKey,
        spid: Spid,
        quote_type: u16,
        sign_gb_ga: Signature,
        sig_rl: Option<Vec<u8>>,
    ) -> (r: Result<Self, CryptoError>)
        requires
            smk.wf(),
            g_b@.len() == 65,
            spid@.len() == 16,
        ensures
            match r {
                Ok(m) => {
                    &&& m.wf()
                    &&& m.g_b@ == g_b@
                    &&& m.spid@ == spid@
                    &&& m.quote_type == quote_type
                    &&& m.sign_gb_ga@ == sign_gb_ga@
                    &&& m.sig_rl == sig_rl
                    &&& m.mac@ == cmac_of(smk.key_view(), m.mac_input())
                },
                Err(_) => false,
            },
    {
        let mut msg2 = Self { g_b, spid, quote_type, sign_gb_ga, mac: Vec::new(), sig_rl };
        let a = msg2.get_a();
        msg2.mac = smk.sign(a.as_slice());
        Ok(msg2)
    }

    /// Succeeds exactly when the carried MAC is the CMAC of the
    /// transcript under SMK.
    pub fn verify_mac(&self, smk: &Cmac) -> (r: Result<(), CryptoError>)
        requires
            smk.wf(),
        ensures
            r is Ok <==> self.mac@ == cmac_of(smk.key_view(), self.mac_input()),
            r is Err ==> r == Err::<(), CryptoError>(CryptoError::CmacVerificationError),
    {
        let a = self.get_a();
        smk.verify(a.as_slice(), self.mac.as_slice())
    }

    fn get_a(&self) -> (r: Vec<u8>)
        ensures
            r@ == self.mac_input(),
    {
        let mut a: Vec<u8> = Vec::new();
        append_bytes(&mut a, self.g_b.as_slice());
        append_bytes(&mut a, self.spid.as_slice());
        let qt = u16_le(self.quote_type);
        append_bytes(&mut a, qt.as_slice());
        append_bytes(&mut a, self.sign_gb_ga.as_slice());
        a
    }
}

/// Two MSG2 instances with equal transcripts agree on every MAC-covered
/// field: the transcript encoding is injective.
pub proof fn lemma_msg2_mac_input_injective(a: RaMsg2, b: RaMsg2)
    requires
        a.wf(),
        b.wf(),
        a.mac_input() == b.mac_input(),
    ensures
        a.g_b@ == b.g_b@,
        a.spid@ == b.spid@,
        a.quote_type == b.quote_type,
        a.sign_gb_ga@ == b.sign_gb_ga@,
{
    let ta = a.mac_input();
    let tb = b.mac_input();
    assert(a.g_b@ =~= ta.subrange(0, 65));
    assert(b.g_b@ =~= tb.subrange(0, 65));
    assert(a.spid@ =~= ta.subrange(65, 81));
    assert(b.spid@ =~= tb.subrange(65, 81));
    assert(spec_u16_le(a.quote_type) =~= ta.subrange(81, 83));
    assert(spec_u16_le(b.quote_type) =~= tb.subrange(81, 83));
    lemma_u16_le_roundtrip(a.quote_type);
    lemma_u16_le_roundtrip(b.quote_type);
    assert(a.sign_gb_ga@ =~= ta.subrange(83, ta.len() as int));
    assert(b.sign_gb_ga@ =~= tb.subrange(83, tb.len() as int));
}

/// The 256-byte platform-services descriptor carried inside MSG3.
pub struct PsSecPropDescInternal {
    pub inner: PsSecPropDesc,
}

/// MSG3 (enclave to SP): the enclave's key echo, optional platform
/// properties, the quote, and a MAC under SMK.
pub struct RaMsg3 {
    pub mac: MacTag,
    pub g_a: DHKEPublicKey,
    pub ps_sec_prop: Option<PsSecPropDescInternal>,
    pub quote: Quote,
}

/// The MAC transcript of MSG3:
/// `m = g_a || [ps_sec_prop if present] || quote`.
pub open spec fn msg3_mac_input(g_a: Seq<u8>, ps_sec_prop: Option<Seq<u8>>, quote: Seq<u8>) -> Seq<u8> {
    match ps_sec_prop {
        Some(ps) => g_a + ps + quote,
        None => g_a + quote,
    }
}

pub open spec fn spec_ps_view(ps: &Option<PsSecPropDescInternal>) -> Option<Seq<u8>> {
    match ps {
        Some(p) => Some(p.inner@),
        None => None,
    }
}

impl RaMsg3 {
    pub open spec fn wf(&self) -> bool {
        &&& self.mac@.len() == 16
        &&& self.g_a@.len() == 65
        &&& match self.ps_sec_prop {
            Some(ref p) => p.inner@.len() == 256,
            None => true,
        }
        &&& self.quote@.len() == 1116
    }

    /// The transcript this message's MAC covers.
    pub open spec fn mac_input(&self) -> Seq<u8> {
        msg3_mac_input(self.g_a@, spec_ps_view(&self.ps_sec_prop), self.quote@)
    }

    /// Assemble MSG3 and tag its transcript under SMK.
    pub fn new(
        smk: &Cmac,
        g_a: DHKEPublicKey,
        ps_sec_prop: Option<PsSecPropDesc>,
        quote: Quote,
    ) -> (r: Result<Self, CryptoError>)
        requires
            smk.wf(),
            g_a@.len() == 65,
            match ps_sec_prop {
                Some(ref p) => p@.len() == 256,
                None => true,
            },
            quote@.len() == 1116,
        ensures
            match r {
                Ok(m) => {
                    &&& m.wf()
                    &&& m.g_a@ == g_a@
                    &&& spec_ps_view(&m.ps_sec_prop) == match ps_sec_prop {
                        Some(ref p) => Some::<Seq<u8>>(p@),
                        None => None::<Seq<u8>>,
                    }
                    &&& m.quote@ == quote@
                    &&& m.mac@ == cmac_of(smk.key_view(), m.mac_input())
                },
                Err(_) => false,
            },
    {
        let ps_sec_prop = match ps_sec_prop {
            Some(v) => Some(PsSecPropDescInternal { inner: v }),
            None => None,
        };
        let mut msg3 = Self { mac: Vec::new(), g_a, ps_sec_prop, quote };
        let m = msg3.get_m();
        msg3.mac = smk.sign(m.as_slice());
        Ok(msg3)
    }

    /// Succeeds exactly when the carried MAC is the CMAC of the
    /// transcript under SMK.
    pub fn verify_mac(&self, smk: &Cmac) -> (r: Result<(), CryptoError>)
        requires
            smk.wf(),
        ensures
            r is Ok <==> self.mac@ == cmac_of(smk.key_view(), self.mac_input()),
            r is Err ==> r == Err::<(), CryptoError>(CryptoError::CmacVerificationError),
    {
        let m = self.get_m();
        smk.verify(m.as_slice(), self.mac.as_slice())
    }

    /// The transcript bytes the MSG3 MAC is computed over.
    pub fn get_m(&self) -> (r: Vec<u8>)
        ensures
            r@ == self.mac_input(),
    {
        let mut m: Vec<u8> = Vec::new();
        append_bytes(&mut m, self.g_a.as_slice());
        match &self.ps_sec_prop {
            Some(p) => {
                append_bytes(&mut m, p.inner.as_slice());
            },
            None => {},
        }
        append_bytes(&mut m, self.quote.as_slice());
        m
    }
}

/// Two MSG3 instances with equal transcripts agree on every MAC-covered
/// field: the transcript encoding is injective. The two shapes (with and
/// without the descriptor) yield different transcript lengths, so they
/// never collide.
pub proof fn lemma_msg3_mac_input_injective(a: RaMsg3, b: RaMsg3)
    requires
        a.wf(),
        b.wf(),
        a.mac_input() == b.mac_input(),
    ensures
        a.g_a@ == b.g_a@,
        spec_ps_view(&a.ps_sec_prop) == spec_ps_view(&b.ps_sec_prop),
        a.quote@ == b.quote@,
{
    let ta = a.mac_input();
    let tb = b.mac_input();
    match (a.ps_sec_prop, b.ps_sec_prop) {
        (Some(pa), Some(pb)) => {
            assert(a.g_a@ =~= ta.subrange(0, 65));
            assert(b.g_a@ =~= tb.subrange(0, 65));
            assert(pa.inner@ =~= ta.subrange(65, 321));
            assert(pb.inner@ =~= tb.subrange(65, 321));
            assert(a.quote@ =~= ta.subrange(321, 1437));
            assert(b.quote@ =~= tb.subrange(321, 1437));
        },
        (None, None) => {
            assert(a.g_a@ =~= ta.subrange(0, 65));
            assert(b.g_a@ =~= tb.subrange(0, 65));
            assert(a.quote@ =~= ta.subrange(65, 1181));
            assert(b.quote@ =~= tb.subrange(65, 1181));
        },
        (Some(_), None) => {
            assert(ta.len() == 1437);
            assert(tb.len() == 1181);
        },
        (None, Some(_)) => {
            assert(ta.len() == 1181);
            assert(tb.len() == 1437);
        },
    }
}

/// MSG4 (SP to enclave): the trust decision and an optional platform
/// info blob.
#[derive(Debug)]
pub struct RaMsg4 {
    pub is_enclave_trusted: bool,
    pub is_pse_manifest_trusted: Option<bool>,
    pub pib: Option<String>,
}

impl RaMsg4 {
    /// The platform info blob, when present, is an ASCII hex string.
    pub open spec fn wf(&self) -> bool {
        match self.pib {
            Some(ref s) => vstd::utf8::is_ascii_chars(s@),
            None => true,
        }
    }
}

} // verus!
