//! The service-provider side of the attestation state machine.
//!
//! The SP holds the RSA signing key, the pinned attestation-service
//! root certificate and the trusted SIGSTRUCT identity. It answers
//! MSG1 with a signed key exchange and MAC'd MSG2, checks MSG3 against
//! the stored transcript, extracts the enclave identity from the quote
//! at its fixed offsets, and decides trust from the service's quote
//! status and the configured allow-lists.

use vstd::prelude::*;
use vstd::string::StringSliceAdditionalSpecFns;

use crate::certificate::X509Cert;
use crate::cmac::{cmac_of, Cmac};
use crate::digest::{sha256, sha256_of, Sha256Digest};
use crate::error::{CryptoError, SpRaError};
use crate::ias::AttestationResponse;
use crate::kdf::{derive_secret_keys, spec_mk, spec_sk, spec_smk, spec_vk};
use crate::key_exchange::{p256_point_valid, spec_kdk, OneWayAuthenticatedDHKE};
use crate::msg::{RaMsg0, RaMsg1, RaMsg2, RaMsg3, RaMsg4};
use crate::signature::{rsa_verifies, SigningKey};
use crate::wire::{append_bytes, bytes_eq, copy_bytes, spec_u16_from_le, u16_from_le};

verus! {

/// The SP configuration, as read from its settings file.
#[derive(Debug)]
pub struct SpConfig {
    pub linkable: bool,
    pub random_nonce: bool,
    pub use_platform_service: bool,
    pub spid: String,
    pub primary_subscription_key: String,
    pub secondary_subscription_key: String,
    pub quote_trust_options: Vec<String>,
    pub pse_trust_options: Option<Vec<String>>,
    pub sp_private_key_pem_path: String,
    pub ias_root_cert_pem_path: String,
    pub sigstruct_path: String,
}

/// The identity fields of the enclave's SIGSTRUCT, as plain values.
#[derive(Debug)]
pub struct Sigstruct {
    /// MRENCLAVE: the enclave measurement (32 bytes).
    pub enclavehash: Vec<u8>,
    /// The signer's RSA modulus; MRSIGNER is its SHA-256.
    pub modulus: Vec<u8>,
    pub isvprodid: u16,
    pub isvsvn: u16,
    /// The enclave attribute flags; bit 1 is DEBUG.
    pub attributes_flags: u64,
}

impl Sigstruct {
    pub open spec fn wf(&self) -> bool {
        self.enclavehash@.len() == 32
    }
}

/// The DEBUG bit of the SGX attribute flags.
pub const ATTRIBUTES_DEBUG_FLAG: u64 = 2;

// ------------------------------------------------------------ hex SPIDs
pub open spec fn spec_is_hex_digit(c: char) -> bool {
    ||| (0x30 <= c as u32 && c as u32 <= 0x39)
    ||| (0x61 <= c as u32 && c as u32 <= 0x66)
    ||| (0x41 <= c as u32 && c as u32 <= 0x46)
}

pub open spec fn spec_hex_val(c: char) -> u8 {
    if 0x30 <= c as u32 && c as u32 <= 0x39 {
        (c as u32 - 0x30) as u8
    } else if 0x61 <= c as u32 && c as u32 <= 0x66 {
        (c as u32 - 0x57) as u8
    } else if 0x41 <= c as u32 && c as u32 <= 0x46 {
        (c as u32 - 0x37) as u8
    } else {
        0
    }
}

pub open spec fn spec_hex_valid(s: Seq<char>) -> bool {
    &&& s.len() % 2 == 0
    &&& forall|i: int| 0 <= i < s.len() ==> spec_is_hex_digit(s[i])
}

pub open spec fn spec_hex_decode(s: Seq<char>) -> Seq<u8>
    decreases s.len(),
{
    if s.len() < 2 {
        Seq::empty()
    } else {
        seq![(spec_hex_val(s[0]) * 16 + spec_hex_val(s[1])) as u8] + spec_hex_decode(s.skip(2))
    }
}

/// Relies on `hex::decode`: it succeeds exactly on even-length strings
/// of hex digits and decodes big-endian digit pairs to bytes.
#[verifier::external_body]
fn hex_decode(s: &str) -> (r: Option<Vec<u8>>)
    ensures
        match r {
            Some(v) => spec_hex_valid(s@) && v@ == spec_hex_decode(s@),
            None => !spec_hex_valid(s@),
        },
{
    hex::decode(s).ok()
}

// --------------------------------------------------------- trust lists
/// Equality of strings, decided on their UTF-8 bytes.
pub fn string_eq(a: &str, b: &str) -> (r: bool)
    ensures
        r == (a@ == b@),
{
    let r = bytes_eq(a.as_bytes(), b.as_bytes());
    proof {
        if a.spec_bytes() == b.spec_bytes() {
            vstd::utf8::encode_utf8_decode_utf8(a@);
            vstd::utf8::encode_utf8_decode_utf8(b@);
        }
    }
    r
}

// ------------------------------------------------- ordered trust lists
/// Lexicographic order on byte strings; statuses are sorted by it.
pub open spec fn spec_bytes_le(a: Seq<u8>, b: Seq<u8>) -> bool
    decreases a.len(),
{
    if a.len() == 0 {
        true
    } else if b.len() == 0 {
        false
    } else if a[0] < b[0] {
        true
    } else if a[0] > b[0] {
        false
    } else {
        spec_bytes_le(a.drop_first(), b.drop_first())
    }
}

pub proof fn lemma_bytes_le_total(a: Seq<u8>, b: Seq<u8>)
    ensures
        spec_bytes_le(a, b) || spec_bytes_le(b, a),
    decreases a.len(),
{
    if a.len() != 0 && b.len() != 0 && a[0] == b[0] {
        lemma_bytes_le_total(a.drop_first(), b.drop_first());
    }
}

pub proof fn lemma_bytes_le_antisym(a: Seq<u8>, b: Seq<u8>)
    requires
        spec_bytes_le(a, b),
        spec_bytes_le(b, a),
    ensures
        a == b,
    decreases a.len(),
{
    if a.len() == 0 {
        assert(b.len() == 0);
        assert(a =~= b);
    } else {
        assert(b.len() != 0);
        assert(a[0] == b[0]);
        lemma_bytes_le_antisym(a.drop_first(), b.drop_first());
        assert forall|i: int| 0 <= i < a.len() implies a[i] == b[i] by {
            if i > 0 {
                assert(a.drop_first()[i - 1] == b.drop_first()[i - 1]);
            }
        }
        assert(a =~= b);
    }
}

pub proof fn lemma_bytes_le_trans(a: Seq<u8>, b: Seq<u8>, c: Seq<u8>)
    requires
        spec_bytes_le(a, b),
        spec_bytes_le(b, c),
    ensures
        spec_bytes_le(a, c),
    decreases a.len(),
{
    if a.len() != 0 {
        assert(b.len() != 0);
        assert(c.len() != 0);
        if a[0] == b[0] && b[0] == c[0] {
            lemma_bytes_le_trans(a.drop_first(), b.drop_first(), c.drop_first());
        }
    }
}

fn bytes_le_from(a: &[u8], b: &[u8], i: usize) -> (r: bool)
    requires
        i <= a@.len(),
        i <= b@.len(),
    ensures
        r == spec_bytes_le(a@.skip(i as int), b@.skip(i as int)),
    decreases a@.len() - i,
{
    if i == a.len() {
        proof {
            assert(a@.skip(i as int).len() == 0);
        }
        true
    } else if i == b.len() {
        proof {
            assert(b@.skip(i as int).len() == 0);
            assert(a@.skip(i as int).len() > 0);
        }
        false
    } else {
        proof {
            assert(a@.skip(i as int)[0] == a@[i as int]);
            assert(b@.skip(i as int)[0] == b@[i as int]);
        }
        if a[i] < b[i] {
            true
        } else if a[i] > b[i] {
            false
        } else {
            let r = bytes_le_from(a, b, i + 1);
            proof {
                assert(a@.skip(i as int).drop_first() =~= a@.skip(i + 1));
                assert(b@.skip(i as int).drop_first() =~= b@.skip(i + 1));
            }
            r
        }
    }
}

/// Order two strings by their UTF-8 bytes.
pub fn str_le(a: &str, b: &str) -> (r: bool)
    ensures
        r == spec_bytes_le(a.spec_bytes(), b.spec_bytes()),
{
    let r = bytes_le_from(a.as_bytes(), b.as_bytes(), 0);
    proof {
        assert(a.spec_bytes().skip(0) =~= a.spec_bytes());
        assert(b.spec_bytes().skip(0) =~= b.spec_bytes());
    }
    r
}

/// The bytes a status is ordered by.
pub open spec fn spec_status_bytes(s: Seq<char>) -> Seq<u8> {
    vstd::utf8::encode_utf8(s)
}

pub open spec fn spec_statuses_sorted(l: Seq<Seq<char>>) -> bool {
    forall|i: int, j: int|
        0 <= i < j < l.len() ==> #[trigger] spec_bytes_le(
            spec_status_bytes(l[i]),
            spec_status_bytes(l[j]),
        )
}

pub open spec fn spec_contains_status(l: Seq<Seq<char>>, s: Seq<char>) -> bool {
    exists|i: int| 0 <= i < l.len() && #[trigger] l[i] == s
}

/// A status is trusted when it is `OK` or stands in the configured
/// allow-list.
pub open spec fn spec_trust_decision(status: Seq<char>, options: Seq<Seq<char>>) -> bool {
    ||| status == "OK"@
    ||| spec_contains_status(options, status)
}

/// Sort statuses by their bytes. The result holds exactly the statuses
/// of the input.
#[verifier::rlimit(100)]
fn sort_statuses(input: &Vec<String>) -> (r: Vec<String>)
    ensures
        spec_statuses_sorted(r.deep_view()),
        r.deep_view().to_multiset() == input.deep_view().to_multiset(),
        forall|s: Seq<char>|
            #[trigger] spec_contains_status(r.deep_view(), s) == spec_contains_status(
                input.deep_view(),
                s,
            ),
{
    let mut out: Vec<String> = Vec::new();
    let mut k: usize = 0;
    proof {
        assert(out.deep_view() =~= input.deep_view().take(0));
    }
    while k < input.len()
        invariant
            0 <= k <= input@.len(),
            spec_statuses_sorted(out.deep_view()),
            out.deep_view().to_multiset() == input.deep_view().take(k as int).to_multiset(),
            forall|s: Seq<char>|
                #[trigger] spec_contains_status(out.deep_view(), s) == spec_contains_status(
                    input.deep_view().take(k as int),
                    s,
                ),
        decreases input@.len() - k,
    {
        let s = input[k].clone();
        let mut j: usize = 0;
        while j < out.len() && str_le(out[j].as_str(), s.as_str())
            invariant
                0 <= j <= out@.len(),
                s@ == input.deep_view()[k as int],
                k < input@.len(),
                forall|i: int|
                    0 <= i < j ==> #[trigger] spec_bytes_le(
                        spec_status_bytes(out.deep_view()[i]),
                        spec_status_bytes(s@),
                    ),
            decreases out@.len() - j,
        {
            j += 1;
        }
        let ghost odv = out.deep_view();
        let ghost jj = j as int;
        out.insert(j, s);
        proof {
            odv.insert_ensures(jj, s@);
            assert(out.deep_view() =~= odv.insert(jj, s@));
            let ndv = out.deep_view();
            // sortedness: everything before j is at most s, everything
            // from j on is at least s
            assert forall|x: int, y: int|
                0 <= x < y < ndv.len() implies #[trigger] spec_bytes_le(
                spec_status_bytes(ndv[x]),
                spec_status_bytes(ndv[y]),
            ) by {
                if x < jj && y == jj {
                } else if x == jj && y > jj {
                    lemma_bytes_le_total(spec_status_bytes(odv[jj]), spec_status_bytes(s@));
                    assert(spec_bytes_le(spec_status_bytes(s@), spec_status_bytes(odv[jj])));
                    if y - 1 > jj {
                        lemma_bytes_le_trans(
                            spec_status_bytes(s@),
                            spec_status_bytes(odv[jj]),
                            spec_status_bytes(odv[y - 1]),
                        );
                    }
                } else if x < jj && y > jj {
                    if jj < odv.len() {
                        lemma_bytes_le_total(spec_status_bytes(odv[jj]), spec_status_bytes(s@));
                    }
                } else {
                }
            }
            // membership: the new list holds the old statuses plus s
            let tk1 = input.deep_view().take(k + 1);
            let tk = input.deep_view().take(k as int);
            assert(tk1 =~= tk.push(s@));
            assert forall|s2: Seq<char>|
                #[trigger] spec_contains_status(ndv, s2) == spec_contains_status(tk1, s2) by {
                if spec_contains_status(ndv, s2) {
                    let i = choose|i: int| 0 <= i < ndv.len() && #[trigger] ndv[i] == s2;
                    if i == jj {
                        assert(tk1[tk.len() as int] == s2);
                    } else if i < jj {
                        assert(odv[i] == s2);
                        assert(spec_contains_status(odv, s2));
                        let i2 = choose|i2: int| 0 <= i2 < tk.len() && #[trigger] tk[i2] == s2;
                        assert(tk1[i2] == s2);
                    } else {
                        assert(odv[i - 1] == s2);
                        assert(spec_contains_status(odv, s2));
                        let i2 = choose|i2: int| 0 <= i2 < tk.len() && #[trigger] tk[i2] == s2;
                        assert(tk1[i2] == s2);
                    }
                }
                if spec_contains_status(tk1, s2) {
                    let i = choose|i: int| 0 <= i < tk1.len() && #[trigger] tk1[i] == s2;
                    if i == tk.len() {
                        assert(ndv[jj] == s2);
                    } else {
                        assert(tk[i] == s2);
                        assert(spec_contains_status(tk, s2));
                        assert(spec_contains_status(odv, s2));
                        let i2 = choose|i2: int| 0 <= i2 < odv.len() && #[trigger] odv[i2] == s2;
                        if i2 < jj {
                            assert(ndv[i2] == s2);
                        } else {
                            assert(ndv[i2 + 1] == s2);
                        }
                    }
                }
            }
            // the sorted list keeps exactly the statuses seen so far
            broadcast use vstd::multiset::group_multiset_axioms;

            let front = odv.subrange(0, jj);
            let back = odv.subrange(jj, odv.len() as int);
            assert(ndv == front.push(s@) + back);
            vstd::seq_lib::lemma_multiset_commutative(front.push(s@), back);
            vstd::seq_lib::lemma_multiset_commutative(front, back);
            vstd::seq_lib::to_multiset_build(front, s@);
            vstd::seq_lib::to_multiset_build(tk, s@);
            assert(odv =~= front + back);
            assert(tk1.to_multiset() =~= tk.to_multiset().insert(s@));
            assert(ndv.to_multiset() =~= tk1.to_multiset());
        }
        k += 1;
    }
    proof {
        assert(input.deep_view().take(k as int) =~= input.deep_view());
    }
    out
}

/// Membership in a sorted status list, by binary search.
fn binary_search_status(list: &Vec<String>, status: &String) -> (r: bool)
    requires
        spec_statuses_sorted(list.deep_view()),
    ensures
        r == spec_contains_status(list.deep_view(), status@),
{
    let ghost dv = list.deep_view();
    let mut lo: usize = 0;
    let mut hi: usize = list.len();
    while lo < hi
        invariant
            0 <= lo <= hi <= dv.len(),
            dv == list.deep_view(),
            spec_statuses_sorted(dv),
            forall|i: int| 0 <= i < lo ==> #[trigger] dv[i] != status@,
            forall|i: int| hi <= i < dv.len() ==> #[trigger] dv[i] != status@,
        decreases hi - lo,
    {
        let mid = lo + (hi - lo) / 2;
        if string_eq(list[mid].as_str(), status.as_str()) {
            proof {
                assert(dv[mid as int] == status@);
            }
            return true;
        }
        if str_le(list[mid].as_str(), status.as_str()) {
            proof {
                let bm = spec_status_bytes(dv[mid as int]);
                let bs = spec_status_bytes(status@);
                assert forall|i: int| 0 <= i <= mid implies #[trigger] dv[i] != status@ by {
                    if dv[i] == status@ {
                        let bi = spec_status_bytes(dv[i]);
                        if i < mid {
                            assert(spec_bytes_le(bi, bm));
                        } else {
                            lemma_bytes_le_total(bi, bi);
                        }
                        assert(bi == bs);
                        lemma_bytes_le_antisym(bi, bm);
                        assert(dv[mid as int] != status@);
                        assert(spec_status_bytes(dv[mid as int]) == bs);
                        vstd::utf8::encode_utf8_decode_utf8(dv[mid as int]);
                        vstd::utf8::encode_utf8_decode_utf8(status@);
                    }
                }
            }
            lo = mid + 1;
        } else {
            proof {
                let bm = spec_status_bytes(dv[mid as int]);
                let bs = spec_status_bytes(status@);
                assert forall|i: int| mid <= i < dv.len() implies #[trigger] dv[i] != status@ by {
                    if dv[i] == status@ {
                        let bi = spec_status_bytes(dv[i]);
                        assert(bi == bs);
                        if (mid as int) < i {
                            assert(spec_bytes_le(bm, bi));
                        } else {
                            lemma_bytes_le_total(bm, bm);
                        }
                    }
                }
            }
            hi = mid;
        }
    }
    proof {
        if spec_contains_status(dv, status@) {
            let i = choose|i: int| 0 <= i < dv.len() && #[trigger] dv[i] == status@;
            assert(false);
        }
    }
    false
}

fn decide_trust(status: &String, options: &Vec<String>) -> (r: bool)
    requires
        spec_statuses_sorted(options.deep_view()),
    ensures
        r == spec_trust_decision(status@, options.deep_view()),
{
    if string_eq(status.as_str(), "OK") {
        return true;
    }
    binary_search_status(options, status)
}

// ------------------------------------------------------ quote identity
/// MRENCLAVE as carried in the quote.
pub open spec fn spec_quote_mrenclave(quote: Seq<u8>) -> Seq<u8> {
    quote.subrange(112, 144)
}

/// MRSIGNER as carried in the quote.
pub open spec fn spec_quote_mrsigner(quote: Seq<u8>) -> Seq<u8> {
    quote.subrange(176, 208)
}

pub open spec fn spec_quote_isvprodid(quote: Seq<u8>) -> u16 {
    spec_u16_from_le(quote[304], quote[305])
}

pub open spec fn spec_quote_isvsvn(quote: Seq<u8>) -> u16 {
    spec_u16_from_le(quote[306], quote[307])
}

/// The report-data digest bound into the quote.
pub open spec fn spec_quote_digest(quote: Seq<u8>) -> Seq<u8> {
    quote.subrange(368, 400)
}

/// The quote's identity equals the configured SIGSTRUCT: MRENCLAVE is
/// the enclavehash, MRSIGNER the SHA-256 of the signer modulus, and the
/// product id and security version match.
pub open spec fn spec_identity_matches(quote: Seq<u8>, sigstruct: &Sigstruct) -> bool {
    &&& spec_quote_mrenclave(quote) == sigstruct.enclavehash@
    &&& spec_quote_mrsigner(quote) == sha256_of(sigstruct.modulus@)
    &&& spec_quote_isvprodid(quote) == sigstruct.isvprodid
    &&& spec_quote_isvsvn(quote) == sigstruct.isvsvn
}

pub open spec fn spec_opt_str_view(o: &Option<String>) -> Option<Seq<char>> {
    match o {
        Some(s) => Some(s@),
        None => None,
    }
}

/// The two symmetric keys the SP keeps after a successful attestation.
pub struct AttestationResult {
    pub epid_pseudonym: Option<String>,
    pub signing_key: Vec<u8>,
    pub master_key: Vec<u8>,
}

/// The SP-side attestation context.
pub struct SpRaContext {
    spid: Vec<u8>,
    quote_type: u16,
    quote_trust_options: Vec<String>,
    pse_trust_options: Option<Vec<String>>,
    sigstruct: Sigstruct,
    mrsigner_digest: Sha256Digest,
    sp_private_key: SigningKey,
    root_ca_cert: X509Cert,
    allow_debug: bool,
    key_exchange: Option<OneWayAuthenticatedDHKE>,
    g_a: Option<Vec<u8>>,
    verification_digest: Option<Sha256Digest>,
    smk: Option<Cmac>,
    sk_mk: Option<(Vec<u8>, Vec<u8>)>,
}

impl SpRaContext {
    pub closed spec fn spid_view(&self) -> Seq<u8> {
        self.spid@
    }

    pub closed spec fn quote_type_spec(&self) -> u16 {
        self.quote_type
    }

    pub closed spec fn quote_trust_view(&self) -> Seq<Seq<char>> {
        self.quote_trust_options.deep_view()
    }

    pub closed spec fn pse_trust_view(&self) -> Option<Seq<Seq<char>>> {
        match self.pse_trust_options {
            Some(ref v) => Some(v.deep_view()),
            None => None,
        }
    }

    pub closed spec fn sigstruct_view(&self) -> Sigstruct {
        self.sigstruct
    }

    pub closed spec fn allow_debug_spec(&self) -> bool {
        self.allow_debug
    }

    /// The public half of the SP's signing key: what MSG2's
    /// `sign_gb_ga` verifies under.
    pub closed spec fn sp_vkey_view(&self) -> Seq<u8> {
        self.sp_private_key.public_view()
    }

    /// The SP's ephemeral public key, fixed at `init`.
    pub closed spec fn g_b_view(&self) -> Seq<u8> {
        self.key_exchange.unwrap().public_view()
    }

    pub closed spec fn g_a_view(&self) -> Seq<u8> {
        self.g_a.unwrap()@
    }

    /// The key of the CMAC instance guarding MSG2 and MSG3.
    pub closed spec fn smk_view(&self) -> Seq<u8> {
        self.smk.unwrap().key_view()
    }

    pub closed spec fn sk_view(&self) -> Seq<u8> {
        self.sk_mk.unwrap().0@
    }

    pub closed spec fn mk_view(&self) -> Seq<u8> {
        self.sk_mk.unwrap().1@
    }

    pub closed spec fn verification_digest_view(&self) -> Seq<u8> {
        self.verification_digest.unwrap()@
    }

    pub closed spec fn root_ca_view(&self) -> Seq<u8> {
        self.root_ca_cert.der_view()
    }

    pub closed spec fn wf(&self) -> bool {
        &&& self.spid@.len() == 16
        &&& self.sigstruct.wf()
        &&& self.mrsigner_digest@ == sha256_of(self.sigstruct.modulus@)
        &&& self.root_ca_cert.wf()
        &&& match self.key_exchange {
            Some(ref kx) => kx.wf(),
            None => true,
        }
        &&& match self.g_a {
            Some(ref v) => v@.len() == 65,
            None => true,
        }
        &&& match self.verification_digest {
            Some(ref v) => v@.len() == 32,
            None => true,
        }
        &&& match self.smk {
            Some(ref c) => c.wf(),
            None => true,
        }
        &&& spec_statuses_sorted(self.quote_trust_options.deep_view())
        &&& match self.pse_trust_options {
            Some(ref v) => spec_statuses_sorted(v.deep_view()),
            None => true,
        }
    }

    /// Fresh context: the ephemeral pair exists, no peer state yet.
    pub closed spec fn awaiting_msg1(&self) -> bool {
        &&& self.key_exchange is Some
        &&& self.g_a is None
        &&& self.smk is None
        &&& self.sk_mk is None
        &&& self.verification_digest is None
    }

    /// After MSG1: transcript digest and derived keys are pinned.
    pub closed spec fn awaiting_msg3(&self) -> bool {
        &&& self.key_exchange is None
        &&& self.g_a is Some
        &&& self.smk is Some
        &&& self.sk_mk is Some
        &&& self.verification_digest is Some
    }

    /// Build the context: decode the SPID, fix the quote type, generate
    /// the ephemeral pair, and precompute MRSIGNER from the SIGSTRUCT.
    ///
    /// Only linkable quotes without platform services are supported;
    /// `allow_debug` says whether a DEBUG-attribute enclave is
    /// tolerated (a debug build of the verifier).
    pub fn init(
        config: SpConfig,
        sp_private_key: SigningKey,
        root_ca_cert: X509Cert,
        sigstruct: Sigstruct,
        allow_debug: bool,
    ) -> (r: Result<Self, SpRaError>)
        requires
            config.linkable,
            !config.random_nonce,
            !config.use_platform_service,
            root_ca_cert.wf(),
            sigstruct.wf(),
        ensures
            match r {
                Ok(ctx) => {
                    &&& spec_hex_valid(config.spid@)
                    &&& spec_hex_decode(config.spid@).len() == 16
                    &&& ctx.wf()
                    &&& ctx.awaiting_msg1()
                    &&& ctx.spid_view() == spec_hex_decode(config.spid@)
                    &&& ctx.quote_type_spec() == 1
                    &&& spec_statuses_sorted(ctx.quote_trust_view())
                    &&& ctx.quote_trust_view().to_multiset()
                        == config.quote_trust_options.deep_view().to_multiset()
                    &&& forall|s: Seq<char>|
                        #[trigger] spec_contains_status(ctx.quote_trust_view(), s)
                            == spec_contains_status(config.quote_trust_options.deep_view(), s)
                    &&& match config.pse_trust_options {
                        Some(ref v) => ctx.pse_trust_view() is Some && spec_statuses_sorted(
                            ctx.pse_trust_view().unwrap(),
                        ) && ctx.pse_trust_view().unwrap().to_multiset()
                            == v.deep_view().to_multiset() && forall|s: Seq<char>|
                            #[trigger] spec_contains_status(ctx.pse_trust_view().unwrap(), s)
                                == spec_contains_status(v.deep_view(), s),
                        None => ctx.pse_trust_view() is None,
                    }
                    &&& ctx.sp_vkey_view() == sp_private_key.public_view()
                    &&& ctx.sigstruct_view() == sigstruct
                    &&& ctx.allow_debug_spec() == allow_debug
                    &&& ctx.root_ca_view() == root_ca_cert.der_view()
                    &&& ctx.g_b_view().len() == 65
                },
                Err(SpRaError::BadConfiguration) => !(spec_hex_valid(config.spid@)
                    && spec_hex_decode(config.spid@).len() == 16),
                Err(SpRaError::Crypto(_)) => true,
                Err(_) => false,
            },
    {
        let spid = match hex_decode(config.spid.as_str()) {
            Some(v) => v,
            None => {
                return Err(SpRaError::BadConfiguration);
            },
        };
        if spid.len() != 16 {
            return Err(SpRaError::BadConfiguration);
        }
        let quote_type: u16 = if config.linkable {
            1
        } else {
            0
        };
        let key_exchange = match OneWayAuthenticatedDHKE::generate_keypair() {
            Ok(kx) => kx,
            Err(e) => {
                return Err(SpRaError::Crypto(e));
            },
        };
        let mrsigner_digest = sha256(sigstruct.modulus.as_slice());

        // The allow-lists are sorted once here; membership later is by
        // binary search.
        let quote_trust_options = sort_statuses(&config.quote_trust_options);
        let pse_trust_options = match &config.pse_trust_options {
            Some(v) => Some(sort_statuses(v)),
            None => None,
        };
        Ok(Self {
            spid,
            quote_type,
            quote_trust_options,
            pse_trust_options,
            sigstruct,
            mrsigner_digest,
            sp_private_key,
            root_ca_cert,
            allow_debug,
            key_exchange: Some(key_exchange),
            g_a: None,
            verification_digest: None,
            smk: None,
            sk_mk: None,
        })
    }

    /// The pinned attestation-service root, for report verification.
    pub fn root_ca_cert(&self) -> (r: &X509Cert)
        ensures
            r.der_view() == self.root_ca_view(),
            self.wf() ==> r.wf(),
    {
        &self.root_ca_cert
    }

    /// MSG0 selects the attestation mode; only the IAS mode (0) exists.
    pub fn process_msg_0(&self, msg0: &RaMsg0) -> (r: Result<(), SpRaError>)
        ensures
            r is Ok <==> msg0.exgid == 0,
            r is Err ==> r == Err::<(), SpRaError>(SpRaError::UnsupportedExtendedEpidGroup),
    {
        if msg0.exgid == 0 {
            Ok(())
        } else {
            Err(SpRaError::UnsupportedExtendedEpidGroup)
        }
    }

    /// Answer MSG1: sign `g_b || g_a`, derive the KDK and its children,
    /// pin the transcript digest `SHA-256(g_a || g_b || VK)`, and build
    /// MSG2 with its MAC under SMK.
    pub fn process_msg_1(&mut self, msg1: &RaMsg1, sig_rl: Option<Vec<u8>>) -> (r: Result<
        RaMsg2,
        SpRaError,
    >)
        requires
            old(self).wf(),
            old(self).awaiting_msg1(),
            msg1.wf(),
        ensures
            match r {
                Ok(m2) => ({
                    let kdk = spec_kdk(old(self).g_b_view(), msg1.g_a@);
                    &&& kdk == spec_kdk(msg1.g_a@, old(self).g_b_view())
                    &&& p256_point_valid(msg1.g_a@)
                    &&& m2.wf()
                    &&& m2.g_b@ == old(self).g_b_view()
                    &&& m2.spid@ == old(self).spid_view()
                    &&& m2.quote_type == old(self).quote_type_spec()
                    &&& m2.sig_rl == sig_rl
                    &&& rsa_verifies(
                        old(self).sp_vkey_view(),
                        old(self).g_b_view() + msg1.g_a@,
                        m2.sign_gb_ga@,
                    )
                    &&& m2.mac@ == cmac_of(spec_smk(kdk), m2.mac_input())
                    &&& final(self).wf()
                    &&& final(self).awaiting_msg3()
                    &&& final(self).smk_view() == spec_smk(kdk)
                    &&& final(self).sk_view() == spec_sk(kdk)
                    &&& final(self).mk_view() == spec_mk(kdk)
                    &&& final(self).g_a_view() == msg1.g_a@
                    &&& final(self).verification_digest_view() == sha256_of(
                        msg1.g_a@ + old(self).g_b_view() + spec_vk(kdk),
                    )
                    &&& final(self).spid_view() == old(self).spid_view()
                    &&& final(self).quote_type_spec() == old(self).quote_type_spec()
                    &&& final(self).quote_trust_view() == old(self).quote_trust_view()
                    &&& final(self).pse_trust_view() == old(self).pse_trust_view()
                    &&& final(self).sigstruct_view() == old(self).sigstruct_view()
                    &&& final(self).allow_debug_spec() == old(self).allow_debug_spec()
                    &&& final(self).root_ca_view() == old(self).root_ca_view()
                    &&& final(self).sp_vkey_view() == old(self).sp_vkey_view()
                }),
                Err(e) => e matches SpRaError::Crypto(_),
            },
    {
        let key_exchange = match self.key_exchange.take() {
            Some(kx) => kx,
            None => {
                return Err(SpRaError::Crypto(CryptoError::Provider));
            },
        };
        let g_b = key_exchange.get_public_key();

        // Sign g_b || g_a and derive the KDK; the exponent is consumed.
        let (kdk, sign_gb_ga) = match key_exchange.sign_and_derive(
            &msg1.g_a,
            &self.sp_private_key,
        ) {
            Ok(p) => p,
            Err(e) => {
                return Err(SpRaError::Crypto(e));
            },
        };
        let kdk_cmac = match Cmac::new(kdk.as_slice()) {
            Ok(c) => c,
            Err(e) => {
                return Err(SpRaError::Crypto(e));
            },
        };
        let (smk, sk, mk, vk) = match derive_secret_keys(&kdk_cmac) {
            Ok(t) => t,
            Err(e) => {
                return Err(SpRaError::Crypto(e));
            },
        };
        let smk_cmac = match Cmac::new(smk.as_slice()) {
            Ok(c) => c,
            Err(e) => {
                return Err(SpRaError::Crypto(e));
            },
        };

        // SHA-256(g_a || g_b || VK) binds the transcript to the quote.
        let mut verification_msg: Vec<u8> = Vec::new();
        append_bytes(&mut verification_msg, msg1.g_a.as_slice());
        append_bytes(&mut verification_msg, g_b.as_slice());
        append_bytes(&mut verification_msg, vk.as_slice());
        let verification_digest = sha256(verification_msg.as_slice());

        self.smk = Some(smk_cmac);
        self.sk_mk = Some((sk, mk));
        self.verification_digest = Some(verification_digest);
        self.g_a = Some(copy_bytes(msg1.g_a.as_slice(), 0, msg1.g_a.len()));
        proof {
            assert(msg1.g_a@.subrange(0, msg1.g_a@.len() as int) =~= msg1.g_a@);
        }

        let spid = copy_bytes(self.spid.as_slice(), 0, self.spid.len());
        proof {
            assert(self.spid@.subrange(0, self.spid@.len() as int) =~= self.spid@);
        }
        match RaMsg2::new(
            self.smk.as_ref().unwrap(),
            g_b,
            spid,
            self.quote_type,
            sign_gb_ga,
            sig_rl,
        ) {
            Ok(m2) => Ok(m2),
            Err(e) => Err(SpRaError::Crypto(e)),
        }
    }

    /// The integrity checks of MSG3 alone: the `g_a` echo, the MAC
    /// under SMK, the report-data binding. All three fail as one
    /// integrity error, which does not say which check failed. The
    /// driver runs this before the quote is posted to the attestation
    /// service; `process_msg_3` re-checks.
    pub fn check_msg3(&self, msg3: &RaMsg3) -> (r: Result<(), SpRaError>)
        requires
            self.wf(),
            self.awaiting_msg3(),
            msg3.wf(),
        ensures
            r is Ok <==> {
                &&& msg3.g_a@ == self.g_a_view()
                &&& msg3.mac@ == cmac_of(self.smk_view(), msg3.mac_input())
                &&& spec_quote_digest(msg3.quote@) == self.verification_digest_view()
            },
            r is Err ==> r == Err::<(), SpRaError>(SpRaError::IntegrityError),
    {
        let g_a = self.g_a.as_ref().unwrap();
        if !bytes_eq(msg3.g_a.as_slice(), g_a.as_slice()) {
            return Err(SpRaError::IntegrityError);
        }
        match msg3.verify_mac(self.smk.as_ref().unwrap()) {
            Ok(()) => {},
            Err(_) => {
                return Err(SpRaError::IntegrityError);
            },
        }
        let quote_digest = copy_bytes(msg3.quote.as_slice(), 368, 400);
        if !bytes_eq(quote_digest.as_slice(), self.verification_digest.as_ref().unwrap()
            .as_slice()) {
            return Err(SpRaError::IntegrityError);
        }
        Ok(())
    }

    /// Check MSG3 and decide trust. The integrity checks (the `g_a`
    /// echo, the MAC under SMK, the report-data binding) come first and
    /// fail as one integrity error; then the quote's identity is held
    /// against the SIGSTRUCT; then the DEBUG attribute; finally MSG4
    /// carries the trust decision computed from the service's statuses
    /// and the allow-lists.
    pub fn process_msg_3(&self, msg3: &RaMsg3, response: &AttestationResponse) -> (r: Result<
        (RaMsg4, Option<String>),
        SpRaError,
    >)
        requires
            self.wf(),
            self.awaiting_msg3(),
            msg3.wf(),
            response.pse_manifest_status is Some ==> self.pse_trust_view() is Some,
        ensures
            ({
                let integrity_ok = {
                    &&& msg3.g_a@ == self.g_a_view()
                    &&& msg3.mac@ == cmac_of(self.smk_view(), msg3.mac_input())
                    &&& spec_quote_digest(msg3.quote@) == self.verification_digest_view()
                };
                let identity_ok = spec_identity_matches(msg3.quote@, &self.sigstruct_view());
                let debug_ok = self.allow_debug_spec() || (self.sigstruct_view().attributes_flags
                    & ATTRIBUTES_DEBUG_FLAG) == 0;
                match r {
                    Ok((msg4, pseudonym)) => {
                        &&& integrity_ok
                        &&& identity_ok
                        &&& debug_ok
                        &&& msg4.is_enclave_trusted == spec_trust_decision(
                            response.isv_enclave_quote_status@,
                            self.quote_trust_view(),
                        )
                        &&& match response.pse_manifest_status {
                            Some(ref s) => msg4.is_pse_manifest_trusted == Some(
                                spec_trust_decision(s@, self.pse_trust_view().unwrap()),
                            ),
                            None => msg4.is_pse_manifest_trusted is None,
                        }
                        &&& spec_opt_str_view(&msg4.pib) == spec_opt_str_view(
                            &response.platform_info_blob,
                        )
                        &&& spec_opt_str_view(&pseudonym) == spec_opt_str_view(
                            &response.epid_pseudonym,
                        )
                    },
                    Err(SpRaError::IntegrityError) => !integrity_ok,
                    Err(SpRaError::SigstructMismatched) => integrity_ok && !identity_ok,
                    Err(SpRaError::EnclaveInDebugMode) => integrity_ok && identity_ok
                        && !debug_ok,
                    Err(_) => false,
                }
            }),
    {
        // Integrity: the echoed g_a, the MAC, the report-data binding.
        match self.check_msg3(msg3) {
            Ok(()) => {},
            Err(e) => {
                return Err(e);
            },
        }

        // Identity: the quote's measurement fields against the SIGSTRUCT.
        let mrenclave = copy_bytes(msg3.quote.as_slice(), 112, 144);
        let mrsigner = copy_bytes(msg3.quote.as_slice(), 176, 208);
        let isvprodid = u16_from_le(msg3.quote[304], msg3.quote[305]);
        let isvsvn = u16_from_le(msg3.quote[306], msg3.quote[307]);
        if !bytes_eq(mrenclave.as_slice(), self.sigstruct.enclavehash.as_slice()) || !bytes_eq(
            mrsigner.as_slice(),
            self.mrsigner_digest.as_slice(),
        ) || isvprodid != self.sigstruct.isvprodid || isvsvn != self.sigstruct.isvsvn {
            return Err(SpRaError::SigstructMismatched);
        }

        // A DEBUG enclave is refused unless this verifier tolerates it.
        if !self.allow_debug && (self.sigstruct.attributes_flags & ATTRIBUTES_DEBUG_FLAG) != 0 {
            return Err(SpRaError::EnclaveInDebugMode);
        }

        // Trust decision from the service statuses.
        let is_enclave_trusted = decide_trust(
            &response.isv_enclave_quote_status,
            &self.quote_trust_options,
        );
        let is_pse_manifest_trusted = match &response.pse_manifest_status {
            Some(status) => Some(
                decide_trust(status, self.pse_trust_options.as_ref().unwrap()),
            ),
            None => None,
        };
        let pib = match &response.platform_info_blob {
            Some(s) => Some(s.clone()),
            None => None,
        };
        let pseudonym = match &response.epid_pseudonym {
            Some(s) => Some(s.clone()),
            None => None,
        };
        Ok((RaMsg4 { is_enclave_trusted, is_pse_manifest_trusted, pib }, pseudonym))
    }

    /// Hand out SK and MK once MSG4 is sent; the context keeps nothing.
    pub fn take_keys(&mut self) -> (r: Result<(Vec<u8>, Vec<u8>), SpRaError>)
        requires
            old(self).wf(),
            old(self).awaiting_msg3(),
        ensures
            match r {
                Ok((sk, mk)) => {
                    &&& sk@ == old(self).sk_view()
                    &&& mk@ == old(self).mk_view()
                    &&& final(self).wf()
                },
                Err(_) => false,
            },
    {
        match self.sk_mk.take() {
            Some(p) => Ok(p),
            None => Err(SpRaError::IntegrityError),
        }
    }
}

} // verus!
