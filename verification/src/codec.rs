//! Canonical binary encoding of MSG0 through MSG4.
//!
//! Integers are little-endian; a byte string is its 8-byte little-endian
//! length followed by its bytes; an option is one tag byte (0 or 1)
//! followed, when 1, by the value. Fixed-size fields (gid, spid, MAC
//! tags, the platform descriptor, the quote) are written raw.
//!
//! Each message has a spec-level serialization, an executable serializer
//! and deserializer specified exactly against it, a validity predicate
//! that the deserializer decides, and lemmas showing the encoding is
//! injective and that every serialization parses back (the round trip).

use vstd::prelude::*;

use crate::msg::{RaMsg0, RaMsg1, RaMsg2, RaMsg3, RaMsg4};
use crate::wire::{
    copy_bytes, lemma_u32_le_bytes_roundtrip, lemma_u64_le_bytes_roundtrip, spec_u16_le,
    spec_u32_le, spec_u64_from_le, spec_u64_le, u16_from_le, u32_from_le, u32_le, u64_from_le_at,
    u64_le, append_bytes,
};

verus! {

pub open spec fn spec_bool_byte(b: bool) -> u8 {
    if b {
        1u8
    } else {
        0u8
    }
}

/// A length-prefixed byte string: 8-byte little-endian length, then data.
pub open spec fn spec_vec_bytes(v: Seq<u8>) -> Seq<u8>
    recommends
        v.len() < 0x1_0000_0000_0000_0000,
{
    spec_u64_le(v.len() as u64) + v
}

pub open spec fn spec_opt_view(o: &Option<Vec<u8>>) -> Option<Seq<u8>> {
    match o {
        Some(v) => Some(v@),
        None => None,
    }
}

// ------------------------------------------------------------------ MSG0
pub open spec fn spec_serialize_msg0(m: &RaMsg0) -> Seq<u8> {
    spec_u32_le(m.exgid)
}

pub open spec fn spec_msg0_valid(b: Seq<u8>) -> bool {
    b.len() >= 4
}

pub open spec fn spec_msg0_len(b: Seq<u8>) -> int {
    4
}

pub fn serialize_msg0(m: &RaMsg0) -> (r: Vec<u8>)
    ensures
        r@ == spec_serialize_msg0(m),
{
    u32_le(m.exgid)
}

pub fn deserialize_msg0(b: &[u8]) -> (r: Option<(RaMsg0, usize)>)
    ensures
        match r {
            Some((m, n)) => {
                &&& spec_msg0_valid(b@)
                &&& n == spec_msg0_len(b@)
                &&& n <= b@.len()
                &&& spec_serialize_msg0(&m) == b@.take(n as int)
            },
            None => !spec_msg0_valid(b@),
        },
{
    if b.len() < 4 {
        return None;
    }
    let x = u32_from_le(b[0], b[1], b[2], b[3]);
    proof {
        lemma_u32_le_bytes_roundtrip(b@[0], b@[1], b@[2], b@[3]);
        assert(spec_u32_le(x) =~= b@.take(4));
    }
    Some((RaMsg0 { exgid: x }, 4))
}

/// Equal encodings mean equal messages.
pub proof fn lemma_serialize_msg0_injective(a: &RaMsg0, b: &RaMsg0)
    requires
        spec_serialize_msg0(a) == spec_serialize_msg0(b),
    ensures
        a.exgid == b.exgid,
{
    crate::wire::lemma_u32_le_roundtrip(a.exgid);
    crate::wire::lemma_u32_le_roundtrip(b.exgid);
}

/// Every serialized MSG0, with anything after it, parses back as itself.
pub proof fn lemma_msg0_roundtrip(m: &RaMsg0, rest: Seq<u8>)
    ensures
        spec_msg0_valid(spec_serialize_msg0(m) + rest),
        spec_msg0_len(spec_serialize_msg0(m) + rest) == spec_serialize_msg0(m).len(),
{
}

// ------------------------------------------------------------------ MSG1
pub open spec fn spec_serialize_msg1(m: &RaMsg1) -> Seq<u8> {
    m.gid@ + spec_vec_bytes(m.g_a@)
}

pub open spec fn spec_msg1_valid(b: Seq<u8>) -> bool {
    &&& b.len() >= 77
    &&& spec_u64_from_le(b.subrange(4, 12)) == 65
}

pub open spec fn spec_msg1_len(b: Seq<u8>) -> int {
    77
}

pub fn serialize_msg1(m: &RaMsg1) -> (r: Vec<u8>)
    requires
        m.wf(),
    ensures
        r@ == spec_serialize_msg1(m),
{
    let mut v: Vec<u8> = Vec::new();
    append_bytes(&mut v, m.gid.as_slice());
    let len_bytes = u64_le(m.g_a.len() as u64);
    append_bytes(&mut v, len_bytes.as_slice());
    append_bytes(&mut v, m.g_a.as_slice());
    proof {
        assert(v@ =~= spec_serialize_msg1(m));
    }
    v
}

pub fn deserialize_msg1(b: &[u8]) -> (r: Option<(RaMsg1, usize)>)
    ensures
        match r {
            Some((m, n)) => {
                &&& m.wf()
                &&& spec_msg1_valid(b@)
                &&& n == spec_msg1_len(b@)
                &&& n <= b@.len()
                &&& spec_serialize_msg1(&m) == b@.take(n as int)
            },
            None => !spec_msg1_valid(b@),
        },
{
    if b.len() < 77 {
        return None;
    }
    let l = u64_from_le_at(b, 4);
    if l != 65 {
        return None;
    }
    let gid = copy_bytes(b, 0, 4);
    let g_a = copy_bytes(b, 12, 77);
    let m = RaMsg1 { gid, g_a };
    proof {
        lemma_u64_le_bytes_roundtrip(b@.subrange(4, 12));
        assert(spec_serialize_msg1(&m) =~= b@.take(77));
    }
    Some((m, 77))
}

pub proof fn lemma_serialize_msg1_injective(a: &RaMsg1, b: &RaMsg1)
    requires
        a.wf(),
        b.wf(),
        spec_serialize_msg1(a) == spec_serialize_msg1(b),
    ensures
        a.gid@ == b.gid@,
        a.g_a@ == b.g_a@,
{
    let sa = spec_serialize_msg1(a);
    let sb = spec_serialize_msg1(b);
    assert(a.gid@ =~= sa.subrange(0, 4));
    assert(b.gid@ =~= sb.subrange(0, 4));
    assert(a.g_a@ =~= sa.subrange(12, 77));
    assert(b.g_a@ =~= sb.subrange(12, 77));
}

pub proof fn lemma_msg1_roundtrip(m: &RaMsg1, rest: Seq<u8>)
    requires
        m.wf(),
    ensures
        spec_msg1_valid(spec_serialize_msg1(m) + rest),
        spec_msg1_len(spec_serialize_msg1(m) + rest) == spec_serialize_msg1(m).len(),
{
    let s = spec_serialize_msg1(m) + rest;
    assert(s.subrange(4, 12) =~= spec_u64_le(65u64));
    lemma_u64_le_roundtrip_helper();
}

proof fn lemma_u64_le_roundtrip_helper()
    ensures
        spec_u64_from_le(spec_u64_le(65u64)) == 65u64,
{
    crate::wire::lemma_u64_le_roundtrip(65u64);
}

// ------------------------------------------------------------------ MSG2
pub open spec fn spec_serialize_msg2(m: &RaMsg2) -> Seq<u8> {
    spec_vec_bytes(m.g_b@) + m.spid@ + spec_u16_le(m.quote_type) + spec_vec_bytes(m.sign_gb_ga@)
        + m.mac@ + match m.sig_rl {
        Some(ref v) => seq![1u8] + spec_vec_bytes(v@),
        None => seq![0u8],
    }
}

pub open spec fn spec_msg2_valid(b: Seq<u8>) -> bool {
    &&& b.len() >= 99
    &&& spec_u64_from_le(b.subrange(0, 8)) == 65
    &&& {
        let ls = spec_u64_from_le(b.subrange(91, 99)) as int;
        &&& b.len() >= 116 + ls
        &&& (b[115 + ls] == 0 || (b[115 + ls] == 1 && b.len() >= 124 + ls && b.len() >= 124 + ls
            + spec_u64_from_le(b.subrange(116 + ls, 124 + ls)) as int))
    }
}

pub open spec fn spec_msg2_len(b: Seq<u8>) -> int
    recommends
        spec_msg2_valid(b),
{
    let ls = spec_u64_from_le(b.subrange(91, 99)) as int;
    if b[115 + ls] == 0 {
        116 + ls
    } else {
        124 + ls + spec_u64_from_le(b.subrange(116 + ls, 124 + ls)) as int
    }
}

pub fn serialize_msg2(m: &RaMsg2) -> (r: Vec<u8>)
    requires
        m.wf(),
    ensures
        r@ == spec_serialize_msg2(m),
{
    let mut v: Vec<u8> = Vec::new();
    let gb_len = u64_le(m.g_b.len() as u64);
    append_bytes(&mut v, gb_len.as_slice());
    append_bytes(&mut v, m.g_b.as_slice());
    append_bytes(&mut v, m.spid.as_slice());
    let qt = crate::wire::u16_le(m.quote_type);
    append_bytes(&mut v, qt.as_slice());
    let sig_len = u64_le(m.sign_gb_ga.len() as u64);
    append_bytes(&mut v, sig_len.as_slice());
    append_bytes(&mut v, m.sign_gb_ga.as_slice());
    append_bytes(&mut v, m.mac.as_slice());
    match &m.sig_rl {
        Some(rl) => {
            v.push(1u8);
            let rl_len = u64_le(rl.len() as u64);
            append_bytes(&mut v, rl_len.as_slice());
            append_bytes(&mut v, rl.as_slice());
        },
        None => {
            v.push(0u8);
        },
    }
    proof {
        assert(v@ =~= spec_serialize_msg2(m));
    }
    v
}

pub fn deserialize_msg2(b: &[u8]) -> (r: Option<(RaMsg2, usize)>)
    ensures
        match r {
            Some((m, n)) => {
                &&& m.wf()
                &&& spec_msg2_valid(b@)
                &&& n == spec_msg2_len(b@)
                &&& n <= b@.len()
                &&& spec_serialize_msg2(&m) == b@.take(n as int)
            },
            None => !spec_msg2_valid(b@),
        },
{
    if b.len() < 99 {
        return None;
    }
    let lg = u64_from_le_at(b, 0);
    if lg != 65 {
        return None;
    }
    let ls64 = u64_from_le_at(b, 91);
    if ls64 > (b.len() - 99) as u64 {
        return None;
    }
    let ls = ls64 as usize;
    if b.len() - 99 - ls < 17 {
        return None;
    }
    let sign_end: usize = 99 + ls;
    let mac_end: usize = sign_end + 16;
    let tag = b[mac_end];
    let g_b = copy_bytes(b, 8, 73);
    let spid = copy_bytes(b, 73, 89);
    let quote_type = u16_from_le(b[89], b[90]);
    let sign_gb_ga = copy_bytes(b, 99, sign_end);
    let mac = copy_bytes(b, sign_end, mac_end);
    proof {
        lemma_u64_le_bytes_roundtrip(b@.subrange(0, 8));
        lemma_u64_le_bytes_roundtrip(b@.subrange(91, 99));
        crate::wire::lemma_u16_le_bytes_roundtrip(b@[89], b@[90]);
        assert(spec_u16_le(quote_type) =~= b@.subrange(89, 91));
    }
    if tag == 0 {
        let m = RaMsg2 { g_b, spid, quote_type, sign_gb_ga, mac, sig_rl: None };
        let n: usize = mac_end + 1;
        proof {
            assert(spec_serialize_msg2(&m) =~= b@.take(n as int));
        }
        Some((m, n))
    } else if tag == 1 {
        if b.len() - (mac_end + 1) < 8 {
            return None;
        }
        let lr64 = u64_from_le_at(b, mac_end + 1);
        if lr64 > (b.len() - (mac_end + 9)) as u64 {
            return None;
        }
        let lr = lr64 as usize;
        let n: usize = mac_end + 9 + lr;
        let sig_rl = copy_bytes(b, mac_end + 9, n);
        let m = RaMsg2 { g_b, spid, quote_type, sign_gb_ga, mac, sig_rl: Some(sig_rl) };
        proof {
            lemma_u64_le_bytes_roundtrip(b@.subrange(mac_end + 1, mac_end + 9));
            assert(spec_serialize_msg2(&m) =~= b@.take(n as int));
        }
        Some((m, n))
    } else {
        None
    }
}

pub proof fn lemma_serialize_msg2_injective(a: &RaMsg2, b: &RaMsg2)
    requires
        a.wf(),
        b.wf(),
        a.sign_gb_ga@.len() < 0x1_0000_0000_0000_0000,
        b.sign_gb_ga@.len() < 0x1_0000_0000_0000_0000,
        (a.sig_rl matches Some(ref v) ==> v@.len() < 0x1_0000_0000_0000_0000),
        (b.sig_rl matches Some(ref v) ==> v@.len() < 0x1_0000_0000_0000_0000),
        spec_serialize_msg2(a) == spec_serialize_msg2(b),
    ensures
        a.g_b@ == b.g_b@,
        a.spid@ == b.spid@,
        a.quote_type == b.quote_type,
        a.sign_gb_ga@ == b.sign_gb_ga@,
        a.mac@ == b.mac@,
        spec_opt_view(&a.sig_rl) == spec_opt_view(&b.sig_rl),
{
    let sa = spec_serialize_msg2(a);
    let sb = spec_serialize_msg2(b);
    let la = a.sign_gb_ga@.len() as int;
    let lb = b.sign_gb_ga@.len() as int;
    assert(sa.subrange(91, 99) =~= spec_u64_le(a.sign_gb_ga@.len() as u64));
    assert(sb.subrange(91, 99) =~= spec_u64_le(b.sign_gb_ga@.len() as u64));
    crate::wire::lemma_u64_le_roundtrip(a.sign_gb_ga@.len() as u64);
    crate::wire::lemma_u64_le_roundtrip(b.sign_gb_ga@.len() as u64);
    assert(la == lb);
    assert(a.g_b@ =~= sa.subrange(8, 73));
    assert(b.g_b@ =~= sb.subrange(8, 73));
    assert(a.spid@ =~= sa.subrange(73, 89));
    assert(b.spid@ =~= sb.subrange(73, 89));
    assert(spec_u16_le(a.quote_type) =~= sa.subrange(89, 91));
    assert(spec_u16_le(b.quote_type) =~= sb.subrange(89, 91));
    crate::wire::lemma_u16_le_roundtrip(a.quote_type);
    crate::wire::lemma_u16_le_roundtrip(b.quote_type);
    assert(a.sign_gb_ga@ =~= sa.subrange(99, 99 + la));
    assert(b.sign_gb_ga@ =~= sb.subrange(99, 99 + lb));
    assert(a.mac@ =~= sa.subrange(99 + la, 115 + la));
    assert(b.mac@ =~= sb.subrange(99 + lb, 115 + lb));
    match (a.sig_rl, b.sig_rl) {
        (Some(va), Some(vb)) => {
            assert(sa.subrange(116 + la, 124 + la) =~= spec_u64_le(va@.len() as u64));
            assert(sb.subrange(116 + lb, 124 + lb) =~= spec_u64_le(vb@.len() as u64));
            crate::wire::lemma_u64_le_roundtrip(va@.len() as u64);
            crate::wire::lemma_u64_le_roundtrip(vb@.len() as u64);
            assert(va@.len() == vb@.len());
            assert(va@ =~= sa.subrange(124 + la, sa.len() as int));
            assert(vb@ =~= sb.subrange(124 + lb, sb.len() as int));
        },
        (None, None) => {},
        (Some(va), None) => {
            assert(sa[115 + la] == 1);
            assert(sb[115 + lb] == 0);
        },
        (None, Some(vb)) => {
            assert(sa[115 + la] == 0);
            assert(sb[115 + lb] == 1);
        },
    }
}

pub proof fn lemma_msg2_roundtrip(m: &RaMsg2, rest: Seq<u8>)
    requires
        m.wf(),
        m.sign_gb_ga@.len() < 0x1_0000_0000_0000_0000,
        (m.sig_rl matches Some(ref v) ==> v@.len() < 0x1_0000_0000_0000_0000),
    ensures
        spec_msg2_valid(spec_serialize_msg2(m) + rest),
        spec_msg2_len(spec_serialize_msg2(m) + rest) == spec_serialize_msg2(m).len(),
{
    let s = spec_serialize_msg2(m) + rest;
    let ls = m.sign_gb_ga@.len() as int;
    assert(s.subrange(0, 8) =~= spec_u64_le(65u64));
    lemma_u64_le_roundtrip_helper();
    assert(s.subrange(91, 99) =~= spec_u64_le(m.sign_gb_ga@.len() as u64));
    crate::wire::lemma_u64_le_roundtrip(m.sign_gb_ga@.len() as u64);
    match m.sig_rl {
        Some(ref v) => {
            assert(s[115 + ls] == 1);
            assert(s.subrange(116 + ls, 124 + ls) =~= spec_u64_le(v@.len() as u64));
            crate::wire::lemma_u64_le_roundtrip(v@.len() as u64);
        },
        None => {
            assert(s[115 + ls] == 0);
        },
    }
}

// ------------------------------------------------------------------ MSG3
pub open spec fn spec_serialize_msg3(m: &RaMsg3) -> Seq<u8> {
    m.mac@ + spec_vec_bytes(m.g_a@) + match m.ps_sec_prop {
        Some(ref p) => seq![1u8] + p.inner@,
        None => seq![0u8],
    } + m.quote@
}

pub open spec fn spec_msg3_valid(b: Seq<u8>) -> bool {
    &&& b.len() >= 90
    &&& spec_u64_from_le(b.subrange(16, 24)) == 65
    &&& ((b[89] == 0 && b.len() >= 1206) || (b[89] == 1 && b.len() >= 1462))
}

pub open spec fn spec_msg3_len(b: Seq<u8>) -> int
    recommends
        spec_msg3_valid(b),
{
    if b[89] == 1 {
        1462
    } else {
        1206
    }
}

pub fn serialize_msg3(m: &RaMsg3) -> (r: Vec<u8>)
    requires
        m.wf(),
    ensures
        r@ == spec_serialize_msg3(m),
{
    let mut v: Vec<u8> = Vec::new();
    append_bytes(&mut v, m.mac.as_slice());
    let ga_len = u64_le(m.g_a.len() as u64);
    append_bytes(&mut v, ga_len.as_slice());
    append_bytes(&mut v, m.g_a.as_slice());
    match &m.ps_sec_prop {
        Some(p) => {
            v.push(1u8);
            append_bytes(&mut v, p.inner.as_slice());
        },
        None => {
            v.push(0u8);
        },
    }
    append_bytes(&mut v, m.quote.as_slice());
    proof {
        assert(v@ =~= spec_serialize_msg3(m));
    }
    v
}

pub fn deserialize_msg3(b: &[u8]) -> (r: Option<(RaMsg3, usize)>)
    ensures
        match r {
            Some((m, n)) => {
                &&& m.wf()
                &&& spec_msg3_valid(b@)
                &&& n == spec_msg3_len(b@)
                &&& n <= b@.len()
                &&& spec_serialize_msg3(&m) == b@.take(n as int)
            },
            None => !spec_msg3_valid(b@),
        },
{
    if b.len() < 90 {
        return None;
    }
    let l = u64_from_le_at(b, 16);
    if l != 65 {
        return None;
    }
    let tag = b[89];
    proof {
        lemma_u64_le_bytes_roundtrip(b@.subrange(16, 24));
    }
    if tag == 0 {
        if b.len() < 1206 {
            return None;
        }
        let mac = copy_bytes(b, 0, 16);
        let g_a = copy_bytes(b, 24, 89);
        let quote = copy_bytes(b, 90, 1206);
        let m = RaMsg3 { mac, g_a, ps_sec_prop: None, quote };
        proof {
            assert(spec_serialize_msg3(&m) =~= b@.take(1206));
        }
        Some((m, 1206))
    } else if tag == 1 {
        if b.len() < 1462 {
            return None;
        }
        let mac = copy_bytes(b, 0, 16);
        let g_a = copy_bytes(b, 24, 89);
        let ps = copy_bytes(b, 90, 346);
        let quote = copy_bytes(b, 346, 1462);
        let m = RaMsg3 {
            mac,
            g_a,
            ps_sec_prop: Some(crate::msg::PsSecPropDescInternal { inner: ps }),
            quote,
        };
        proof {
            assert(spec_serialize_msg3(&m) =~= b@.take(1462));
        }
        Some((m, 1462))
    } else {
        None
    }
}

pub proof fn lemma_serialize_msg3_injective(a: &RaMsg3, b: &RaMsg3)
    requires
        a.wf(),
        b.wf(),
        spec_serialize_msg3(a) == spec_serialize_msg3(b),
    ensures
        a.mac@ == b.mac@,
        a.g_a@ == b.g_a@,
        crate::msg::spec_ps_view(&a.ps_sec_prop) == crate::msg::spec_ps_view(&b.ps_sec_prop),
        a.quote@ == b.quote@,
{
    let sa = spec_serialize_msg3(a);
    let sb = spec_serialize_msg3(b);
    assert(a.mac@ =~= sa.subrange(0, 16));
    assert(b.mac@ =~= sb.subrange(0, 16));
    assert(a.g_a@ =~= sa.subrange(24, 89));
    assert(b.g_a@ =~= sb.subrange(24, 89));
    match (a.ps_sec_prop, b.ps_sec_prop) {
        (Some(pa), Some(pb)) => {
            assert(pa.inner@ =~= sa.subrange(90, 346));
            assert(pb.inner@ =~= sb.subrange(90, 346));
            assert(a.quote@ =~= sa.subrange(346, 1462));
            assert(b.quote@ =~= sb.subrange(346, 1462));
        },
        (None, None) => {
            assert(a.quote@ =~= sa.subrange(90, 1206));
            assert(b.quote@ =~= sb.subrange(90, 1206));
        },
        (Some(_), None) => {
            assert(sa[89] == 1);
            assert(sb[89] == 0);
        },
        (None, Some(_)) => {
            assert(sa[89] == 0);
            assert(sb[89] == 1);
        },
    }
}

// ------------------------------------------------------------------ MSG4
/// Relies on std's `String::from_utf8`: bytes below 0x80 are ASCII and
/// decode one-to-one to the characters with the same values, so the
/// call cannot fail and the result re-encodes to the input.
#[verifier::external_body]
fn string_from_ascii(bytes: Vec<u8>) -> (r: String)
    requires
        forall|i: int| 0 <= i < bytes@.len() ==> bytes@[i] < 128,
    ensures
        vstd::utf8::encode_utf8(r@) == bytes@,
        vstd::utf8::is_ascii_chars(r@),
        r@.len() == bytes@.len(),
{
    String::from_utf8(bytes).unwrap()
}

/// True when every byte of `b[from..to]` is below 0x80.
fn all_ascii(b: &[u8], from: usize, to: usize) -> (r: bool)
    requires
        from <= to <= b@.len(),
    ensures
        r == forall|i: int| from <= i < to ==> b@[i] < 128,
{
    let mut i: usize = from;
    while i < to
        invariant
            from <= i <= to <= b@.len(),
            forall|j: int| from <= j < i ==> b@[j] < 128,
        decreases to - i,
    {
        if b[i] >= 128 {
            return false;
        }
        i += 1;
    }
    true
}

pub open spec fn spec_serialize_msg4(m: &RaMsg4) -> Seq<u8> {
    seq![spec_bool_byte(m.is_enclave_trusted)] + match m.is_pse_manifest_trusted {
        Some(v) => seq![1u8, spec_bool_byte(v)],
        None => seq![0u8],
    } + match m.pib {
        Some(ref s) => seq![1u8] + spec_vec_bytes(vstd::utf8::encode_utf8(s@)),
        None => seq![0u8],
    }
}

pub open spec fn spec_msg4_valid(b: Seq<u8>) -> bool {
    &&& b.len() >= 2
    &&& (b[0] == 0 || b[0] == 1)
    &&& (b[1] == 0 || b[1] == 1)
    &&& (b[1] == 1 ==> b.len() >= 3 && (b[2] == 0 || b[2] == 1))
    &&& {
        let pse_end: int = if b[1] == 1 {
            3int
        } else {
            2int
        };
        &&& b.len() >= pse_end + 1
        &&& (b[pse_end] == 0 || b[pse_end] == 1)
        &&& (b[pse_end] == 1 ==> b.len() >= pse_end + 9 && {
            let lp = spec_u64_from_le(b.subrange(pse_end + 1, pse_end + 9)) as int;
            &&& b.len() >= pse_end + 9 + lp
            &&& (forall|i: int| pse_end + 9 <= i < pse_end + 9 + lp ==> b[i] < 128)
        })
    }
}

pub open spec fn spec_msg4_len(b: Seq<u8>) -> int
    recommends
        spec_msg4_valid(b),
{
    let pse_end: int = if b[1] == 1 {
        3int
    } else {
        2int
    };
    if b[pse_end] == 1 {
        pse_end + 9 + spec_u64_from_le(b.subrange(pse_end + 1, pse_end + 9)) as int
    } else {
        pse_end + 1
    }
}

pub fn serialize_msg4(m: &RaMsg4) -> (r: Vec<u8>)
    ensures
        r@ == spec_serialize_msg4(m),
{
    let mut v: Vec<u8> = Vec::new();
    v.push(if m.is_enclave_trusted {
        1u8
    } else {
        0u8
    });
    match &m.is_pse_manifest_trusted {
        Some(t) => {
            v.push(1u8);
            v.push(if *t {
                1u8
            } else {
                0u8
            });
        },
        None => {
            v.push(0u8);
        },
    }
    match &m.pib {
        Some(s) => {
            v.push(1u8);
            let bytes = s.as_str().as_bytes();
            let len_bytes = u64_le(bytes.len() as u64);
            append_bytes(&mut v, len_bytes.as_slice());
            append_bytes(&mut v, bytes);
        },
        None => {
            v.push(0u8);
        },
    }
    proof {
        assert(v@ =~= spec_serialize_msg4(m));
    }
    v
}

pub fn deserialize_msg4(b: &[u8]) -> (r: Option<(RaMsg4, usize)>)
    ensures
        match r {
            Some((m, n)) => {
                &&& m.wf()
                &&& spec_msg4_valid(b@)
                &&& n == spec_msg4_len(b@)
                &&& n <= b@.len()
                &&& spec_serialize_msg4(&m) == b@.take(n as int)
            },
            None => !spec_msg4_valid(b@),
        },
{
    if b.len() < 2 {
        return None;
    }
    if b[0] > 1 || b[1] > 1 {
        return None;
    }
    let is_enclave_trusted = b[0] == 1;
    let is_pse_manifest_trusted: Option<bool>;
    let pse_end: usize;
    if b[1] == 1 {
        if b.len() < 3 {
            return None;
        }
        if b[2] > 1 {
            return None;
        }
        is_pse_manifest_trusted = Some(b[2] == 1);
        pse_end = 3;
    } else {
        is_pse_manifest_trusted = None;
        pse_end = 2;
    }
    if b.len() - pse_end < 1 {
        return None;
    }
    let pib_tag = b[pse_end];
    if pib_tag > 1 {
        return None;
    }
    if pib_tag == 0 {
        let m = RaMsg4 { is_enclave_trusted, is_pse_manifest_trusted, pib: None };
        let n: usize = pse_end + 1;
        proof {
            assert(spec_serialize_msg4(&m) =~= b@.take(n as int));
        }
        return Some((m, n));
    }
    if b.len() - (pse_end + 1) < 8 {
        return None;
    }
    let lp64 = u64_from_le_at(b, pse_end + 1);
    if lp64 > (b.len() - (pse_end + 9)) as u64 {
        return None;
    }
    let lp = lp64 as usize;
    let n: usize = pse_end + 9 + lp;
    if !all_ascii(b, pse_end + 9, n) {
        return None;
    }
    let pib_bytes = copy_bytes(b, pse_end + 9, n);
    let pib = string_from_ascii(pib_bytes);
    let m = RaMsg4 { is_enclave_trusted, is_pse_manifest_trusted, pib: Some(pib) };
    proof {
        lemma_u64_le_bytes_roundtrip(b@.subrange(pse_end + 1, pse_end + 9));
        assert(spec_serialize_msg4(&m) =~= b@.take(n as int));
    }
    Some((m, n))
}

pub proof fn lemma_serialize_msg4_injective(a: &RaMsg4, b: &RaMsg4)
    requires
        a.wf(),
        b.wf(),
        (a.pib matches Some(ref s) ==> vstd::utf8::encode_utf8(s@).len() < 0x1_0000_0000_0000_0000),
        (b.pib matches Some(ref s) ==> vstd::utf8::encode_utf8(s@).len() < 0x1_0000_0000_0000_0000),
        spec_serialize_msg4(a) == spec_serialize_msg4(b),
    ensures
        a.is_enclave_trusted == b.is_enclave_trusted,
        a.is_pse_manifest_trusted == b.is_pse_manifest_trusted,
        match (a.pib, b.pib) {
            (Some(ref sa), Some(ref sb)) => sa@ == sb@,
            (None, None) => true,
            _ => false,
        },
{
    let sa = spec_serialize_msg4(a);
    let sb = spec_serialize_msg4(b);
    assert(sa[0] == spec_bool_byte(a.is_enclave_trusted));
    assert(sb[0] == spec_bool_byte(b.is_enclave_trusted));
    match (a.is_pse_manifest_trusted, b.is_pse_manifest_trusted) {
        (Some(va), Some(vb)) => {
            assert(sa[2] == spec_bool_byte(va));
            assert(sb[2] == spec_bool_byte(vb));
        },
        (None, None) => {},
        (Some(_), None) => {
            assert(sa[1] == 1);
            assert(sb[1] == 0);
        },
        (None, Some(_)) => {
            assert(sa[1] == 0);
            assert(sb[1] == 1);
        },
    }
    let pse_end: int = if a.is_pse_manifest_trusted is Some {
        3int
    } else {
        2int
    };
    match (a.pib, b.pib) {
        (Some(ref pa), Some(ref pb)) => {
            let ea = vstd::utf8::encode_utf8(pa@);
            let eb = vstd::utf8::encode_utf8(pb@);
            assert(sa.subrange(pse_end + 1, pse_end + 9) =~= spec_u64_le(ea.len() as u64));
            assert(sb.subrange(pse_end + 1, pse_end + 9) =~= spec_u64_le(eb.len() as u64));
            crate::wire::lemma_u64_le_roundtrip(ea.len() as u64);
            crate::wire::lemma_u64_le_roundtrip(eb.len() as u64);
            assert(ea.len() == eb.len());
            assert(ea =~= sa.subrange(pse_end + 9, sa.len() as int));
            assert(eb =~= sb.subrange(pse_end + 9, sb.len() as int));
            vstd::utf8::encode_utf8_decode_utf8(pa@);
            vstd::utf8::encode_utf8_decode_utf8(pb@);
        },
        (None, None) => {},
        (Some(_), None) => {
            assert(sa[pse_end] == 1);
            assert(sb[pse_end] == 0);
        },
        (None, Some(_)) => {
            assert(sa[pse_end] == 0);
            assert(sb[pse_end] == 1);
        },
    }
}

pub proof fn lemma_msg4_roundtrip(m: &RaMsg4, rest: Seq<u8>)
    requires
        m.wf(),
        (m.pib matches Some(ref s) ==> vstd::utf8::encode_utf8(s@).len() < 0x1_0000_0000_0000_0000),
    ensures
        spec_msg4_valid(spec_serialize_msg4(m) + rest),
        spec_msg4_len(spec_serialize_msg4(m) + rest) == spec_serialize_msg4(m).len(),
{
    let s = spec_serialize_msg4(m) + rest;
    let pse_end: int = if m.is_pse_manifest_trusted is Some {
        3int
    } else {
        2int
    };
    match m.pib {
        Some(ref p) => {
            let e = vstd::utf8::encode_utf8(p@);
            assert(s[pse_end] == 1);
            assert(s.subrange(pse_end + 1, pse_end + 9) =~= spec_u64_le(e.len() as u64));
            crate::wire::lemma_u64_le_roundtrip(e.len() as u64);
            vstd::utf8::is_ascii_chars_encode_utf8(p@);
            vstd::utf8::is_ascii_chars_nat_bound(p@);
            assert forall|i: int| pse_end + 9 <= i < pse_end + 9 + e.len() implies s[i]
                < 128 by {
                assert(s[i] == e[i - (pse_end + 9)]);
            }
        },
        None => {
            assert(s[pse_end] == 0);
        },
    }
}

pub proof fn lemma_msg3_roundtrip(m: &RaMsg3, rest: Seq<u8>)
    requires
        m.wf(),
    ensures
        spec_msg3_valid(spec_serialize_msg3(m) + rest),
        spec_msg3_len(spec_serialize_msg3(m) + rest) == spec_serialize_msg3(m).len(),
{
    let s = spec_serialize_msg3(m) + rest;
    assert(s.subrange(16, 24) =~= spec_u64_le(65u64));
    lemma_u64_le_roundtrip_helper();
    match m.ps_sec_prop {
        Some(ref p) => {
            assert(s[89] == 1);
        },
        None => {
            assert(s[89] == 0);
        },
    }
}

// ------------------------------------------------------- byte strings
/// A bare length-prefixed byte string, as the enclave stream carries
/// the ephemeral public key.
pub open spec fn spec_bytes_valid(b: Seq<u8>) -> bool {
    &&& b.len() >= 8
    &&& b.len() >= 8 + spec_u64_from_le(b.subrange(0, 8)) as int
}

pub open spec fn spec_bytes_len(b: Seq<u8>) -> int
    recommends
        spec_bytes_valid(b),
{
    8 + spec_u64_from_le(b.subrange(0, 8)) as int
}

pub fn serialize_bytes(v: &Vec<u8>) -> (r: Vec<u8>)
    ensures
        r@ == spec_vec_bytes(v@),
{
    let mut out: Vec<u8> = Vec::new();
    let len_bytes = u64_le(v.len() as u64);
    append_bytes(&mut out, len_bytes.as_slice());
    append_bytes(&mut out, v.as_slice());
    proof {
        assert(out@ =~= spec_vec_bytes(v@));
    }
    out
}

pub fn deserialize_bytes(b: &[u8]) -> (r: Option<(Vec<u8>, usize)>)
    ensures
        match r {
            Some((v, n)) => {
                &&& spec_bytes_valid(b@)
                &&& n == spec_bytes_len(b@)
                &&& n <= b@.len()
                &&& spec_vec_bytes(v@) == b@.take(n as int)
            },
            None => !spec_bytes_valid(b@),
        },
{
    if b.len() < 8 {
        return None;
    }
    let l64 = u64_from_le_at(b, 0);
    if l64 > (b.len() - 8) as u64 {
        return None;
    }
    let l = l64 as usize;
    let n: usize = 8 + l;
    let v = copy_bytes(b, 8, n);
    proof {
        lemma_u64_le_bytes_roundtrip(b@.subrange(0, 8));
        assert(spec_vec_bytes(v@) =~= b@.take(n as int));
    }
    Some((v, n))
}

// ------------------------------------------------------- stream framing
/// What a partial buffer holds: a complete message of `n` bytes, too few
/// bytes so far (read until at least `k` in total), or bytes that no
/// reading can complete into a valid message.
pub enum ParseProgress {
    Ready(usize),
    NeedMore(usize),
    Invalid,
}

pub fn bytes_progress(b: &[u8]) -> (r: ParseProgress)
    ensures
        match r {
            ParseProgress::Ready(n) => spec_bytes_valid(b@) && n == spec_bytes_len(b@) && n
                <= b@.len(),
            ParseProgress::NeedMore(k) => !spec_bytes_valid(b@) && b@.len() < k,
            ParseProgress::Invalid => !spec_bytes_valid(b@),
        },
{
    if b.len() < 8 {
        return ParseProgress::NeedMore(8);
    }
    let l64 = u64_from_le_at(b, 0);
    if l64 > (b.len() - 8) as u64 {
        if l64 >= usize::MAX as u64 - 8 {
            return ParseProgress::Invalid;
        }
        return ParseProgress::NeedMore(8 + l64 as usize);
    }
    ParseProgress::Ready(8 + l64 as usize)
}

pub fn msg0_progress(b: &[u8]) -> (r: ParseProgress)
    ensures
        match r {
            ParseProgress::Ready(n) => spec_msg0_valid(b@) && n == spec_msg0_len(b@) && n
                <= b@.len(),
            ParseProgress::NeedMore(k) => !spec_msg0_valid(b@) && b@.len() < k,
            ParseProgress::Invalid => !spec_msg0_valid(b@),
        },
{
    if b.len() < 4 {
        return ParseProgress::NeedMore(4);
    }
    ParseProgress::Ready(4)
}

pub fn msg1_progress(b: &[u8]) -> (r: ParseProgress)
    ensures
        match r {
            ParseProgress::Ready(n) => spec_msg1_valid(b@) && n == spec_msg1_len(b@) && n
                <= b@.len(),
            ParseProgress::NeedMore(k) => !spec_msg1_valid(b@) && b@.len() < k,
            ParseProgress::Invalid => !spec_msg1_valid(b@),
        },
{
    if b.len() < 12 {
        return ParseProgress::NeedMore(12);
    }
    let l = u64_from_le_at(b, 4);
    if l != 65 {
        return ParseProgress::Invalid;
    }
    if b.len() < 77 {
        return ParseProgress::NeedMore(77);
    }
    ParseProgress::Ready(77)
}

pub fn msg2_progress(b: &[u8]) -> (r: ParseProgress)
    ensures
        match r {
            ParseProgress::Ready(n) => spec_msg2_valid(b@) && n == spec_msg2_len(b@) && n
                <= b@.len(),
            ParseProgress::NeedMore(k) => !spec_msg2_valid(b@) && b@.len() < k,
            ParseProgress::Invalid => !spec_msg2_valid(b@),
        },
{
    if b.len() < 99 {
        return ParseProgress::NeedMore(99);
    }
    let lg = u64_from_le_at(b, 0);
    if lg != 65 {
        return ParseProgress::Invalid;
    }
    let ls64 = u64_from_le_at(b, 91);
    if ls64 > (usize::MAX - 116) as u64 {
        return ParseProgress::Invalid;
    }
    let ls = ls64 as usize;
    if b.len() < 116 + ls {
        return ParseProgress::NeedMore(116 + ls);
    }
    let mac_end: usize = 115 + ls;
    let tag = b[mac_end];
    if tag == 0 {
        return ParseProgress::Ready(116 + ls);
    }
    if tag != 1 {
        return ParseProgress::Invalid;
    }
    if ls > usize::MAX - 124 {
        return ParseProgress::Invalid;
    }
    if b.len() < 124 + ls {
        return ParseProgress::NeedMore(124 + ls);
    }
    let lr64 = u64_from_le_at(b, mac_end + 1);
    if lr64 > (usize::MAX - 124 - ls) as u64 {
        return ParseProgress::Invalid;
    }
    let lr = lr64 as usize;
    if b.len() < 124 + ls + lr {
        return ParseProgress::NeedMore(124 + ls + lr);
    }
    ParseProgress::Ready(124 + ls + lr)
}

pub fn msg3_progress(b: &[u8]) -> (r: ParseProgress)
    ensures
        match r {
            ParseProgress::Ready(n) => spec_msg3_valid(b@) && n == spec_msg3_len(b@) && n
                <= b@.len(),
            ParseProgress::NeedMore(k) => !spec_msg3_valid(b@) && b@.len() < k,
            ParseProgress::Invalid => !spec_msg3_valid(b@),
        },
{
    if b.len() < 90 {
        return ParseProgress::NeedMore(90);
    }
    let l = u64_from_le_at(b, 16);
    if l != 65 {
        return ParseProgress::Invalid;
    }
    let tag = b[89];
    if tag == 0 {
        if b.len() < 1206 {
            return ParseProgress::NeedMore(1206);
        }
        return ParseProgress::Ready(1206);
    }
    if tag != 1 {
        return ParseProgress::Invalid;
    }
    if b.len() < 1462 {
        return ParseProgress::NeedMore(1462);
    }
    ParseProgress::Ready(1462)
}

pub fn msg4_progress(b: &[u8]) -> (r: ParseProgress)
    ensures
        match r {
            ParseProgress::Ready(n) => spec_msg4_valid(b@) && n == spec_msg4_len(b@) && n
                <= b@.len(),
            ParseProgress::NeedMore(k) => !spec_msg4_valid(b@) && b@.len() < k,
            ParseProgress::Invalid => !spec_msg4_valid(b@),
        },
{
    if b.len() < 2 {
        return ParseProgress::NeedMore(2);
    }
    if b[0] > 1 || b[1] > 1 {
        return ParseProgress::Invalid;
    }
    let pse_end: usize;
    if b[1] == 1 {
        if b.len() < 3 {
            return ParseProgress::NeedMore(3);
        }
        if b[2] > 1 {
            return ParseProgress::Invalid;
        }
        pse_end = 3;
    } else {
        pse_end = 2;
    }
    if b.len() < pse_end + 1 {
        return ParseProgress::NeedMore(pse_end + 1);
    }
    let pib_tag = b[pse_end];
    if pib_tag > 1 {
        return ParseProgress::Invalid;
    }
    if pib_tag == 0 {
        return ParseProgress::Ready(pse_end + 1);
    }
    if b.len() < pse_end + 9 {
        return ParseProgress::NeedMore(pse_end + 9);
    }
    let lp64 = u64_from_le_at(b, pse_end + 1);
    if lp64 > (usize::MAX - pse_end - 9) as u64 {
        return ParseProgress::Invalid;
    }
    let lp = lp64 as usize;
    if b.len() < pse_end + 9 + lp {
        return ParseProgress::NeedMore(pse_end + 9 + lp);
    }
    if !all_ascii(b, pse_end + 9, pse_end + 9 + lp) {
        return ParseProgress::Invalid;
    }
    ParseProgress::Ready(pse_end + 9 + lp)
}

} // verus!
