//! PEM decoding: strip the BEGIN/END marker lines and whitespace, then
//! base64-decode the body.
//!
//! The marker-stripping is defined and verified here; only the base64
//! alphabet itself is delegated, under the names [`b64_valid`] and
//! [`b64_decode_of`].

use vstd::prelude::*;

use crate::error::CryptoError;

verus! {

/// Whether `s` is a valid base64 text (standard alphabet, padded).
pub uninterp spec fn b64_valid(s: Seq<u8>) -> bool;

/// The bytes a valid base64 text decodes to.
pub uninterp spec fn b64_decode_of(s: Seq<u8>) -> Seq<u8>;

/// Relies on `base64::decode` (standard alphabet, padding): success and
/// result depend on the input bytes alone.
#[verifier::external_body]
pub fn base64_decode(s: &[u8]) -> (r: Option<Vec<u8>>)
    ensures
        match r {
            Some(v) => b64_valid(s@) && v@ == b64_decode_of(s@),
            None => !b64_valid(s@),
        },
{
    base64::decode(s).ok()
}

/// The base64 body of a PEM block: every byte outside marker lines
/// (lines starting with `-`) that is not a newline, carriage return,
/// space or tab.
pub open spec fn spec_pem_body(s: Seq<u8>) -> Seq<u8> {
    spec_pem_body_rec(s, 0, true, false)
}

pub open spec fn spec_pem_body_rec(s: Seq<u8>, i: int, line_start: bool, in_dash_line: bool) -> Seq<u8>
    decreases s.len() - i,
{
    if i < 0 || i >= s.len() {
        Seq::empty()
    } else {
        let c = s[i];
        if c == 0x0a {
            spec_pem_body_rec(s, i + 1, true, false)
        } else if line_start && c == 0x2d {
            spec_pem_body_rec(s, i + 1, false, true)
        } else if in_dash_line {
            spec_pem_body_rec(s, i + 1, false, true)
        } else if c == 0x0d || c == 0x20 || c == 0x09 {
            spec_pem_body_rec(s, i + 1, false, false)
        } else {
            seq![c] + spec_pem_body_rec(s, i + 1, false, false)
        }
    }
}

/// Whether the PEM body decodes.
pub open spec fn spec_pem_ok(s: Seq<u8>) -> bool {
    b64_valid(spec_pem_body(s))
}

/// The DER bytes a PEM block decodes to.
pub open spec fn spec_pem_der(s: Seq<u8>) -> Seq<u8> {
    b64_decode_of(spec_pem_body(s))
}

/// Extract the base64 body of `pem` and decode it.
pub fn pem_to_der(pem: &[u8]) -> (r: Result<Vec<u8>, CryptoError>)
    ensures
        r is Ok <==> spec_pem_ok(pem@),
        (r matches Ok(v) ==> v@ == spec_pem_der(pem@)),
        r is Err ==> r == Err::<Vec<u8>, CryptoError>(CryptoError::Encoding),
{
    let mut body: Vec<u8> = Vec::new();
    let mut i: usize = 0;
    let mut line_start: bool = true;
    let mut in_dash_line: bool = false;
    while i < pem.len()
        invariant
            0 <= i <= pem@.len(),
            spec_pem_body(pem@) == body@ + spec_pem_body_rec(
                pem@,
                i as int,
                line_start,
                in_dash_line,
            ),
        decreases pem@.len() - i,
    {
        let c = pem[i];
        if c == 0x0a {
            line_start = true;
            in_dash_line = false;
        } else if line_start && c == 0x2d {
            line_start = false;
            in_dash_line = true;
        } else if in_dash_line {
            line_start = false;
        } else if c == 0x0d || c == 0x20 || c == 0x09 {
            line_start = false;
        } else {
            body.push(c);
            line_start = false;
        }
        i += 1;
    }
    match base64_decode(body.as_slice()) {
        Some(der) => Ok(der),
        None => Err(CryptoError::Encoding),
    }
}

} // verus!
