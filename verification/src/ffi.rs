//! Result codes and the byte-level work behind the C interface; the pointer
//! handling lives with the callers of these functions.

use vstd::prelude::*;
use crate::gdid::{Gdid, Namespace, spec_from_fingerprint, spec_base58, lemma_base58_short};
use crate::convert::hex_text;
use crate::primitives::ct_eq_bytes;
use crate::text::ascii_chars;

verus! {

/// A status code returned across the C interface; zero is success.
#[derive(Debug, Clone, Copy, PartialEq, Eq, Structural)]
pub struct GdidFFIResult(pub i32);

impl GdidFFIResult {
    /// The code for: success (0).
    pub fn ok() -> (r: Self)
        ensures
            r.0 == 0,
    {
        GdidFFIResult(0)
    }

    /// The code for: a null pointer was passed (-1).
    pub fn null_pointer() -> (r: Self)
        ensures
            r.0 == -1,
    {
        GdidFFIResult(-1)
    }

    /// The code for: the namespace byte is unknown (-2).
    pub fn invalid_namespace() -> (r: Self)
        ensures
            r.0 == -2,
    {
        GdidFFIResult(-2)
    }

    /// The code for: serialization failed (-3).
    pub fn serialization() -> (r: Self)
        ensures
            r.0 == -3,
    {
        GdidFFIResult(-3)
    }

    /// The code for: an output buffer is too small (-4).
    pub fn buffer_size() -> (r: Self)
        ensures
            r.0 == -4,
    {
        GdidFFIResult(-4)
    }

    /// The code for: the public key is invalid (-5).
    pub fn invalid_pubkey() -> (r: Self)
        ensures
            r.0 == -5,
    {
        GdidFFIResult(-5)
    }

    /// The code for: the credential has expired (-6).
    pub fn expired() -> (r: Self)
        ensures
            r.0 == -6,
    {
        GdidFFIResult(-6)
    }

    /// The code for: the signature is invalid (-7).
    pub fn signature_invalid() -> (r: Self)
        ensures
            r.0 == -7,
    {
        GdidFFIResult(-7)
    }

    /// The numeric code.
    pub fn code(self) -> (r: i32)
        ensures
            r == self.0,
    {
        self.0
    }

    /// Whether the code is success.
    pub fn is_ok(self) -> (r: bool)
        ensures
            r == (self.0 == 0),
    {
        self.0 == 0
    }
}

/// The known namespace with this byte; unknown bytes are refused.
pub open spec fn spec_parse_namespace(ns: u8) -> Option<Namespace> {
    if ns == 0 {
        Some(Namespace::ArkheGlobal)
    } else if ns == 1 {
        Some(Namespace::HubbleNetwork)
    } else if ns == 2 {
        Some(Namespace::Oem)
    } else {
        None
    }
}

/// The known namespace with this byte; unknown bytes are refused.
pub fn parse_namespace(ns: u8) -> (r: Option<Namespace>)
    ensures
        r == spec_parse_namespace(ns),
{
    match ns {
        0 => Some(Namespace::ArkheGlobal),
        1 => Some(Namespace::HubbleNetwork),
        2 => Some(Namespace::Oem),
        _ => None,
    }
}

/// What `gdid_derive` writes for a fingerprint and namespace byte: the
/// derived identifier, or `INVALID_NAMESPACE` for an unknown namespace.
pub fn gdid_derive_bytes(fingerprint: &[u8; 32], namespace: u8, nonce: u32) -> (r: Result<
    [u8; 32],
    GdidFFIResult,
>)
    ensures
        match spec_parse_namespace(namespace) {
            Some(ns) => r matches Ok(b) && b@ == spec_from_fingerprint(fingerprint@, ns, nonce),
            None => r == Err::<[u8; 32], GdidFFIResult>(GdidFFIResult(-2i32)),
        },
{
    let ns = match parse_namespace(namespace) {
        Some(n) => n,
        None => return Err(GdidFFIResult::invalid_namespace()),
    };
    let gdid = Gdid::from_fingerprint(fingerprint, ns, nonce);
    Ok(gdid.0)
}

/// What `gdid_decompose` writes: version, namespace byte, the four nonce
/// bytes (22..26) and the twenty hash bytes (2..22).
pub fn gdid_decompose_bytes(gdid: &[u8; 32]) -> (r: (u8, u8, [u8; 4], [u8; 20]))
    ensures
        r.0 == gdid@[0],
        r.1 == gdid@[1],
        r.2@ == gdid@.subrange(22, 26),
        r.3@ == gdid@.subrange(2, 22),
{
    let nonce: [u8; 4] = [gdid[22], gdid[23], gdid[24], gdid[25]];
    let mut hw = [0u8; 20];
    let mut i: usize = 0;
    while i < 20
        invariant
            i <= 20,
            hw@.len() == 20,
            gdid@.len() == 32,
            forall|j: int| 0 <= j < i ==> hw@[j] == gdid@[2 + j],
        decreases 20 - i,
    {
        hw[i] = gdid[2 + i];
        i = i + 1;
    }
    assert(hw@ =~= gdid@.subrange(2, 22));
    assert(nonce@ =~= gdid@.subrange(22, 26));
    (gdid[0], gdid[1], nonce, hw)
}

/// What `gdid_equal` returns for two 32-byte identifiers: 1 when equal
/// (compared in constant time), else 0.
pub fn gdid_equal_bytes(a: &[u8; 32], b: &[u8; 32]) -> (r: u8)
    ensures
        r == (if a@ == b@ { 1u8 } else { 0u8 }),
{
    if ct_eq_bytes(a.as_slice(), b.as_slice()) {
        1
    } else {
        0
    }
}

/// What `gdid_to_base58` writes for a buffer of `buf_len` bytes: the
/// `gdid:` text, shorter than 80 bytes so that it and a NUL fit, or
/// `BUFFER_SIZE` below 80.
pub fn gdid_to_base58_text(gdid: &[u8; 32], buf_len: usize) -> (r: Result<String, GdidFFIResult>)
    ensures
        buf_len < 80 ==> r == Err::<String, GdidFFIResult>(GdidFFIResult(-4i32)),
        buf_len >= 80 ==> (r matches Ok(s) && s@ == ascii_chars(spec_base58(gdid@))
            && s@.len() < 80),
{
    if buf_len < 80 {
        return Err(GdidFFIResult::buffer_size());
    }
    let g = Gdid::from_raw(gdid);
    let s = g.to_base58();
    proof { lemma_base58_short(gdid@); }
    Ok(s)
}

/// What `gdid_to_hex` writes for a buffer of `buf_len` bytes: 64 hex
/// digits and a NUL, or `BUFFER_SIZE` below 65.
pub fn gdid_to_hex_text(gdid: &[u8; 32], buf_len: usize) -> (r: Result<[u8; 65], GdidFFIResult>)
    ensures
        buf_len < 65 ==> r == Err::<[u8; 65], GdidFFIResult>(GdidFFIResult(-4i32)),
        buf_len >= 65 ==> (r matches Ok(t) && t@ == hex_text(gdid@).push(0u8)),
{
    if buf_len < 65 {
        return Err(GdidFFIResult::buffer_size());
    }
    let g = Gdid::from_raw(gdid);
    let mut hex = [0u8; 64];
    g.to_hex_buf(&mut hex);
    let mut out = [0u8; 65];
    let mut i: usize = 0;
    while i < 64
        invariant
            i <= 64,
            out@.len() == 65,
            hex@.len() == 64,
            out@[64] == 0,
            forall|j: int| 0 <= j < i ==> out@[j] == hex@[j],
        decreases 64 - i,
    {
        out[i] = hex[i];
        i = i + 1;
    }
    assert(out@ =~= hex@.push(0u8));
    Ok(out)
}

/// Overwrites an identifier with zeros.
pub fn gdid_wipe_bytes(gdid: &mut [u8; 32])
    ensures
        final(gdid)@ == Seq::new(32, |i: int| 0u8),
{
    *gdid = [0u8; 32];
    assert(final(gdid)@ =~= Seq::new(32, |i: int| 0u8));
}

} // verus!
