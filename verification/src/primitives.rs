//! The hash functions and encodings that come from outside crates, each behind
//! one trusted item whose contract says what the crate computes.

use vstd::prelude::*;

verus! {

/// The BLAKE3 digest of `data` (32 bytes), as computed by the `blake3` crate.
pub uninterp spec fn blake3_hash(data: Seq<u8>) -> Seq<u8>;

/// Calls `blake3::hash` and returns the digest bytes.
/// Trusted: the result is the value named `blake3_hash(data)`.
#[verifier::external_body]
pub(crate) fn blake3_digest(data: &[u8]) -> (r: [u8; 32])
    ensures
        r@ == blake3_hash(data@),
{
    *blake3::hash(data).as_bytes()
}

/// The Base58 text (Bitcoin alphabet) that `bs58::encode` produces for `data`.
pub uninterp spec fn bs58_text(data: Seq<u8>) -> Seq<u8>;

/// What `bs58::decode(text).into_vec()` gives: the bytes, or the text of the
/// decoding error.
pub uninterp spec fn bs58_decoded(text: Seq<u8>) -> Bs58Outcome;

/// Decoded bytes, or the text of the decoding error.
pub type Bs58Outcome = Result<Seq<u8>, Seq<char>>;

/// A byte of the Bitcoin Base58 alphabet
/// `123456789ABCDEFGHJKLMNPQRSTUVWXYZabcdefghijkmnopqrstuvwxyz`.
pub open spec fn is_bs58_char(c: u8) -> bool {
    ||| 49 <= c <= 57
    ||| (65 <= c <= 90 && c != 73 && c != 79)
    ||| (97 <= c <= 122 && c != 108)
}

/// Calls `bs58::encode(data).into_vec()`.
/// Trusted: the result is `bs58_text(data)`; every output byte is looked up in
/// the Bitcoin alphabet (encode.rs maps each digit through `alpha.encode`);
/// it is written into a buffer of `max_encoded_len(n) = n + (n + 1) / 2`
/// bytes, so it is no longer than that; and decoding the output gives `data`
/// back, which is what the crate is for.
#[verifier::external_body]
pub(crate) fn bs58_encode(data: &[u8]) -> (r: Vec<u8>)
    ensures
        r@ == bs58_text(data@),
        r@.len() <= data@.len() + (data@.len() + 1) / 2,
        forall|i: int| 0 <= i < r@.len() ==> is_bs58_char(#[trigger] r@[i]),
        bs58_decoded(r@) == Bs58Outcome::Ok(data@),
{
    bs58::encode(data).into_vec()
}

/// Calls `bs58::decode(text).into_vec()`, turning a decoding error into its
/// display text. Trusted: the outcome is the one named `bs58_decoded(text)`.
#[verifier::external_body]
pub(crate) fn bs58_decode(text: &[u8]) -> (r: Result<Vec<u8>, String>)
    ensures
        match r {
            Ok(v) => bs58_decoded(text@) matches Ok(d) && d == v@,
            Err(m) => bs58_decoded(text@) matches Err(e) && e == m@,
        },
{
    match bs58::decode(text).into_vec() {
        Ok(v) => Ok(v),
        Err(e) => Err(e.to_string()),
    }
}

/// Calls `subtle::ConstantTimeEq::ct_eq` on two byte slices and converts the
/// `Choice` to `bool`. Trusted: true exactly when the slices are equal (the
/// crate compares lengths first, then every byte).
#[verifier::external_body]
pub(crate) fn ct_eq_bytes(a: &[u8], b: &[u8]) -> (r: bool)
    ensures
        r == (a@ == b@),
{
    bool::from(subtle::ConstantTimeEq::ct_eq(a, b))
}

/// The SHA3-256 digest of `data` (32 bytes), as computed by the `sha3` crate.
pub uninterp spec fn sha3_256_hash(data: Seq<u8>) -> Seq<u8>;

/// Calls `Sha3_256::digest` on `data`. Trusted: the result is the value named
/// `sha3_256_hash(data)`.
#[verifier::external_body]
pub(crate) fn sha3_256_digest(data: &[u8]) -> (r: [u8; 32])
    ensures
        r@ == sha3_256_hash(data@),
{
    let d = <sha3::Sha3_256 as sha3::Digest>::digest(data);
    let mut out = [0u8; 32];
    out.copy_from_slice(&d);
    out
}

/// The bytes of the name-based (version 5) UUID that `uuid` builds from
/// `name` in the DNS namespace.
pub uninterp spec fn uuid_v5_dns(name: Seq<u8>) -> Seq<u8>;

/// Calls `uuid::Uuid::new_v5(&Uuid::NAMESPACE_DNS, name)` and returns its 16
/// bytes. Trusted: the result is the value named `uuid_v5_dns(name)`.
#[verifier::external_body]
pub(crate) fn uuid_v5_dns_bytes(name: &[u8]) -> (r: [u8; 16])
    ensures
        r@ == uuid_v5_dns(name@),
{
    uuid::Uuid::new_v5(&uuid::Uuid::NAMESPACE_DNS, name).into_bytes()
}

} // verus!
