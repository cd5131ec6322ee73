//! Conversions between identifiers, DIDs and UUIDs.

use vstd::prelude::*;
use vstd::string::StringSliceAdditionalSpecFns;
use vstd::utf8::encode_utf8;
use crate::gdid::{Gdid, spec_base58_raw, spec_base58, base58_parts_decode};
use crate::convert::{spec_from_did, gdid_prefix, lemma_did_roundtrip, lemma_raw_split, spec_did_string, did_prefix};
use crate::primitives::{bs58_encode, bs58_text, is_bs58_char, uuid_v5_dns, uuid_v5_dns_bytes};
use crate::text::{ascii_chars, ascii_string, bytes_start_with, starts_with, append_bytes, is_ascii_bytes, lemma_ascii_encode};

verus! {

/// `did:arkhe:device:`
pub open spec fn device_prefix() -> Seq<u8> {
    seq![100u8, 105, 100, 58, 97, 114, 107, 104, 101, 58, 100, 101, 118, 105, 99, 101, 58]
}

/// `did:arkhe:gdid:`
pub open spec fn gdid_did_prefix() -> Seq<u8> {
    seq![100u8, 105, 100, 58, 97, 114, 107, 104, 101, 58, 103, 100, 105, 100, 58]
}

/// The device DID of an identifier.
pub open spec fn spec_gdid_to_did(g: Seq<u8>) -> Seq<u8> {
    device_prefix() + spec_base58_raw(g)
}

/// What follows one of the three accepted DID prefixes.
pub open spec fn did_body(s: Seq<u8>) -> Option<Seq<u8>> {
    if starts_with(s, device_prefix()) {
        Some(s.skip(17))
    } else if starts_with(s, gdid_did_prefix()) {
        Some(s.skip(15))
    } else if starts_with(s, gdid_prefix()) {
        Some(s.skip(5))
    } else {
        None
    }
}

/// What `did_to_gdid` gives for the UTF-8 bytes of its input: the identifier's
/// bytes, or the error text.
pub open spec fn spec_did_to_gdid(s: Seq<u8>, text: Seq<char>) -> Result<Seq<u8>, Seq<char>> {
    match did_body(s) {
        None => Err("unrecognized DID format: "@ + text),
        Some(body) => match spec_from_did(gdid_prefix() + body) {
            Ok(b) => Ok(b),
            Err(m) => Err("invalid format: "@ + m),
        },
    }
}

/// The device DID of an identifier: `did:arkhe:device:` and its raw Base58
/// form. Reading it back with `did_to_gdid` gives the first 30 bytes followed
/// by two zero bytes.
pub fn gdid_to_did(gdid: &Gdid) -> (s: String)
    ensures
        s@ == ascii_chars(spec_gdid_to_did(gdid@)),
        spec_did_to_gdid(encode_utf8(s@), s@) == Ok::<Seq<u8>, Seq<char>>(
            gdid@.subrange(0, 30) + seq![0u8, 0u8],
        ),
{
    let raw = gdid.to_base58_raw();
    let mut s = ascii_string(
        vec![100u8, 105, 100, 58, 97, 114, 107, 104, 101, 58, 100, 101, 118, 105, 99, 101, 58],
    );
    s.append(raw.as_str());
    proof {
        let r = spec_base58_raw(gdid@);
        assert(s@ =~= ascii_chars(device_prefix() + r));
        lemma_did_roundtrip(gdid@, gdid_prefix());
        crate::convert::lemma_raw_split(gdid@);
        let full = device_prefix() + r;
        assert(is_ascii_bytes(full)) by {
            assert forall|i: int| 0 <= i < full.len() implies #[trigger] full[i] < 128 by {
                if i >= 17 {
                    assert(full[i] == r[i - 17]);
                }
            }
        }
        lemma_ascii_encode(full);
        assert(full.subrange(0, 17) =~= device_prefix());
        assert(full.skip(17) =~= r);
        assert(gdid_prefix() + r == gdid_prefix() + r);
    }
    s
}

/// Reads an identifier from a DID with one of the prefixes
/// `did:arkhe:device:`, `did:arkhe:gdid:` or `gdid:` (see `spec_did_to_gdid`).
pub fn did_to_gdid(did: &str) -> (r: Result<Gdid, String>)
    ensures
        match r {
            Ok(g) => spec_did_to_gdid(did.spec_bytes(), did@) == Ok::<Seq<u8>, Seq<char>>(g@),
            Err(m) => spec_did_to_gdid(did.spec_bytes(), did@) == Err::<Seq<u8>, Seq<char>>(m@),
        },
{
    let b = did.as_bytes();
    let body: &[u8] = if bytes_start_with(
        b,
        vec![100u8, 105, 100, 58, 97, 114, 107, 104, 101, 58, 100, 101, 118, 105, 99, 101, 58].as_slice(),
    ) {
        vstd::slice::slice_subrange(b, 17, b.len())
    } else if bytes_start_with(
        b,
        vec![100u8, 105, 100, 58, 97, 114, 107, 104, 101, 58, 103, 100, 105, 100, 58].as_slice(),
    ) {
        vstd::slice::slice_subrange(b, 15, b.len())
    } else if bytes_start_with(b, vec![103u8, 100, 105, 100, 58].as_slice()) {
        vstd::slice::slice_subrange(b, 5, b.len())
    } else {
        let mut m = String::from_str("unrecognized DID format: ");
        m.append(did);
        return Err(m);
    };
    let mut text: Vec<u8> = vec![103u8, 100, 105, 100, 58];
    append_bytes(&mut text, body);
    match Gdid::from_did_bytes(text.as_slice()) {
        Ok(g) => Ok(g),
        Err(e) => {
            let m = e.to_string();
            Err(m)
        },
    }
}

/// `prefix ‖ raw`, for each accepted prefix, reads as `gdid:` and `raw`, and
/// is ASCII where `raw` is.
proof fn lemma_did_body(raw: Seq<u8>, prefix: Seq<u8>)
    requires
        prefix == device_prefix() || prefix == gdid_did_prefix() || prefix == gdid_prefix(),
        is_ascii_bytes(raw),
    ensures
        did_body(prefix + raw) == Some(raw),
        encode_utf8(ascii_chars(prefix + raw)) == prefix + raw,
{
    let full = prefix + raw;
    let n = prefix.len() as int;
    assert(full.subrange(0, n) =~= prefix);
    assert(full.skip(n) =~= raw);
    if prefix != device_prefix() && starts_with(full, device_prefix()) {
        assert(full.subrange(0, 17)[0] == device_prefix()[0]);
        assert(full.subrange(0, 17)[10] == device_prefix()[10]);
    }
    if prefix == gdid_prefix() && starts_with(full, gdid_did_prefix()) {
        assert(full.subrange(0, 15)[0] == gdid_did_prefix()[0]);
    }
    assert(is_ascii_bytes(full)) by {
        assert forall|i: int| 0 <= i < full.len() implies #[trigger] full[i] < 128 by {
            if i >= n {
                assert(full[i] == raw[i - n]);
            }
        }
    }
    lemma_ascii_encode(full);
}

/// Every text form of an identifier reads back through `did_to_gdid`: its
/// device DID, its `did:arkhe:gdid:` form and its `gdid:` form each give the
/// identifier back, where its last two bytes are zero (as they are in every
/// identifier made from a fingerprint) and its Base58 pieces decode (which
/// every identifier's text form guarantees). A text with none of the three
/// prefixes is refused as an unrecognized DID format.
pub proof fn law_did_to_gdid_roundtrip(g: Seq<u8>)
    requires
        g.len() == 32,
        g[30] == 0,
        g[31] == 0,
        base58_parts_decode(g),
    ensures
        spec_did_to_gdid(encode_utf8(ascii_chars(spec_gdid_to_did(g))), ascii_chars(spec_gdid_to_did(g)))
            == Ok::<Seq<u8>, Seq<char>>(g),
        spec_did_to_gdid(encode_utf8(ascii_chars(spec_did_string(g))), ascii_chars(spec_did_string(g)))
            == Ok::<Seq<u8>, Seq<char>>(g),
        spec_did_to_gdid(encode_utf8(ascii_chars(spec_base58(g))), ascii_chars(spec_base58(g)))
            == Ok::<Seq<u8>, Seq<char>>(g),
        forall|s: Seq<u8>, text: Seq<char>|
            !starts_with(s, device_prefix()) && !starts_with(s, gdid_did_prefix()) && !starts_with(s, gdid_prefix())
                ==> #[trigger] spec_did_to_gdid(s, text) == Err::<Seq<u8>, Seq<char>>(
                "unrecognized DID format: "@ + text,
            ),
{
    let raw = spec_base58_raw(g);
    lemma_raw_split(g);
    lemma_did_roundtrip(g, gdid_prefix());
    assert(g.subrange(0, 30) + seq![0u8, 0u8] =~= g);
    lemma_did_body(raw, device_prefix());
    lemma_did_body(raw, gdid_did_prefix());
    lemma_did_body(raw, gdid_prefix());
    assert(did_prefix() == gdid_did_prefix());
    assert(spec_base58(g) == gdid_prefix() + raw);
}

/// The name-based UUID (version 5, DNS namespace) of an identifier's bytes.
pub fn gdid_to_uuid(gdid: &Gdid) -> (u: [u8; 16])
    ensures
        u@ == uuid_v5_dns(gdid@),
{
    uuid_v5_dns_bytes(gdid.as_slice())
}

/// The identifier holding a UUID: version 1, namespace 0, the 16 UUID bytes,
/// then zero bytes.
pub fn uuid_to_gdid(u: [u8; 16]) -> (g: Gdid)
    ensures
        g@ == seq![1u8, 0u8] + u@ + Seq::new(14, |i: int| 0u8),
{
    let mut bytes = [0u8; 32];
    bytes[0] = 1;
    bytes[1] = 0;
    let mut i: usize = 0;
    while i < 16
        invariant
            i <= 16,
            bytes@.len() == 32,
            bytes@[0] == 1,
            bytes@[1] == 0,
            forall|j: int| 0 <= j < i ==> bytes@[2 + j] == u@[j],
            forall|j: int| 18 <= j < 32 ==> bytes@[j] == 0,
        decreases 16 - i,
    {
        bytes[2 + i] = u[i];
        i = i + 1;
    }
    let g = Gdid::from_raw(&bytes);
    assert(g@ =~= seq![1u8, 0u8] + u@ + Seq::new(14, |i: int| 0u8));
    g
}

/// What a conversion to and from a UUID keeps.
pub struct UuidConversionInfo {
    pub preserved_bytes: usize,
    pub zeroed_bytes: usize,
    pub nonce_preserved: bool,
}

impl UuidConversionInfo {
    /// The conversion keeps 16 bytes, zeroes 14 and loses the nonce.
    pub fn for_conversion() -> (r: Self)
        ensures
            r.preserved_bytes == 16,
            r.zeroed_bytes == 14,
            !r.nonce_preserved,
    {
        UuidConversionInfo { preserved_bytes: 16, zeroed_bytes: 14, nonce_preserved: false }
    }
}

/// An identifier made from a UUID holds the UUID in bytes 2..18, and the
/// nonce bytes 22..26 are zero, so the UUID survives and the nonce does not.
pub proof fn law_uuid_bytes_kept(u: Seq<u8>)
    requires
        u.len() == 16,
    ensures
        (seq![1u8, 0u8] + u + Seq::new(14, |i: int| 0u8)).subrange(2, 18) == u,
        (seq![1u8, 0u8] + u + Seq::new(14, |i: int| 0u8)).subrange(22, 26) == seq![0u8, 0u8, 0u8, 0u8],
{
    assert((seq![1u8, 0u8] + u + Seq::new(14, |i: int| 0u8)).subrange(2, 18) =~= u);
    assert((seq![1u8, 0u8] + u + Seq::new(14, |i: int| 0u8)).subrange(22, 26) =~= seq![0u8, 0u8, 0u8, 0u8]);
}

/// The values a DID document of an identifier is made of.
pub struct DidDocumentParts {
    /// The device DID.
    pub did_id: String,
    /// The id of the document's one verification method: the DID and `#key-1`.
    pub key_id: String,
    /// The multibase form of the identifier's bytes: `z` and their Base58.
    pub public_key_multibase: String,
}

/// The values of the DID document of an identifier: its device DID, the
/// method id `<did>#key-1`, and `z` followed by the Base58 of all 32 bytes.
pub fn did_document_parts(gdid: &Gdid) -> (p: DidDocumentParts)
    ensures
        p.did_id@ == ascii_chars(spec_gdid_to_did(gdid@)),
        p.key_id@ == ascii_chars(spec_gdid_to_did(gdid@)) + "#key-1"@,
        p.public_key_multibase@ == ascii_chars(seq![122u8] + bs58_text(gdid@)),
{
    let did_id = gdid_to_did(gdid);
    let mut key_id = String::from_str(did_id.as_str());
    key_id.append("#key-1");
    let encoded = bs58_encode(gdid.as_slice());
    let mut mb: Vec<u8> = vec![122u8];
    append_bytes(&mut mb, encoded.as_slice());
    proof {
        assert(is_ascii_bytes(mb@)) by {
            assert forall|i: int| 0 <= i < mb@.len() implies #[trigger] mb@[i] < 128 by {
                if i > 0 {
                    assert(is_bs58_char(encoded@[i - 1]));
                }
            }
        }
        assert(mb@ =~= seq![122u8] + bs58_text(gdid@));
    }
    let public_key_multibase = ascii_string(mb);
    DidDocumentParts { did_id, key_id, public_key_multibase }
}

} // verus!
