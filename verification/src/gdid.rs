//! Global device identifiers: 32 bytes holding a version, a namespace, a
//! fingerprint hash, a nonce and reserved zero bytes.

use vstd::prelude::*;
use crate::primitives::{blake3_hash, blake3_digest, bs58_text, bs58_encode, bs58_decoded, is_bs58_char, Bs58Outcome};
use crate::protocol::ProtocolError;
use crate::convert::{spec_from_did, lemma_did_roundtrip, gdid_prefix};
use vstd::utf8::encode_utf8;
use crate::text::{ascii_chars, ascii_string, append_bytes, decimal, decimal_bytes, hex2, hex_digit_exec, is_ascii_bytes, lemma_decimal_ascii};

verus! {

/// The namespace an identifier belongs to; its byte is the second byte of the
/// identifier.
#[derive(Debug, Clone, Copy, PartialEq, Eq, Structural)]
pub enum Namespace {
    ArkheGlobal,
    HubbleNetwork,
    Oem,
    Unknown(u8),
}

impl Namespace {
    /// The byte stored for this namespace.
    pub open spec fn spec_byte(self) -> u8 {
        match self {
            Namespace::ArkheGlobal => 0,
            Namespace::HubbleNetwork => 1,
            Namespace::Oem => 2,
            Namespace::Unknown(n) => n,
        }
    }

    /// The byte stored for this namespace.
    pub fn byte(self) -> (r: u8)
        ensures
            r == self.spec_byte(),
    {
        match self {
            Namespace::ArkheGlobal => 0,
            Namespace::HubbleNetwork => 1,
            Namespace::Oem => 2,
            Namespace::Unknown(n) => n,
        }
    }
}

/// The namespace that a stored byte stands for.
pub open spec fn namespace_of(b: u8) -> Namespace {
    if b == 0 {
        Namespace::ArkheGlobal
    } else if b == 1 {
        Namespace::HubbleNetwork
    } else if b == 2 {
        Namespace::Oem
    } else {
        Namespace::Unknown(b)
    }
}

/// A 32-byte global device identifier.
#[derive(Debug, Clone, PartialEq, Eq)]
pub struct Gdid(pub [u8; 32]);

impl View for Gdid {
    type V = Seq<u8>;

    open spec fn view(&self) -> Seq<u8> {
        self.0@
    }
}

/// The domain-separation tag hashed before a fingerprint: `arkhe-gdid-v1`.
pub open spec fn gdid_domain() -> Seq<u8> {
    seq![97u8, 114, 107, 104, 101, 45, 103, 100, 105, 100, 45, 118, 49]
}

/// The `k` little-endian bytes of `n`.
pub open spec fn le_bytes(n: nat, k: nat) -> Seq<u8>
    decreases k,
{
    if k == 0 {
        Seq::empty()
    } else {
        seq![(n % 256) as u8] + le_bytes(n / 256, (k - 1) as nat)
    }
}

/// The value of little-endian bytes.
pub open spec fn le_value(s: Seq<u8>) -> nat
    decreases s.len(),
{
    if s.len() == 0 {
        0
    } else {
        s[0] as nat + 256 * le_value(s.drop_first())
    }
}

/// The identifier derived from a fingerprint: version 1, the namespace byte,
/// the first 20 bytes of BLAKE3(`arkhe-gdid-v1` ‖ fingerprint), the nonce in
/// little-endian order, then six zero bytes.
pub open spec fn spec_from_fingerprint(fp: Seq<u8>, ns: Namespace, nonce: u32) -> Seq<u8> {
    seq![1u8, ns.spec_byte()] + blake3_hash(gdid_domain() + fp).subrange(0, 20) + le_bytes(
        nonce as nat,
        4,
    ) + Seq::new(6, |i: int| 0u8)
}

/// The name a known namespace has in text forms.
pub open spec fn namespace_name(ns: Namespace) -> Seq<u8> {
    match ns {
        Namespace::ArkheGlobal => seq![97u8, 114, 107, 104, 101],
        Namespace::HubbleNetwork => seq![104u8, 117, 98, 98, 108, 101],
        Namespace::Oem => seq![111u8, 101, 109],
        Namespace::Unknown(_) => Seq::empty(),
    }
}

/// The Base58 text of the first 30 bytes of an identifier.
pub open spec fn payload_text(g: Seq<u8>) -> Seq<u8> {
    bs58_text(g.subrange(0, 30))
}

/// The Base58 text of the first 4 bytes of BLAKE3 over the first 30 bytes.
pub open spec fn checksum_text(g: Seq<u8>) -> Seq<u8> {
    bs58_text(blake3_hash(g.subrange(0, 30)).subrange(0, 4))
}

/// `version:namespace:payload:checksum`, or `?:0xNN:payload:checksum` for an
/// unknown namespace byte `NN`.
pub open spec fn spec_base58_raw(g: Seq<u8>) -> Seq<u8> {
    let tail = seq![58u8] + payload_text(g) + seq![58u8] + checksum_text(g);
    match namespace_of(g[1]) {
        Namespace::Unknown(n) => seq![63u8, 58, 48, 120] + hex2(n) + tail,
        ns => decimal(g[0] as nat) + seq![58u8] + namespace_name(ns) + tail,
    }
}

/// The Base58 pieces of an identifier's text form decode back to the first 30
/// bytes and to the checksum, use only Base58 characters, and are at most 45
/// and 6 characters long.
pub open spec fn base58_parts_decode(g: Seq<u8>) -> bool {
    &&& blake3_hash(g.subrange(0, 30)).len() == 32
    &&& payload_text(g).len() <= 45
    &&& checksum_text(g).len() <= 6
    &&& bs58_decoded(payload_text(g)) == Bs58Outcome::Ok(g.subrange(0, 30))
    &&& bs58_decoded(checksum_text(g)) == Bs58Outcome::Ok(blake3_hash(g.subrange(0, 30)).subrange(0, 4))
    &&& forall|i: int| 0 <= i < payload_text(g).len() ==> is_bs58_char(#[trigger] payload_text(g)[i])
    &&& forall|i: int| 0 <= i < checksum_text(g).len() ==> is_bs58_char(#[trigger] checksum_text(g)[i])
}

/// `gdid:` followed by the raw Base58 form.
pub open spec fn spec_base58(g: Seq<u8>) -> Seq<u8> {
    seq![103u8, 100, 105, 100, 58] + spec_base58_raw(g)
}

/// The text form of an identifier is shorter than 80 bytes: at most 68.
pub proof fn lemma_base58_short(g: Seq<u8>)
    requires
        g.len() == 32,
        base58_parts_decode(g),
    ensures
        spec_base58(g).len() <= 68,
{
    let n = g[0] as nat;
    assert(decimal(n).len() <= 3) by {
        assert(n < 256);
        if n >= 10 {
            let m = n / 10;
            assert(decimal(n).len() == decimal(m).len() + 1);
            if m >= 10 {
                assert(m / 10 < 10);
                assert(decimal(m / 10).len() == 1);
                assert(decimal(m).len() == decimal(m / 10).len() + 1);
            } else {
                assert(decimal(m).len() == 1);
            }
        } else {
            assert(decimal(n).len() == 1);
        }
    }
}

pub proof fn lemma_le_roundtrip(n: nat, k: nat)
    requires
        n < pow256(k),
    ensures
        le_value(le_bytes(n, k)) == n,
        le_bytes(n, k).len() == k,
    decreases k,
{
    if k > 0 {
        lemma_le_roundtrip(n / 256, (k - 1) as nat);
        assert((seq![(n % 256) as u8] + le_bytes(n / 256, (k - 1) as nat)).drop_first()
            =~= le_bytes(n / 256, (k - 1) as nat));
    }
}

/// 256 to the power `k`.
pub open spec fn pow256(k: nat) -> nat
    decreases k,
{
    if k == 0 { 1 } else { 256 * pow256((k - 1) as nat) }
}

/// An identifier derived from a fingerprint has version 1, reads back its
/// nonce, and reads back its namespace unless that namespace is an unknown
/// byte equal to one of the known ones.
pub proof fn law_fingerprint_fields(fp: Seq<u8>, ns: Namespace, nonce: u32)
    requires
        fp.len() == 32,
        blake3_hash(gdid_domain() + fp).len() == 32,
        !(ns matches Namespace::Unknown(b) && b <= 2),
    ensures
        spec_from_fingerprint(fp, ns, nonce).len() == 32,
        spec_from_fingerprint(fp, ns, nonce)[0] == 1,
        namespace_of(spec_from_fingerprint(fp, ns, nonce)[1]) == ns,
        le_value(spec_from_fingerprint(fp, ns, nonce).subrange(22, 26)) == nonce,
{
    let g = spec_from_fingerprint(fp, ns, nonce);
    assert(pow256(4) == 4294967296) by {
        reveal_with_fuel(pow256, 5);
    }
    lemma_le_roundtrip(nonce as nat, 4);
    assert(g.subrange(22, 26) =~= le_bytes(nonce as nat, 4));
}

impl Gdid {
    /// Derives an identifier from a 32-byte fingerprint.
    pub fn from_fingerprint(fingerprint: &[u8; 32], namespace: Namespace, nonce: u32) -> (g: Self)
        ensures
            g@ == spec_from_fingerprint(fingerprint@, namespace, nonce),
            blake3_hash(gdid_domain() + fingerprint@).len() == 32,
    {
        let mut input: Vec<u8> = vec![97u8, 114, 107, 104, 101, 45, 103, 100, 105, 100, 45, 118, 49];
        append_bytes(&mut input, fingerprint.as_slice());
        let h = blake3_digest(input.as_slice());
        let n0 = (nonce % 256) as u8;
        let n1 = ((nonce / 256) % 256) as u8;
        let n2 = ((nonce / 65536) % 256) as u8;
        let n3 = ((nonce / 16777216) % 256) as u8;
        let bytes: [u8; 32] = [
            1u8, namespace.byte(), h[0], h[1], h[2], h[3], h[4], h[5], h[6], h[7], h[8], h[9],
            h[10], h[11], h[12], h[13], h[14], h[15], h[16], h[17], h[18], h[19], n0, n1, n2, n3,
            0, 0, 0, 0, 0, 0,
        ];
        let g = Gdid(bytes);
        proof {
            let n = nonce as nat;
            assert(le_bytes(n, 4) =~= seq![n0, n1, n2, n3]) by {
                reveal_with_fuel(le_bytes, 5);
                assert((n / 256) % 256 == n1);
                assert(((n / 256) / 256) % 256 == n2);
                assert((((n / 256) / 256) / 256) % 256 == n3);
            }
            assert(g@ =~= spec_from_fingerprint(fingerprint@, namespace, nonce));
        }
        g
    }

    /// The version byte.
    pub fn version(&self) -> (r: u8)
        ensures
            r == self@[0],
    {
        self.0[0]
    }

    /// The namespace named by the second byte.
    pub fn namespace(&self) -> (r: Namespace)
        ensures
            r == namespace_of(self@[1]),
    {
        match self.0[1] {
            0 => Namespace::ArkheGlobal,
            1 => Namespace::HubbleNetwork,
            2 => Namespace::Oem,
            n => Namespace::Unknown(n),
        }
    }

    /// The nonce stored little-endian in bytes 22..26.
    pub fn nonce(&self) -> (r: u32)
        ensures
            r == le_value(self@.subrange(22, 26)),
    {
        let b0 = self.0[22] as u32;
        let b1 = self.0[23] as u32;
        let b2 = self.0[24] as u32;
        let b3 = self.0[25] as u32;
        proof {
            let s = self@.subrange(22, 26);
            reveal_with_fuel(le_value, 5);
            assert(s.drop_first().drop_first().drop_first().drop_first().len() == 0);
        }
        b0 + 256 * (b1 + 256 * (b2 + 256 * b3))
    }

    /// The identifier's bytes.
    pub fn as_bytes(&self) -> (r: &[u8; 32])
        ensures
            r@ == self@,
    {
        &self.0
    }

    /// The identifier's bytes.
    pub fn raw_bytes(&self) -> (r: &[u8; 32])
        ensures
            r@ == self@,
    {
        &self.0
    }

    /// The identifier with exactly these bytes.
    pub fn from_raw(bytes: &[u8; 32]) -> (g: Self)
        ensures
            g@ == bytes@,
    {
        Gdid(*bytes)
    }

    /// The raw Base58 text form (see `spec_base58_raw`).
    pub fn to_base58_raw(&self) -> (s: String)
        ensures
            s@ == ascii_chars(spec_base58_raw(self@)),
            base58_parts_decode(self@),
    {
        let ghost g = self@;
        let payload = vstd::slice::slice_subrange(self.0.as_slice(), 0, 30);
        assert(payload@ =~= g.subrange(0, 30));
        let payload_b58 = bs58_encode(payload);
        let checksum = blake3_digest(payload);
        let cks = vstd::slice::slice_subrange(checksum.as_slice(), 0, 4);
        let checksum_b58 = bs58_encode(cks);
        let mut out: Vec<u8> = Vec::new();
        match self.namespace() {
            Namespace::Unknown(n) => {
                append_bytes(&mut out, vec![63u8, 58, 48, 120].as_slice());
                out.push(hex_digit_exec(n / 16));
                out.push(hex_digit_exec(n % 16));
            },
            ns => {
                let v = decimal_bytes(self.0[0] as u64);
                append_bytes(&mut out, v.as_slice());
                out.push(58u8);
                let name: Vec<u8> = match ns {
                    Namespace::ArkheGlobal => vec![97u8, 114, 107, 104, 101],
                    Namespace::HubbleNetwork => vec![104u8, 117, 98, 98, 108, 101],
                    _ => vec![111u8, 101, 109],
                };
                append_bytes(&mut out, name.as_slice());
            },
        }
        out.push(58u8);
        append_bytes(&mut out, payload_b58.as_slice());
        out.push(58u8);
        append_bytes(&mut out, checksum_b58.as_slice());
        proof {
            let tail = seq![58u8] + payload_text(g) + seq![58u8] + checksum_text(g);
            assert(cks@ =~= blake3_hash(g.subrange(0, 30)).subrange(0, 4));
            match namespace_of(g[1]) {
                Namespace::Unknown(n) => {
                    assert(out@ =~= seq![63u8, 58, 48, 120] + hex2(n) + tail);
                },
                ns => {
                    assert(out@ =~= decimal(g[0] as nat) + seq![58u8] + namespace_name(ns) + tail);
                },
            }
            lemma_decimal_ascii(g[0] as nat);
            assert(base58_parts_decode(g));
            assert(is_ascii_bytes(out@)) by {
                assert forall|i: int| 0 <= i < out@.len() implies #[trigger] out@[i] < 128 by {
                    if i >= out@.len() - checksum_b58@.len() {
                        assert(is_bs58_char(checksum_b58@[i - (out@.len() - checksum_b58@.len())]));
                    } else if i >= out@.len() - checksum_b58@.len() - 1 - payload_b58@.len()
                        && i < out@.len() - checksum_b58@.len() - 1 {
                        assert(is_bs58_char(
                            payload_b58@[i - (out@.len() - checksum_b58@.len() - 1 - payload_b58@.len())],
                        ));
                    }
                }
            }
        }
        ascii_string(out)
    }

    /// `gdid:` followed by the raw Base58 form.
    pub fn to_base58(&self) -> (s: String)
        ensures
            s@ == ascii_chars(spec_base58(self@)),
            base58_parts_decode(self@),
            spec_from_did(encode_utf8(s@)) == Ok::<Seq<u8>, Seq<char>>(
                self@.subrange(0, 30) + seq![0u8, 0u8],
            ),
    {
        let raw = self.to_base58_raw();
        proof { lemma_did_roundtrip(self@, gdid_prefix()); }
        let mut s = ascii_string(vec![103u8, 100, 105, 100, 58]);
        s.append(raw.as_str());
        proof {
            assert(s@ =~= ascii_chars(spec_base58(self@)));
        }
        s
    }

    /// The identifier derived from a public key; derivation never fails.
    pub fn derive(pubkey: &[u8; 32], namespace: Namespace, nonce: u32) -> (r: Result<
        Self,
        ProtocolError,
    >)
        ensures
            r matches Ok(g) && g@ == spec_from_fingerprint(pubkey@, namespace, nonce),
    {
        Ok(Self::from_fingerprint(pubkey, namespace, nonce))
    }
}

} // verus!
