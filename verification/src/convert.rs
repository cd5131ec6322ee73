//! Text and buffer forms of identifiers: lowercase hex, DID strings, slices.

use vstd::prelude::*;
use vstd::string::StringSliceAdditionalSpecFns;
use vstd::utf8::encode_utf8;
use crate::gdid::{Gdid, spec_base58_raw, payload_text, checksum_text, namespace_of, namespace_name, Namespace, base58_parts_decode};
use crate::primitives::{blake3_hash, blake3_digest, bs58_decoded, bs58_decode, is_bs58_char, Bs58Outcome};
use crate::text::{
    ascii_chars, ascii_string, decimal, hex_digit, hex_digit_exec, hex2, is_ascii_bytes, split_on,
    split_ranges, starts_with, bytes_start_with, usize_to_string, lemma_ascii_encode,
    lemma_decimal_ascii, free_of, lemma_split_four_exact,
};

verus! {

/// Why a conversion failed.
#[derive(Debug, Clone, PartialEq, Eq)]
pub enum ConvertError {
    BufferTooSmall { needed: usize, got: usize },
    InvalidFormat(String),
    LossyConversion(String),
}

/// The display text of a conversion error.
pub open spec fn convert_error_text(e: ConvertError) -> Seq<char> {
    match e {
        ConvertError::BufferTooSmall { needed, got } => "buffer too small: need "@ + ascii_chars(
            decimal(needed as nat),
        ) + " bytes, got "@ + ascii_chars(decimal(got as nat)),
        ConvertError::InvalidFormat(m) => "invalid format: "@ + m@,
        ConvertError::LossyConversion(m) => "lossy conversion: "@ + m@,
    }
}

impl ConvertError {
    /// The display text of the error.
    pub fn to_string(&self) -> (s: String)
        ensures
            s@ == convert_error_text(*self),
    {
        match self {
            ConvertError::BufferTooSmall { needed, got } => {
                let mut s = String::from_str("buffer too small: need ");
                let a = usize_to_string(*needed);
                s.append(a.as_str());
                s.append(" bytes, got ");
                let b = usize_to_string(*got);
                s.append(b.as_str());
                s
            },
            ConvertError::InvalidFormat(m) => {
                let mut s = String::from_str("invalid format: ");
                s.append(m.as_str());
                s
            },
            ConvertError::LossyConversion(m) => {
                let mut s = String::from_str("lossy conversion: ");
                s.append(m.as_str());
                s
            },
        }
    }
}

/// The lowercase hex text of `b`: two digits per byte, high nibble first.
pub open spec fn hex_text(b: Seq<u8>) -> Seq<u8> {
    Seq::new(
        2 * b.len(),
        |i: int|
            if i % 2 == 0 {
                hex_digit(b[i / 2] as int / 16)
            } else {
                hex_digit(b[i / 2] as int % 16)
            },
    )
}

/// The value of a hex digit of either case.
pub open spec fn hex_value(c: u8) -> Option<u8> {
    if 48 <= c <= 57 {
        Some((c - 48) as u8)
    } else if 97 <= c <= 102 {
        Some((c - 97 + 10) as u8)
    } else if 65 <= c <= 70 {
        Some((c - 65 + 10) as u8)
    } else {
        None
    }
}

/// Decodes pairs of hex digits; the error is the first byte that is no digit.
pub open spec fn hex_decode(s: Seq<u8>) -> Result<Seq<u8>, u8>
    decreases s.len(),
{
    if s.len() < 2 {
        Ok(Seq::empty())
    } else {
        match hex_value(s[0]) {
            None => Err(s[0]),
            Some(h) => match hex_value(s[1]) {
                None => Err(s[1]),
                Some(l) => match hex_decode(s.skip(2)) {
                    Ok(rest) => Ok(seq![(h * 16 + l) as u8] + rest),
                    Err(c) => Err(c),
                },
            },
        }
    }
}

/// Puts already decoded bytes in front of a decoding outcome.
pub open spec fn prepend_decoded(prefix: Seq<u8>, r: Result<Seq<u8>, u8>) -> Result<Seq<u8>, u8> {
    match r {
        Ok(o) => Ok(prefix + o),
        Err(c) => Err(c),
    }
}

/// The message for input text of the wrong length.
pub open spec fn hex_length_message(n: nat) -> Seq<char> {
    "hex must be 64 chars, got "@ + ascii_chars(decimal(n))
}

/// The message for a byte that is no hex digit.
pub open spec fn hex_char_message(c: u8) -> Seq<char> {
    "invalid hex char: '"@ + seq![c as char] + "'"@
}

/// What `from_hex` gives for the UTF-8 bytes of its input: the identifier's
/// bytes, or the error message.
pub open spec fn spec_from_hex(s: Seq<u8>) -> Result<Seq<u8>, Seq<char>> {
    if s.len() != 64 {
        Err(hex_length_message(s.len()))
    } else {
        match hex_decode(s) {
            Ok(b) => Ok(b),
            Err(c) => Err(hex_char_message(c)),
        }
    }
}

/// `did:arkhe:gdid:`
pub open spec fn did_prefix() -> Seq<u8> {
    seq![100u8, 105, 100, 58, 97, 114, 107, 104, 101, 58, 103, 100, 105, 100, 58]
}

/// `gdid:`
pub open spec fn gdid_prefix() -> Seq<u8> {
    seq![103u8, 100, 105, 100, 58]
}

/// The DID text of an identifier: `did:arkhe:gdid:` and the raw Base58 form.
pub open spec fn spec_did_string(g: Seq<u8>) -> Seq<u8> {
    did_prefix() + spec_base58_raw(g)
}

/// The message for a DID string of the wrong prefix.
pub open spec fn did_prefix_message() -> Seq<char> {
    "must start with 'did:arkhe:gdid:' or 'gdid:'"@
}

/// What follows a DID prefix, when one is there.
pub open spec fn did_inner(s: Seq<u8>) -> Option<Seq<u8>> {
    if starts_with(s, did_prefix()) {
        Some(s.skip(15))
    } else if starts_with(s, gdid_prefix()) {
        Some(s.skip(5))
    } else {
        None
    }
}

/// What `from_did_string` gives for the UTF-8 bytes of its input: the
/// identifier's bytes (30 decoded payload bytes and two zero bytes), or the
/// error message.
pub open spec fn spec_from_did(s: Seq<u8>) -> Result<Seq<u8>, Seq<char>> {
    match did_inner(s) {
        None => Err(did_prefix_message()),
        Some(inner) => {
            let parts = split_on(inner, 58);
            if parts.len() != 4 {
                Err("expected 4 colon-separated parts after prefix, got "@ + ascii_chars(
                    decimal(parts.len()),
                ))
            } else {
                match bs58_decoded(parts[2]) {
                    Err(e) => Err("base58 payload: "@ + e),
                    Ok(p) => if p.len() != 30 {
                        Err("payload decoded to "@ + ascii_chars(decimal(p.len()))
                            + " bytes, expected 30"@)
                    } else {
                        match bs58_decoded(parts[3]) {
                            Err(e) => Err("base58 checksum: "@ + e),
                            Ok(c) => if c.len() != 4 {
                                Err("checksum decoded to "@ + ascii_chars(decimal(c.len()))
                                    + " bytes, expected 4"@)
                            } else if blake3_hash(p).subrange(0, 4) != c {
                                Err("checksum mismatch"@)
                            } else {
                                Ok(p + seq![0u8, 0u8])
                            },
                        }
                    },
                }
            }
        },
    }
}

/// The value of a hex digit, or the error naming the byte.
fn hex_val(c: u8) -> (r: Result<u8, ConvertError>)
    ensures
        match r {
            Ok(v) => hex_value(c) == Some(v),
            Err(ConvertError::InvalidFormat(m)) => hex_value(c) is None && m@ == hex_char_message(c),
            Err(_) => false,
        },
{
    if 48 <= c && c <= 57 {
        Ok(c - 48)
    } else if 97 <= c && c <= 102 {
        Ok(c - 97 + 10)
    } else if 65 <= c && c <= 70 {
        Ok(c - 65 + 10)
    } else {
        let mut m = String::from_str("invalid hex char: '");
        string_push_char(&mut m, c as char);
        m.append("'");
        Err(ConvertError::InvalidFormat(m))
    }
}

/// Appends one character with `String::push`.
#[verifier::external_body]
fn string_push_char(s: &mut String, c: char)
    ensures
        final(s)@ == old(s)@.push(c),
{
    s.push(c);
}

/// Decoding the hex text of bytes gives them back.
pub proof fn lemma_hex_roundtrip(b: Seq<u8>)
    ensures
        hex_decode(hex_text(b)) == Ok::<Seq<u8>, u8>(b),
    decreases b.len(),
{
    if b.len() > 0 {
        let t = hex_text(b);
        let h = b[0] as int / 16;
        let l = b[0] as int % 16;
        assert(t[0] == hex_digit(h));
        assert(t[1] == hex_digit(l));
        assert(hex_value(hex_digit(h)) == Some(h as u8));
        assert(hex_value(hex_digit(l)) == Some(l as u8));
        assert(t.skip(2) =~= hex_text(b.drop_first()));
        lemma_hex_roundtrip(b.drop_first());
        assert((h * 16 + l) as u8 == b[0]);
        assert(seq![(h * 16 + l) as u8] + b.drop_first() =~= b);
    } else {
        assert(hex_text(b).len() == 0);
        assert(b =~= Seq::<u8>::empty());
    }
}

pub proof fn lemma_hex_text_ascii(b: Seq<u8>)
    ensures
        is_ascii_bytes(hex_text(b)),
        hex_text(b).len() == 2 * b.len(),
{
}

/// Decoding the hex text of an identifier gives the identifier back.
pub proof fn law_hex_roundtrip(g: Gdid)
    ensures
        spec_from_hex(encode_utf8(ascii_chars(hex_text(g@)))) == Ok::<Seq<u8>, Seq<char>>(g@),
{
    lemma_hex_text_ascii(g@);
    lemma_ascii_encode(hex_text(g@));
    lemma_hex_roundtrip(g@);
}

/// The bytes with ASCII capitals made lowercase, as `to_ascii_lowercase` does.
pub open spec fn ascii_lower(s: Seq<u8>) -> Seq<u8> {
    Seq::new(s.len(), |i: int| if 65 <= s[i] <= 90 { (s[i] + 32) as u8 } else { s[i] })
}

/// Pairs of hex digits that decode print back as the same digits in
/// lowercase.
proof fn lemma_hex_decode_lower(s: Seq<u8>, b: Seq<u8>)
    requires
        s.len() % 2 == 0,
        hex_decode(s) == Ok::<Seq<u8>, u8>(b),
    ensures
        hex_text(b) == ascii_lower(s),
        is_ascii_bytes(s),
        2 * b.len() == s.len(),
    decreases s.len(),
{
    if s.len() >= 2 {
        let h = hex_value(s[0]).unwrap();
        let l = hex_value(s[1]).unwrap();
        let rest = hex_decode(s.skip(2)).unwrap();
        lemma_hex_decode_lower(s.skip(2), rest);
        assert(b == seq![(h * 16 + l) as u8] + rest);
        assert(h < 16 && l < 16);
        assert(b[0] as int / 16 == h);
        assert(b[0] as int % 16 == l);
        let t = hex_text(b);
        let low = ascii_lower(s);
        assert forall|i: int| 0 <= i < t.len() implies t[i] == low[i] by {
            if i >= 2 {
                assert(b[i / 2] == rest[(i - 2) / 2]);
                assert(t[i] == hex_text(rest)[i - 2]);
                assert(s[i] == s.skip(2)[i - 2]);
                assert(low[i] == ascii_lower(s.skip(2))[i - 2]);
            }
        }
        assert(t =~= low);
        assert forall|i: int| 0 <= i < s.len() implies #[trigger] s[i] < 128 by {
            if i >= 2 {
                assert(s[i] == s.skip(2)[i - 2]);
            }
        }
    } else {
        assert(b =~= Seq::<u8>::empty());
        assert(hex_text(b) =~= ascii_lower(s));
    }
}

/// Text that parses as an identifier prints back as its lowercase form: where
/// `from_hex` accepts the bytes `s`, giving `b`, the text is ASCII and the hex
/// text of `b` is `s` with its capitals made lowercase.
pub proof fn law_from_hex_prints_lowercase(s: Seq<u8>, b: Seq<u8>)
    requires
        spec_from_hex(s) == Ok::<Seq<u8>, Seq<char>>(b),
    ensures
        is_ascii_bytes(s),
        hex_text(b) == ascii_lower(s),
{
    lemma_hex_decode_lower(s, b);
}

/// The bytes of a namespace name or numeral contain no colon.
proof fn lemma_raw_head_free(g: Seq<u8>)
    requires
        g.len() == 32,
    ensures
        free_of(decimal(g[0] as nat), 58),
        free_of(namespace_name(namespace_of(g[1])), 58),
        free_of(seq![63u8], 58),
        free_of(seq![48u8, 120] + hex2(g[1]), 58),
{
    lemma_decimal_ascii(g[0] as nat);
    let h = seq![48u8, 120] + hex2(g[1]);
    assert forall|i: int| 0 <= i < h.len() implies #[trigger] h[i] != 58 by {
        if i >= 2 {
            assert(h[i] == hex2(g[1])[i - 2]);
        }
    }
}

/// The four colon-separated pieces of the raw Base58 form.
pub(crate) proof fn lemma_raw_split(g: Seq<u8>)
    requires
        g.len() == 32,
        base58_parts_decode(g),
    ensures
        split_on(spec_base58_raw(g), 58).len() == 4,
        split_on(spec_base58_raw(g), 58)[2] == payload_text(g),
        split_on(spec_base58_raw(g), 58)[3] == checksum_text(g),
        is_ascii_bytes(spec_base58_raw(g)),
{
    let raw = spec_base58_raw(g);
    let p = payload_text(g);
    let c = checksum_text(g);
    lemma_raw_head_free(g);
    lemma_decimal_ascii(g[0] as nat);
    assert(free_of(p, 58)) by {
        assert forall|i: int| 0 <= i < p.len() implies #[trigger] p[i] != 58 by {
            assert(is_bs58_char(p[i]));
        }
    }
    assert(free_of(c, 58)) by {
        assert forall|i: int| 0 <= i < c.len() implies #[trigger] c[i] != 58 by {
            assert(is_bs58_char(c[i]));
        }
    }
    let (a, b) = match namespace_of(g[1]) {
        Namespace::Unknown(n) => (seq![63u8], seq![48u8, 120] + hex2(n)),
        ns => (decimal(g[0] as nat), namespace_name(ns)),
    };
    assert(is_ascii_bytes(a));
    assert(is_ascii_bytes(b)) by {
        assert forall|i: int| 0 <= i < b.len() implies #[trigger] b[i] < 128 by {
            if namespace_of(g[1]) is Unknown && i >= 2 {
                assert(b[i] == hex2(g[1])[i - 2]);
            }
        }
    }
    let tail = seq![58u8] + (p + (seq![58u8] + c));
    assert(raw =~= a + (seq![58u8] + (b + tail)));
    lemma_split_four_exact(a, b, p, c, 58);
    assert forall|i: int| 0 <= i < raw.len() implies #[trigger] raw[i] < 128 by {
        let k = i - (a.len() + 1 + b.len() + 1);
        if i < a.len() {
            assert(raw[i] == a[i]);
        } else if i == a.len() {
        } else if i < a.len() + 1 + b.len() {
            assert(raw[i] == b[i - a.len() - 1]);
        } else if k >= 0 && k < p.len() {
            assert(raw[i] == p[k]);
            assert(is_bs58_char(p[k]));
        } else if k >= p.len() + 1 {
            assert(raw[i] == c[k - p.len() - 1]);
            assert(is_bs58_char(c[k - p.len() - 1]));
        }
    }
}

/// Stripping an accepted prefix from `prefix ‖ raw` leaves `raw`.
proof fn lemma_strip_prefix(raw: Seq<u8>, prefix: Seq<u8>)
    requires
        prefix == did_prefix() || prefix == gdid_prefix(),
    ensures
        did_inner(prefix + raw) == Some(raw),
{
    let full = prefix + raw;
    if prefix == did_prefix() {
        assert(full.subrange(0, 15) =~= did_prefix());
        assert(full.skip(15) =~= raw);
    } else {
        assert(full.subrange(0, 5) =~= gdid_prefix());
        if starts_with(full, did_prefix()) {
            assert(full.subrange(0, 15)[0] == did_prefix()[0]);
        }
        assert(full.skip(5) =~= raw);
    }
}

/// The text form `prefix ‖ raw` of an identifier parses back to its first 30
/// bytes followed by two zero bytes, for either accepted prefix.
pub(crate) proof fn lemma_did_roundtrip(g: Seq<u8>, prefix: Seq<u8>)
    requires
        g.len() == 32,
        base58_parts_decode(g),
        prefix == did_prefix() || prefix == gdid_prefix(),
    ensures
        spec_from_did(encode_utf8(ascii_chars(prefix + spec_base58_raw(g)))) == Ok::<Seq<u8>, Seq<char>>(
            g.subrange(0, 30) + seq![0u8, 0u8],
        ),
        spec_from_did(prefix + spec_base58_raw(g)) == Ok::<Seq<u8>, Seq<char>>(
            g.subrange(0, 30) + seq![0u8, 0u8],
        ),
{
    let raw = spec_base58_raw(g);
    let full = prefix + raw;
    lemma_raw_split(g);
    assert(is_ascii_bytes(full)) by {
        assert forall|i: int| 0 <= i < full.len() implies #[trigger] full[i] < 128 by {
            if i >= prefix.len() {
                assert(full[i] == raw[i - prefix.len()]);
            }
        }
    }
    lemma_ascii_encode(full);
    lemma_strip_prefix(raw, prefix);
    let parts = split_on(raw, 58);
    let pay = g.subrange(0, 30);
    assert(bs58_decoded(parts[2]) == Bs58Outcome::Ok(pay));
    assert(bs58_decoded(parts[3]) == Bs58Outcome::Ok(blake3_hash(pay).subrange(0, 4)));
    assert(blake3_hash(pay).subrange(0, 4).len() == 4);
    assert(pay.len() == 30);
}

impl Gdid {
    /// The 64-character lowercase hex text of the identifier.
    pub fn to_hex(&self) -> (s: String)
        ensures
            s@ == ascii_chars(hex_text(self@)),
    {
        let mut out: Vec<u8> = Vec::new();
        let mut i: usize = 0;
        while i < 32
            invariant
                i <= 32,
                self@.len() == 32,
                out@ == hex_text(self@.subrange(0, i as int)),
            decreases 32 - i,
        {
            let b = self.0[i];
            out.push(hex_digit_exec(b / 16));
            out.push(hex_digit_exec(b % 16));
            i = i + 1;
            assert(out@ =~= hex_text(self@.subrange(0, i as int)));
        }
        assert(self@.subrange(0, 32) =~= self@);
        ascii_string(out)
    }

    /// Writes the lowercase hex text into a 64-byte buffer.
    pub fn to_hex_buf(&self, buf: &mut [u8; 64])
        ensures
            final(buf)@ == hex_text(self@),
    {
        let mut i: usize = 0;
        while i < 32
            invariant
                i <= 32,
                self@.len() == 32,
                buf@.len() == 64,
                forall|j: int| 0 <= j < 2 * i ==> buf@[j] == #[trigger] hex_text(self@)[j],
            decreases 32 - i,
        {
            let b = self.0[i];
            buf[i * 2] = hex_digit_exec(b / 16);
            buf[i * 2 + 1] = hex_digit_exec(b % 16);
            i = i + 1;
        }
        assert(buf@ =~= hex_text(self@));
    }

    /// Parses 64 hex digits of either case.
    pub fn from_hex(s: &str) -> (r: Result<Self, ConvertError>)
        ensures
            match r {
                Ok(g) => spec_from_hex(s.spec_bytes()) == Ok::<Seq<u8>, Seq<char>>(g@),
                Err(ConvertError::InvalidFormat(m)) => spec_from_hex(s.spec_bytes())
                    == Err::<Seq<u8>, Seq<char>>(m@),
                Err(_) => false,
            },
    {
        let b = s.as_bytes();
        if b.len() != 64 {
            let mut m = String::from_str("hex must be 64 chars, got ");
            let n = usize_to_string(b.len());
            m.append(n.as_str());
            return Err(ConvertError::InvalidFormat(m));
        }
        let mut bytes = [0u8; 32];
        let mut i: usize = 0;
        proof {
            assert(b@.skip(0) =~= b@);
            match hex_decode(b@) {
                Ok(o) => { assert(bytes@.subrange(0, 0) + o =~= o); },
                Err(_) => {},
            }
        }
        while i < 32
            invariant
                i <= 32,
                b@.len() == 64,
                b@ == s.spec_bytes(),
                bytes@.len() == 32,
                hex_decode(b@) == prepend_decoded(bytes@.subrange(0, i as int), hex_decode(b@.skip(2 * i))),
            decreases 32 - i,
        {
            let ghost rest = b@.skip(2 * i);
            assert(rest[0] == b@[2 * i as int]);
            assert(rest[1] == b@[2 * i + 1]);
            assert(rest.skip(2) =~= b@.skip(2 * (i + 1)));
            let hi = match hex_val(b[i * 2]) {
                Ok(v) => v,
                Err(e) => return Err(e),
            };
            let lo = match hex_val(b[i * 2 + 1]) {
                Ok(v) => v,
                Err(e) => return Err(e),
            };
            let ghost before = bytes@;
            bytes[i] = hi * 16 + lo;
            proof {
                match hex_decode(rest.skip(2)) {
                    Ok(out) => {
                        assert(bytes@.subrange(0, i + 1) + out =~= before.subrange(0, i as int) + (seq![
                            (hi * 16 + lo) as u8,
                        ] + out));
                    },
                    Err(c) => {},
                }
            }
            i = i + 1;
        }
        assert(b@.skip(64) =~= Seq::<u8>::empty());
        assert(bytes@.subrange(0, 32) + Seq::<u8>::empty() =~= bytes@);
        Ok(Gdid::from_raw(&bytes))
    }

    /// `did:arkhe:gdid:` followed by the raw Base58 form.
    pub fn to_did_string(&self) -> (s: String)
        ensures
            s@ == ascii_chars(spec_did_string(self@)),
            spec_from_did(encode_utf8(s@)) == Ok::<Seq<u8>, Seq<char>>(
                self@.subrange(0, 30) + seq![0u8, 0u8],
            ),
    {
        let raw = self.to_base58_raw();
        proof { lemma_did_roundtrip(self@, did_prefix()); }
        let mut s = ascii_string(
            vec![100u8, 105, 100, 58, 97, 114, 107, 104, 101, 58, 103, 100, 105, 100, 58],
        );
        s.append(raw.as_str());
        assert(s@ =~= ascii_chars(spec_did_string(self@)));
        s
    }

    /// Parses `did:arkhe:gdid:` or `gdid:` text (see `spec_from_did`).
    pub fn from_did_string(s: &str) -> (r: Result<Self, ConvertError>)
        ensures
            match r {
                Ok(g) => spec_from_did(s.spec_bytes()) == Ok::<Seq<u8>, Seq<char>>(g@),
                Err(ConvertError::InvalidFormat(m)) => spec_from_did(s.spec_bytes())
                    == Err::<Seq<u8>, Seq<char>>(m@),
                Err(_) => false,
            },
    {
        Self::from_did_bytes(s.as_bytes())
    }

    /// Parses the bytes of DID text (see `spec_from_did`).
    pub(crate) fn from_did_bytes(b: &[u8]) -> (r: Result<Self, ConvertError>)
        ensures
            match r {
                Ok(g) => spec_from_did(b@) == Ok::<Seq<u8>, Seq<char>>(g@),
                Err(ConvertError::InvalidFormat(m)) => spec_from_did(b@) == Err::<Seq<u8>, Seq<char>>(
                    m@,
                ),
                Err(_) => false,
            },
    {
        let ghost sb = b@;
        let inner: &[u8] = if bytes_start_with(b, vec![100u8, 105, 100, 58, 97, 114, 107, 104, 101, 58, 103, 100, 105, 100, 58].as_slice()) {
            vstd::slice::slice_subrange(b, 15, b.len())
        } else if bytes_start_with(b, vec![103u8, 100, 105, 100, 58].as_slice()) {
            vstd::slice::slice_subrange(b, 5, b.len())
        } else {
            return Err(ConvertError::InvalidFormat(String::from_str("must start with 'did:arkhe:gdid:' or 'gdid:'")));
        };
        assert(did_inner(sb) == Some(inner@));
        let parts = split_ranges(inner, 58);
        if parts.len() != 4 {
            let mut m = String::from_str("expected 4 colon-separated parts after prefix, got ");
            let n = usize_to_string(parts.len());
            m.append(n.as_str());
            return Err(ConvertError::InvalidFormat(m));
        }
        let ghost sp = split_on(inner@, 58);
        let (p0, p1) = parts[2];
        let (c0, c1) = parts[3];
        assert(parts@[2].0 <= parts@[2].1 <= inner@.len());
        assert(parts@[3].0 <= parts@[3].1 <= inner@.len());
        let payload_b58 = vstd::slice::slice_subrange(inner, p0, p1);
        let checksum_b58 = vstd::slice::slice_subrange(inner, c0, c1);
        assert(payload_b58@ == sp[2]);
        assert(checksum_b58@ == sp[3]);
        let payload = match bs58_decode(payload_b58) {
            Ok(v) => v,
            Err(e) => {
                let mut m = String::from_str("base58 payload: ");
                m.append(e.as_str());
                return Err(ConvertError::InvalidFormat(m));
            },
        };
        if payload.len() != 30 {
            let mut m = String::from_str("payload decoded to ");
            let n = usize_to_string(payload.len());
            m.append(n.as_str());
            m.append(" bytes, expected 30");
            return Err(ConvertError::InvalidFormat(m));
        }
        let checksum = match bs58_decode(checksum_b58) {
            Ok(v) => v,
            Err(e) => {
                let mut m = String::from_str("base58 checksum: ");
                m.append(e.as_str());
                return Err(ConvertError::InvalidFormat(m));
            },
        };
        if checksum.len() != 4 {
            let mut m = String::from_str("checksum decoded to ");
            let n = usize_to_string(checksum.len());
            m.append(n.as_str());
            m.append(" bytes, expected 4");
            return Err(ConvertError::InvalidFormat(m));
        }
        let expected = blake3_digest(payload.as_slice());
        if expected[0] != checksum[0] || expected[1] != checksum[1] || expected[2] != checksum[2]
            || expected[3] != checksum[3] {
            proof {
                if blake3_hash(payload@).subrange(0, 4) == checksum@ {
                    assert(blake3_hash(payload@).subrange(0, 4)[0] == checksum@[0]);
                    assert(blake3_hash(payload@).subrange(0, 4)[1] == checksum@[1]);
                    assert(blake3_hash(payload@).subrange(0, 4)[2] == checksum@[2]);
                    assert(blake3_hash(payload@).subrange(0, 4)[3] == checksum@[3]);
                }
            }
            return Err(ConvertError::InvalidFormat(String::from_str("checksum mismatch")));
        }
        assert(blake3_hash(payload@).subrange(0, 4) =~= checksum@);
        let mut full = [0u8; 32];
        let mut i: usize = 0;
        while i < 30
            invariant
                i <= 30,
                payload@.len() == 30,
                full@.len() == 32,
                forall|j: int| 0 <= j < i ==> full@[j] == payload@[j],
                full@[30] == 0,
                full@[31] == 0,
            decreases 30 - i,
        {
            full[i] = payload[i];
            i = i + 1;
        }
        assert(full@ =~= payload@ + seq![0u8, 0u8]);
        Ok(Gdid::from_raw(&full))
    }

    /// The identifier's bytes as a slice.
    pub fn as_slice(&self) -> (r: &[u8])
        ensures
            r@ == self@,
    {
        self.0.as_slice()
    }

    /// Copies the 32 bytes to the front of `buf`, which must hold at least 32.
    pub fn copy_to_slice(&self, buf: &mut [u8]) -> (r: Result<(), ConvertError>)
        ensures
            old(buf)@.len() < 32 ==> r == Err::<(), ConvertError>(
                ConvertError::BufferTooSmall { needed: 32, got: old(buf)@.len() as usize },
            ) && final(buf)@ == old(buf)@,
            old(buf)@.len() >= 32 ==> r is Ok && final(buf)@ == self@ + old(buf)@.skip(32),
    {
        if buf.len() < 32 {
            return Err(ConvertError::BufferTooSmall { needed: 32, got: buf.len() });
        }
        let mut i: usize = 0;
        while i < 32
            invariant
                i <= 32,
                32 <= buf@.len(),
                buf@.len() == old(buf)@.len(),
                self@.len() == 32,
                forall|j: int| 0 <= j < i ==> buf@[j] == self@[j],
                forall|j: int| 32 <= j < buf@.len() ==> buf@[j] == old(buf)@[j],
            decreases 32 - i,
        {
            buf[i] = self.0[i];
            i = i + 1;
        }
        assert(buf@ =~= self@ + old(buf)@.skip(32));
        Ok(())
    }
}

} // verus!
