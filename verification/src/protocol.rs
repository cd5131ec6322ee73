//! The binary message format exchanged about identifiers, and MQTT topics.

use vstd::prelude::*;
use vstd::string::StringSliceAdditionalSpecFns;
use crate::gdid::{Gdid, Namespace, namespace_name};
use crate::text::{ascii_chars, ascii_string, append_bytes, bytes_equal, hex2, hex_digit_exec, is_ascii_bytes, parse_unsigned, parse_unsigned_bytes, split_on, split_ranges, free_of, lemma_split_four_exact, all_digits, is_digit, digits_value, decimal, usize_to_string};

verus! {

/// The kinds of message; each has a byte on the wire.
#[derive(Debug, Clone, Copy, PartialEq, Eq, Structural)]
pub enum GdidMessageType {
    Announce,
    CertRequest,
    CertResponse,
    CrlUpdate,
    Challenge,
    ChallengeResponse,
}

/// The wire byte of a message kind.
pub open spec fn type_byte(t: GdidMessageType) -> u8 {
    match t {
        GdidMessageType::Announce => 1,
        GdidMessageType::CertRequest => 2,
        GdidMessageType::CertResponse => 3,
        GdidMessageType::CrlUpdate => 4,
        GdidMessageType::Challenge => 5,
        GdidMessageType::ChallengeResponse => 6,
    }
}

/// The message kind a wire byte stands for.
pub open spec fn type_of_byte(b: u8) -> Option<GdidMessageType> {
    if b == 1 {
        Some(GdidMessageType::Announce)
    } else if b == 2 {
        Some(GdidMessageType::CertRequest)
    } else if b == 3 {
        Some(GdidMessageType::CertResponse)
    } else if b == 4 {
        Some(GdidMessageType::CrlUpdate)
    } else if b == 5 {
        Some(GdidMessageType::Challenge)
    } else if b == 6 {
        Some(GdidMessageType::ChallengeResponse)
    } else {
        None
    }
}

/// The topic word of a message kind.
pub open spec fn topic_bytes(t: GdidMessageType) -> Seq<u8> {
    match t {
        GdidMessageType::Announce => seq![97u8, 110, 110, 111, 117, 110, 99, 101],
        GdidMessageType::CertRequest => seq![99u8, 101, 114, 116, 95, 114, 101, 113],
        GdidMessageType::CertResponse => seq![99u8, 101, 114, 116, 95, 114, 101, 115, 112],
        GdidMessageType::CrlUpdate => seq![99u8, 114, 108, 95, 117, 112, 100, 97, 116, 101],
        GdidMessageType::Challenge => seq![99u8, 104, 97, 108, 108, 101, 110, 103, 101],
        GdidMessageType::ChallengeResponse => seq![
            99u8,
            104,
            97,
            108,
            108,
            101,
            110,
            103,
            101,
            95,
            114,
            101,
            115,
            112,
        ],
    }
}

impl GdidMessageType {
    /// The message kind with this wire byte.
    pub fn from_byte(b: u8) -> (r: Option<Self>)
        ensures
            r == type_of_byte(b),
    {
        match b {
            1 => Some(GdidMessageType::Announce),
            2 => Some(GdidMessageType::CertRequest),
            3 => Some(GdidMessageType::CertResponse),
            4 => Some(GdidMessageType::CrlUpdate),
            5 => Some(GdidMessageType::Challenge),
            6 => Some(GdidMessageType::ChallengeResponse),
            _ => None,
        }
    }

    /// The wire byte of this kind.
    pub fn to_byte(self) -> (r: u8)
        ensures
            r == type_byte(self),
    {
        match self {
            GdidMessageType::Announce => 1,
            GdidMessageType::CertRequest => 2,
            GdidMessageType::CertResponse => 3,
            GdidMessageType::CrlUpdate => 4,
            GdidMessageType::Challenge => 5,
            GdidMessageType::ChallengeResponse => 6,
        }
    }

    /// The topic word of this kind.
    pub fn topic_name(self) -> (r: &'static str)
        ensures
            r@ == ascii_chars(topic_bytes(self)),
    {
        match self {
            GdidMessageType::Announce => {
                let r = "announce";
                proof { reveal_strlit("announce"); assert(r@ =~= ascii_chars(topic_bytes(self))); }
                r
            },
            GdidMessageType::CertRequest => {
                let r = "cert_req";
                proof { reveal_strlit("cert_req"); assert(r@ =~= ascii_chars(topic_bytes(self))); }
                r
            },
            GdidMessageType::CertResponse => {
                let r = "cert_resp";
                proof { reveal_strlit("cert_resp"); assert(r@ =~= ascii_chars(topic_bytes(self))); }
                r
            },
            GdidMessageType::CrlUpdate => {
                let r = "crl_update";
                proof { reveal_strlit("crl_update"); assert(r@ =~= ascii_chars(topic_bytes(self))); }
                r
            },
            GdidMessageType::Challenge => {
                let r = "challenge";
                proof { reveal_strlit("challenge"); assert(r@ =~= ascii_chars(topic_bytes(self))); }
                r
            },
            GdidMessageType::ChallengeResponse => {
                let r = "challenge_resp";
                proof {
                    reveal_strlit("challenge_resp");
                    assert(r@ =~= ascii_chars(topic_bytes(self)));
                }
                r
            },
        }
    }
}

/// Every kind's wire byte reads back as that kind.
pub proof fn law_type_byte_roundtrip(t: GdidMessageType)
    ensures
        type_of_byte(type_byte(t)) == Some(t),
{
}

/// Why a message could not be encoded or decoded.
#[derive(Debug, Clone, PartialEq, Eq)]
pub enum ProtocolError {
    BufferTooSmall { needed: usize, got: usize },
    UnknownType(u8),
    PayloadSizeMismatch { expected: usize, got: usize },
}

/// The display text of a protocol error.
pub open spec fn protocol_error_text(e: ProtocolError) -> Seq<char> {
    match e {
        ProtocolError::BufferTooSmall { needed, got } => "buffer too small: need "@ + ascii_chars(
            decimal(needed as nat),
        ) + " got "@ + ascii_chars(decimal(got as nat)),
        ProtocolError::UnknownType(t) => "unknown type: 0x"@ + ascii_chars(hex2(t)),
        ProtocolError::PayloadSizeMismatch { expected, got } => "payload size: expected "@
            + ascii_chars(decimal(expected as nat)) + " got "@ + ascii_chars(decimal(got as nat)),
    }
}

impl ProtocolError {
    /// The display text of the error.
    pub fn to_string(&self) -> (s: String)
        ensures
            s@ == protocol_error_text(*self),
    {
        match self {
            ProtocolError::BufferTooSmall { needed, got } => {
                let mut s = String::from_str("buffer too small: need ");
                let a = usize_to_string(*needed);
                s.append(a.as_str());
                s.append(" got ");
                let b = usize_to_string(*got);
                s.append(b.as_str());
                s
            },
            ProtocolError::UnknownType(t) => {
                let mut s = String::from_str("unknown type: 0x");
                let h = ascii_string(vec![hex_digit_exec(*t / 16), hex_digit_exec(*t % 16)]);
                s.append(h.as_str());
                s
            },
            ProtocolError::PayloadSizeMismatch { expected, got } => {
                let mut s = String::from_str("payload size: expected ");
                let a = usize_to_string(*expected);
                s.append(a.as_str());
                s.append(" got ");
                let b = usize_to_string(*got);
                s.append(b.as_str());
                s
            },
        }
    }
}

/// A message: its kind, the identifier it is about, and a payload.
#[derive(Debug, Clone, PartialEq, Eq)]
pub struct GdidMessage {
    pub msg_type: GdidMessageType,
    pub gdid: Gdid,
    pub payload: Vec<u8>,
}

/// The wire bytes of a message: kind byte, 32 identifier bytes, payload.
pub open spec fn spec_encode(t: GdidMessageType, g: Seq<u8>, payload: Seq<u8>) -> Seq<u8> {
    seq![type_byte(t)] + g + payload
}

/// The payload length a kind demands on decoding, if it demands one.
pub open spec fn required_payload_len(t: GdidMessageType) -> Option<nat> {
    match t {
        GdidMessageType::Announce => Some(0),
        GdidMessageType::CertRequest => Some(32),
        GdidMessageType::Challenge => Some(16),
        GdidMessageType::ChallengeResponse => Some(64),
        _ => None,
    }
}

/// What `decode` gives for a buffer: the kind, identifier bytes and payload,
/// or the error.
pub open spec fn spec_decode(b: Seq<u8>) -> Result<(GdidMessageType, Seq<u8>, Seq<u8>), ProtocolError> {
    if b.len() < 33 {
        Err(ProtocolError::BufferTooSmall { needed: 33, got: b.len() as usize })
    } else {
        match type_of_byte(b[0]) {
            None => Err(ProtocolError::UnknownType(b[0])),
            Some(t) => {
                let payload = b.skip(33);
                match required_payload_len(t) {
                    Some(n) => if payload.len() != n {
                        Err(
                            ProtocolError::PayloadSizeMismatch {
                                expected: n as usize,
                                got: payload.len() as usize,
                            },
                        )
                    } else {
                        Ok((t, b.subrange(1, 33), payload))
                    },
                    None => Ok((t, b.subrange(1, 33), payload)),
                }
            },
        }
    }
}

impl GdidMessage {
    pub const HEADER_SIZE: usize = 33;

    /// The message's parts as plain values.
    pub open spec fn parts(&self) -> (GdidMessageType, Seq<u8>, Seq<u8>) {
        (self.msg_type, self.gdid@, self.payload@)
    }

    /// An announcement with an empty payload.
    pub fn announce(gdid: Gdid) -> (m: Self)
        ensures
            m.parts() == (GdidMessageType::Announce, gdid@, Seq::<u8>::empty()),
    {
        GdidMessage { msg_type: GdidMessageType::Announce, gdid, payload: Vec::new() }
    }

    /// A certificate request carrying a 32-byte public key.
    pub fn cert_request(gdid: Gdid, pubkey: &[u8; 32]) -> (m: Self)
        ensures
            m.parts() == (GdidMessageType::CertRequest, gdid@, pubkey@),
    {
        let mut payload: Vec<u8> = Vec::new();
        append_bytes(&mut payload, pubkey.as_slice());
        GdidMessage { msg_type: GdidMessageType::CertRequest, gdid, payload }
    }

    /// A challenge carrying a 16-byte nonce.
    pub fn challenge(gdid: Gdid, nonce: &[u8; 16]) -> (m: Self)
        ensures
            m.parts() == (GdidMessageType::Challenge, gdid@, nonce@),
    {
        let mut payload: Vec<u8> = Vec::new();
        append_bytes(&mut payload, nonce.as_slice());
        GdidMessage { msg_type: GdidMessageType::Challenge, gdid, payload }
    }

    /// Writes the wire bytes to the front of `buf`, or reports that it is too
    /// small (leaving it unchanged).
    pub fn encode_to_slice(&self, buf: &mut [u8]) -> (r: Result<usize, ProtocolError>)
        requires
            self.payload@.len() + 33 <= usize::MAX,
        ensures
            ({
                let total = self.payload@.len() + 33;
                let enc = spec_encode(self.msg_type, self.gdid@, self.payload@);
                &&& old(buf)@.len() < total ==> r == Err::<usize, ProtocolError>(
                    ProtocolError::BufferTooSmall {
                        needed: total as usize,
                        got: old(buf)@.len() as usize,
                    },
                ) && final(buf)@ == old(buf)@
                &&& old(buf)@.len() >= total ==> r == Ok::<usize, ProtocolError>(total as usize)
                    && final(buf)@ == enc + old(buf)@.skip(total as int)
            }),
    {
        let total = 33 + self.payload.len();
        if buf.len() < total {
            return Err(ProtocolError::BufferTooSmall { needed: total, got: buf.len() });
        }
        let ghost enc = spec_encode(self.msg_type, self.gdid@, self.payload@);
        buf[0] = self.msg_type.to_byte();
        let mut i: usize = 0;
        while i < 32
            invariant
                i <= 32,
                total == 33 + self.payload@.len(),
                total <= buf@.len(),
                buf@.len() == old(buf)@.len(),
                enc == spec_encode(self.msg_type, self.gdid@, self.payload@),
                enc.len() == total,
                forall|j: int| 0 <= j < 1 + i ==> buf@[j] == enc[j],
                forall|j: int| total <= j < buf@.len() ==> buf@[j] == old(buf)@[j],
            decreases 32 - i,
        {
            buf[1 + i] = self.gdid.0[i];
            i = i + 1;
        }
        let mut k: usize = 0;
        while k < self.payload.len()
            invariant
                k <= self.payload@.len(),
                total == 33 + self.payload@.len(),
                total <= buf@.len(),
                buf@.len() == old(buf)@.len(),
                enc == spec_encode(self.msg_type, self.gdid@, self.payload@),
                enc.len() == total,
                forall|j: int| 0 <= j < 33 + k ==> buf@[j] == enc[j],
                forall|j: int| total <= j < buf@.len() ==> buf@[j] == old(buf)@[j],
            decreases self.payload@.len() - k,
        {
            buf[33 + k] = self.payload[k];
            k = k + 1;
        }
        assert(buf@ =~= enc + old(buf)@.skip(total as int));
        Ok(total)
    }

    /// The wire bytes of the message.
    pub fn encode(&self) -> (r: Vec<u8>)
        requires
            self.payload@.len() + 33 <= usize::MAX,
        ensures
            r@ == spec_encode(self.msg_type, self.gdid@, self.payload@),
    {
        let mut buf = vec![0u8; 33 + self.payload.len()];
        match self.encode_to_slice(buf.as_mut_slice()) {
            Ok(_) => {},
            Err(_) => {},
        }
        assert(buf@ =~= spec_encode(self.msg_type, self.gdid@, self.payload@));
        buf
    }

    /// Reads a message from its wire bytes (see `spec_decode`).
    pub fn decode(buf: &[u8]) -> (r: Result<Self, ProtocolError>)
        ensures
            match r {
                Ok(m) => spec_decode(buf@) == Ok::<(GdidMessageType, Seq<u8>, Seq<u8>), ProtocolError>(m.parts()),
                Err(e) => spec_decode(buf@) == Err::<(GdidMessageType, Seq<u8>, Seq<u8>), ProtocolError>(e),
            },
    {
        if buf.len() < 33 {
            return Err(ProtocolError::BufferTooSmall { needed: 33, got: buf.len() });
        }
        let msg_type = match GdidMessageType::from_byte(buf[0]) {
            Some(t) => t,
            None => return Err(ProtocolError::UnknownType(buf[0])),
        };
        let mut gdid_bytes = [0u8; 32];
        let mut i: usize = 0;
        while i < 32
            invariant
                i <= 32,
                33 <= buf@.len(),
                gdid_bytes@.len() == 32,
                forall|j: int| 0 <= j < i ==> gdid_bytes@[j] == buf@[1 + j],
            decreases 32 - i,
        {
            gdid_bytes[i] = buf[1 + i];
            i = i + 1;
        }
        assert(gdid_bytes@ =~= buf@.subrange(1, 33));
        let gdid = Gdid::from_raw(&gdid_bytes);
        let payload_slice = vstd::slice::slice_subrange(buf, 33, buf.len());
        let plen = payload_slice.len();
        assert(payload_slice@ =~= buf@.skip(33));
        let expected: Option<usize> = match msg_type {
            GdidMessageType::Announce => Some(0),
            GdidMessageType::CertRequest => Some(32),
            GdidMessageType::Challenge => Some(16),
            GdidMessageType::ChallengeResponse => Some(64),
            _ => None,
        };
        match expected {
            Some(n) => {
                if plen != n {
                    return Err(ProtocolError::PayloadSizeMismatch { expected: n, got: plen });
                }
            },
            None => {},
        }
        let mut payload: Vec<u8> = Vec::new();
        append_bytes(&mut payload, payload_slice);
        Ok(GdidMessage { msg_type, gdid, payload })
    }

    /// The public key of a certificate request with a 32-byte payload.
    pub fn pubkey(&self) -> (r: Option<[u8; 32]>)
        ensures
            match r {
                Some(k) => self.msg_type == GdidMessageType::CertRequest && self.payload@.len() == 32
                    && k@ == self.payload@,
                None => !(self.msg_type == GdidMessageType::CertRequest && self.payload@.len() == 32),
            },
    {
        if self.msg_type != GdidMessageType::CertRequest || self.payload.len() != 32 {
            return None;
        }
        let mut pk = [0u8; 32];
        let mut i: usize = 0;
        while i < 32
            invariant
                i <= 32,
                self.payload@.len() == 32,
                pk@.len() == 32,
                forall|j: int| 0 <= j < i ==> pk@[j] == self.payload@[j],
            decreases 32 - i,
        {
            pk[i] = self.payload[i];
            i = i + 1;
        }
        assert(pk@ =~= self.payload@);
        Some(pk)
    }

    /// The nonce of a challenge with a 16-byte payload.
    pub fn nonce(&self) -> (r: Option<[u8; 16]>)
        ensures
            match r {
                Some(n) => self.msg_type == GdidMessageType::Challenge && self.payload@.len() == 16
                    && n@ == self.payload@,
                None => !(self.msg_type == GdidMessageType::Challenge && self.payload@.len() == 16),
            },
    {
        if self.msg_type != GdidMessageType::Challenge || self.payload.len() != 16 {
            return None;
        }
        let mut n = [0u8; 16];
        let mut i: usize = 0;
        while i < 16
            invariant
                i <= 16,
                self.payload@.len() == 16,
                n@.len() == 16,
                forall|j: int| 0 <= j < i ==> n@[j] == self.payload@[j],
            decreases 16 - i,
        {
            n[i] = self.payload[i];
            i = i + 1;
        }
        assert(n@ =~= self.payload@);
        Some(n)
    }

    /// The signature of a challenge response with a 64-byte payload.
    pub fn signature(&self) -> (r: Option<[u8; 64]>)
        ensures
            match r {
                Some(s) => self.msg_type == GdidMessageType::ChallengeResponse && self.payload@.len()
                    == 64 && s@ == self.payload@,
                None => !(self.msg_type == GdidMessageType::ChallengeResponse && self.payload@.len()
                    == 64),
            },
    {
        if self.msg_type != GdidMessageType::ChallengeResponse || self.payload.len() != 64 {
            return None;
        }
        let mut s = [0u8; 64];
        let mut i: usize = 0;
        while i < 64
            invariant
                i <= 64,
                self.payload@.len() == 64,
                s@.len() == 64,
                forall|j: int| 0 <= j < i ==> s@[j] == self.payload@[j],
            decreases 64 - i,
        {
            s[i] = self.payload[i];
            i = i + 1;
        }
        assert(s@ =~= self.payload@);
        Some(s)
    }
}

/// Decoding the wire bytes of a message whose payload has the length its kind
/// demands gives the message back.
pub proof fn law_decode_encode(t: GdidMessageType, g: Seq<u8>, payload: Seq<u8>)
    requires
        g.len() == 32,
        required_payload_len(t) matches Some(n) ==> payload.len() == n,
    ensures
        spec_decode(spec_encode(t, g, payload)) == Ok::<(GdidMessageType, Seq<u8>, Seq<u8>), ProtocolError>((t, g, payload)),
{
    let e = spec_encode(t, g, payload);
    assert(e.subrange(1, 33) =~= g);
    assert(e.skip(33) =~= payload);
}

/// A buffer that decodes gives back exactly its own bytes when the message is
/// encoded again.
pub proof fn law_encode_decode(b: Seq<u8>)
    requires
        spec_decode(b) is Ok,
    ensures
        spec_encode(spec_decode(b)->Ok_0.0, spec_decode(b)->Ok_0.1, spec_decode(b)->Ok_0.2) == b,
{
    assert(spec_encode(spec_decode(b)->Ok_0.0, spec_decode(b)->Ok_0.1, spec_decode(b)->Ok_0.2) =~= b);
}

/// The decoding of a buffer of `b.len()` bytes whose payload must be `n` long.
pub open spec fn fixed_payload_decoding(b: Seq<u8>, t: GdidMessageType, n: nat) -> Result<(GdidMessageType, Seq<u8>, Seq<u8>), ProtocolError> {
    if b.len() - 33 == n {
        Ok((t, b.subrange(1, 33), b.skip(33)))
    } else {
        Err(ProtocolError::PayloadSizeMismatch { expected: n as usize, got: (b.len() - 33) as usize })
    }
}

/// What decoding gives for each kind byte of a buffer that holds a header:
/// certificate responses (3) and CRL updates (4) take every byte after the
/// 33-byte header as their payload, whatever its length; announcements (1),
/// certificate requests (2), challenges (5) and challenge responses (6) are
/// accepted only with payloads of 0, 32, 16 and 64 bytes, and otherwise
/// refused naming the expected and the actual length; any other kind byte is
/// refused as unknown. The identifier is always bytes 1 to 32.
pub proof fn law_decode_by_kind(b: Seq<u8>)
    requires
        b.len() >= 33,
    ensures
        b[0] == 3 ==> spec_decode(b) == Ok::<(GdidMessageType, Seq<u8>, Seq<u8>), ProtocolError>(
            (GdidMessageType::CertResponse, b.subrange(1, 33), b.skip(33)),
        ),
        b[0] == 4 ==> spec_decode(b) == Ok::<(GdidMessageType, Seq<u8>, Seq<u8>), ProtocolError>(
            (GdidMessageType::CrlUpdate, b.subrange(1, 33), b.skip(33)),
        ),
        b[0] == 1 ==> spec_decode(b) == fixed_payload_decoding(b, GdidMessageType::Announce, 0),
        b[0] == 2 ==> spec_decode(b) == fixed_payload_decoding(b, GdidMessageType::CertRequest, 32),
        b[0] == 5 ==> spec_decode(b) == fixed_payload_decoding(b, GdidMessageType::Challenge, 16),
        b[0] == 6 ==> spec_decode(b) == fixed_payload_decoding(b, GdidMessageType::ChallengeResponse, 64),
        (b[0] == 0 || b[0] > 6) ==> spec_decode(b) == Err::<(GdidMessageType, Seq<u8>, Seq<u8>), ProtocolError>(
            ProtocolError::UnknownType(b[0]),
        ),
{
}

/// A buffer shorter than the 33-byte header is refused as too small, naming
/// both lengths.
pub proof fn law_decode_short(b: Seq<u8>)
    requires
        b.len() < 33,
    ensures
        spec_decode(b) == Err::<(GdidMessageType, Seq<u8>, Seq<u8>), ProtocolError>(
            ProtocolError::BufferTooSmall { needed: 33, got: b.len() as usize },
        ),
{
}

/// `arkhe/gdid/`
pub open spec fn topic_prefix() -> Seq<u8> {
    seq![97u8, 114, 107, 104, 101, 47, 103, 100, 105, 100, 47]
}

/// The MQTT topic of a namespace and message kind:
/// `arkhe/gdid/<namespace>/<kind>`, with `0xNN` for an unknown namespace.
pub open spec fn spec_mqtt_topic(ns: Namespace, t: GdidMessageType) -> Seq<u8> {
    let ns_part = match ns {
        Namespace::Unknown(n) => seq![48u8, 120] + hex2(n),
        _ => namespace_name(ns),
    };
    topic_prefix() + ns_part + seq![47u8] + topic_bytes(t)
}

/// The topic of a namespace and message kind (see `spec_mqtt_topic`).
pub fn mqtt_topic(namespace: Namespace, msg_type: GdidMessageType) -> (s: String)
    ensures
        s@ == ascii_chars(spec_mqtt_topic(namespace, msg_type)),
{
    let mut out: Vec<u8> = vec![97u8, 114, 107, 104, 101, 47, 103, 100, 105, 100, 47];
    match namespace {
        Namespace::ArkheGlobal => append_bytes(&mut out, vec![97u8, 114, 107, 104, 101].as_slice()),
        Namespace::HubbleNetwork => append_bytes(
            &mut out,
            vec![104u8, 117, 98, 98, 108, 101].as_slice(),
        ),
        Namespace::Oem => append_bytes(&mut out, vec![111u8, 101, 109].as_slice()),
        Namespace::Unknown(n) => {
            out.push(48u8);
            out.push(120u8);
            out.push(hex_digit_exec(n / 16));
            out.push(hex_digit_exec(n % 16));
        },
    }
    out.push(47u8);
    let tn: Vec<u8> = match msg_type {
        GdidMessageType::Announce => vec![97u8, 110, 110, 111, 117, 110, 99, 101],
        GdidMessageType::CertRequest => vec![99u8, 101, 114, 116, 95, 114, 101, 113],
        GdidMessageType::CertResponse => vec![99u8, 101, 114, 116, 95, 114, 101, 115, 112],
        GdidMessageType::CrlUpdate => vec![99u8, 114, 108, 95, 117, 112, 100, 97, 116, 101],
        GdidMessageType::Challenge => vec![99u8, 104, 97, 108, 108, 101, 110, 103, 101],
        GdidMessageType::ChallengeResponse => vec![
            99u8, 104, 97, 108, 108, 101, 110, 103, 101, 95, 114, 101, 115, 112],
    };
    append_bytes(&mut out, tn.as_slice());
    assert(out@ =~= spec_mqtt_topic(namespace, msg_type));
    assert(is_ascii_bytes(out@)) by {
        let ns_part = match namespace {
            Namespace::Unknown(n) => seq![48u8, 120] + hex2(n),
            _ => namespace_name(namespace),
        };
        assert forall|i: int| 0 <= i < out@.len() implies #[trigger] out@[i] < 128 by {
            if i >= 11 && i < 11 + ns_part.len() && namespace is Unknown && i >= 13 {
                assert(out@[i] == hex2(namespace->Unknown_0)[i - 13]);
            }
        }
    }
    ascii_string(out)
}

/// The pieces of `arkhe/gdid/<middle>/<last>` split at `/`.
proof fn lemma_topic_split(middle: Seq<u8>, last: Seq<u8>)
    requires
        free_of(middle, 47),
        free_of(last, 47),
    ensures
        split_on(topic_prefix() + middle + seq![47u8] + last, 47) == seq![
            seq![97u8, 114, 107, 104, 101],
            seq![103u8, 100, 105, 100],
            middle,
            last,
        ],
{
    let a = seq![97u8, 114, 107, 104, 101];
    let b = seq![103u8, 100, 105, 100];
    assert(topic_prefix() + middle + seq![47u8] + last =~= a + (seq![47u8] + (b + (seq![47u8] + (
    middle + (seq![47u8] + last))))));
    lemma_split_four_exact(a, b, middle, last, 47);
}

/// A topic built by `mqtt_topic` is not read back by `parse_mqtt_topic`: the
/// kind word is no numeral, so the numeric parse of the last piece fails.
pub proof fn law_mqtt_topic_not_parsed(ns: Namespace, t: GdidMessageType)
    ensures
        spec_parse_mqtt_topic(spec_mqtt_topic(ns, t)) is None,
{
    let ns_part = match ns {
        Namespace::Unknown(n) => seq![48u8, 120] + hex2(n),
        _ => namespace_name(ns),
    };
    assert(free_of(ns_part, 47)) by {
        assert forall|i: int| 0 <= i < ns_part.len() implies #[trigger] ns_part[i] != 47 by {
            if ns is Unknown && i >= 2 {
                assert(ns_part[i] == hex2(ns->Unknown_0)[i - 2]);
            }
        }
    }
    lemma_topic_split(ns_part, topic_bytes(t));
    let w = topic_bytes(t);
    assert(!all_digits(w)) by {
        assert(!is_digit(w[0]));
    }
    assert(w[0] != 43);
    if ns is Unknown {
        assert(ns_part[0] == 48);
        assert(ns_part != namespace_name(Namespace::ArkheGlobal));
        assert(ns_part != namespace_name(Namespace::HubbleNetwork));
        assert(ns_part != namespace_name(Namespace::Oem));
    }
}

/// A topic `arkhe/gdid/<name>/<n>` with a known namespace name and the
/// decimal wire byte `n` of a kind is read as that namespace and kind.
pub proof fn law_numeric_topic_parsed(ns: Namespace, t: GdidMessageType)
    requires
        !(ns is Unknown),
    ensures
        spec_parse_mqtt_topic(topic_prefix() + namespace_name(ns) + seq![47u8] + decimal(
            type_byte(t) as nat,
        )) == Some((ns, t)),
{
    let d = decimal(type_byte(t) as nat);
    assert(d =~= seq![(48 + type_byte(t)) as u8]);
    assert(free_of(d, 47));
    lemma_topic_split(namespace_name(ns), d);
    assert(all_digits(d));
    assert(digits_value(d.drop_last()) == 0);
    assert(digits_value(d) == type_byte(t));
    assert(namespace_name(Namespace::ArkheGlobal) != namespace_name(Namespace::HubbleNetwork));
    assert(namespace_name(Namespace::ArkheGlobal) != namespace_name(Namespace::Oem));
    assert(namespace_name(Namespace::HubbleNetwork) != namespace_name(Namespace::Oem));
}

/// What `parse_mqtt_topic` gives for the UTF-8 bytes of a topic. The last
/// piece is first parsed as a `u8` numeral; if that fails there is no result,
/// so the kind words are reached only for numerals that name no kind, and
/// none of them is a numeral.
pub open spec fn spec_parse_mqtt_topic(s: Seq<u8>) -> Option<(Namespace, GdidMessageType)> {
    let parts = split_on(s, 47);
    if parts.len() != 4 || parts[0] != seq![97u8, 114, 107, 104, 101] || parts[1] != seq![
        103u8,
        100,
        105,
        100,
    ] {
        None
    } else {
        let ns = if parts[2] == namespace_name(Namespace::ArkheGlobal) {
            Some(Namespace::ArkheGlobal)
        } else if parts[2] == namespace_name(Namespace::HubbleNetwork) {
            Some(Namespace::HubbleNetwork)
        } else if parts[2] == namespace_name(Namespace::Oem) {
            Some(Namespace::Oem)
        } else {
            None
        };
        match ns {
            None => None,
            Some(ns) => match parse_unsigned(parts[3], 255) {
                None => None,
                Some(v) => match type_of_byte(v as u8) {
                    Some(t) => Some((ns, t)),
                    None => match kind_of_word(parts[3]) {
                        Some(t) => Some((ns, t)),
                        None => None,
                    },
                },
            },
        }
    }
}

/// The message kind whose topic word is `w`.
pub open spec fn kind_of_word(w: Seq<u8>) -> Option<GdidMessageType> {
    if w == topic_bytes(GdidMessageType::Announce) {
        Some(GdidMessageType::Announce)
    } else if w == topic_bytes(GdidMessageType::CertRequest) {
        Some(GdidMessageType::CertRequest)
    } else if w == topic_bytes(GdidMessageType::CertResponse) {
        Some(GdidMessageType::CertResponse)
    } else if w == topic_bytes(GdidMessageType::CrlUpdate) {
        Some(GdidMessageType::CrlUpdate)
    } else if w == topic_bytes(GdidMessageType::Challenge) {
        Some(GdidMessageType::Challenge)
    } else if w == topic_bytes(GdidMessageType::ChallengeResponse) {
        Some(GdidMessageType::ChallengeResponse)
    } else {
        None
    }
}

/// Reads a namespace and message kind from a topic (see
/// `spec_parse_mqtt_topic`).
pub fn parse_mqtt_topic(topic: &str) -> (r: Option<(Namespace, GdidMessageType)>)
    ensures
        r == spec_parse_mqtt_topic(topic.spec_bytes()),
{
    let b = topic.as_bytes();
    let parts = split_ranges(b, 47);
    if parts.len() != 4 {
        return None;
    }
    assert(parts@[0].0 <= parts@[0].1 <= b@.len());
    assert(parts@[1].0 <= parts@[1].1 <= b@.len());
    assert(parts@[2].0 <= parts@[2].1 <= b@.len());
    assert(parts@[3].0 <= parts@[3].1 <= b@.len());
    let p0 = vstd::slice::slice_subrange(b, parts[0].0, parts[0].1);
    let p1 = vstd::slice::slice_subrange(b, parts[1].0, parts[1].1);
    let p2 = vstd::slice::slice_subrange(b, parts[2].0, parts[2].1);
    let p3 = vstd::slice::slice_subrange(b, parts[3].0, parts[3].1);
    if !bytes_equal(p0, vec![97u8, 114, 107, 104, 101].as_slice()) || !bytes_equal(
        p1,
        vec![103u8, 100, 105, 100].as_slice(),
    ) {
        return None;
    }
    let ns = if bytes_equal(p2, vec![97u8, 114, 107, 104, 101].as_slice()) {
        Namespace::ArkheGlobal
    } else if bytes_equal(p2, vec![104u8, 117, 98, 98, 108, 101].as_slice()) {
        Namespace::HubbleNetwork
    } else if bytes_equal(p2, vec![111u8, 101, 109].as_slice()) {
        Namespace::Oem
    } else {
        return None;
    };
    let v = match parse_unsigned_bytes(p3, 255) {
        Some(v) => v,
        None => return None,
    };
    let msg_type = if let Some(mt) = GdidMessageType::from_byte(v as u8) {
        mt
    } else {
        if bytes_equal(p3, vec![97u8, 110, 110, 111, 117, 110, 99, 101].as_slice()) {
            GdidMessageType::Announce
        } else if bytes_equal(p3, vec![99u8, 101, 114, 116, 95, 114, 101, 113].as_slice()) {
            GdidMessageType::CertRequest
        } else if bytes_equal(p3, vec![99u8, 101, 114, 116, 95, 114, 101, 115, 112].as_slice()) {
            GdidMessageType::CertResponse
        } else if bytes_equal(p3, vec![99u8, 114, 108, 95, 117, 112, 100, 97, 116, 101].as_slice()) {
            GdidMessageType::CrlUpdate
        } else if bytes_equal(p3, vec![99u8, 104, 97, 108, 108, 101, 110, 103, 101].as_slice()) {
            GdidMessageType::Challenge
        } else if bytes_equal(
            p3,
            vec![99u8, 104, 97, 108, 108, 101, 110, 103, 101, 95, 114, 101, 115, 112].as_slice(),
        ) {
            GdidMessageType::ChallengeResponse
        } else {
            return None;
        }
    };
    Some((ns, msg_type))
}

} // verus!
