use arkhe::gdid::{Gdid, Namespace};
use arkhe::protocol::{mqtt_topic, parse_mqtt_topic, GdidMessage, GdidMessageType, ProtocolError};

fn gdid() -> Gdid {
    Gdid::from_fingerprint(&[1u8; 32], Namespace::ArkheGlobal, 42)
}

#[test]
fn encode_layout() {
    let m = GdidMessage::cert_request(gdid(), &[9u8; 32]);
    let b = m.encode();
    assert_eq!(b.len(), GdidMessage::HEADER_SIZE + 32);
    assert_eq!(b[0], 0x02);
    assert_eq!(&b[1..33], gdid().as_bytes());
    assert_eq!(&b[33..], &[9u8; 32]);
}

#[test]
fn decode_of_encode_gives_message_back() {
    let msgs = vec![
        GdidMessage::announce(gdid()),
        GdidMessage::cert_request(gdid(), &[3u8; 32]),
        GdidMessage::challenge(gdid(), &[4u8; 16]),
    ];
    for m in msgs {
        let d = GdidMessage::decode(&m.encode()).unwrap();
        assert_eq!(d, m);
    }
}

#[test]
fn encode_of_decode_gives_bytes_back() {
    let mut b = vec![0x03u8];
    b.extend_from_slice(gdid().as_bytes());
    b.extend_from_slice(&[1, 2, 3, 4, 5]);
    let m = GdidMessage::decode(&b).unwrap();
    assert_eq!(m.msg_type, GdidMessageType::CertResponse);
    assert_eq!(m.encode(), b);
}

#[test]
fn decode_errors() {
    assert_eq!(
        GdidMessage::decode(&[1u8; 10]),
        Err(ProtocolError::BufferTooSmall { needed: 33, got: 10 })
    );
    let mut b = vec![0x09u8];
    b.extend_from_slice(&[0u8; 32]);
    assert_eq!(GdidMessage::decode(&b), Err(ProtocolError::UnknownType(9)));
    let mut c = vec![0x05u8];
    c.extend_from_slice(&[0u8; 32]);
    c.extend_from_slice(&[7u8; 3]);
    assert_eq!(
        GdidMessage::decode(&c),
        Err(ProtocolError::PayloadSizeMismatch { expected: 16, got: 3 })
    );
}

#[test]
fn protocol_error_text() {
    assert_eq!(
        ProtocolError::BufferTooSmall { needed: 33, got: 2 }.to_string(),
        "buffer too small: need 33 got 2"
    );
    assert_eq!(ProtocolError::UnknownType(0xab).to_string(), "unknown type: 0xab");
    assert_eq!(
        ProtocolError::PayloadSizeMismatch { expected: 64, got: 1 }.to_string(),
        "payload size: expected 64 got 1"
    );
}

#[test]
fn encode_to_slice_small_buffer_untouched() {
    let m = GdidMessage::announce(gdid());
    let mut buf = [0xeeu8; 20];
    assert_eq!(
        m.encode_to_slice(&mut buf),
        Err(ProtocolError::BufferTooSmall { needed: 33, got: 20 })
    );
    assert_eq!(buf, [0xeeu8; 20]);
    let mut big = [0xeeu8; 40];
    assert_eq!(m.encode_to_slice(&mut big), Ok(33));
    assert_eq!(&big[33..], &[0xeeu8; 7]);
}

#[test]
fn payload_accessors() {
    let m = GdidMessage::cert_request(gdid(), &[5u8; 32]);
    assert_eq!(m.pubkey(), Some([5u8; 32]));
    assert_eq!(m.nonce(), None);
    let c = GdidMessage::challenge(gdid(), &[6u8; 16]);
    assert_eq!(c.nonce(), Some([6u8; 16]));
    assert_eq!(c.signature(), None);
    let mut b = vec![0x06u8];
    b.extend_from_slice(gdid().as_bytes());
    b.extend_from_slice(&[8u8; 64]);
    let r = GdidMessage::decode(&b).unwrap();
    assert_eq!(r.signature(), Some([8u8; 64]));
}

#[test]
fn topics() {
    assert_eq!(
        mqtt_topic(Namespace::HubbleNetwork, GdidMessageType::CertRequest),
        "arkhe/gdid/hubble/cert_req"
    );
    assert_eq!(
        mqtt_topic(Namespace::Unknown(0x1f), GdidMessageType::ChallengeResponse),
        "arkhe/gdid/0x1f/challenge_resp"
    );
    assert_eq!(GdidMessageType::CrlUpdate.topic_name(), "crl_update");
    assert_eq!(GdidMessageType::from_byte(4), Some(GdidMessageType::CrlUpdate));
    assert_eq!(GdidMessageType::from_byte(0), None);
}

#[test]
fn parse_numeric_topics() {
    assert_eq!(
        parse_mqtt_topic("arkhe/gdid/oem/5"),
        Some((Namespace::Oem, GdidMessageType::Challenge))
    );
    assert_eq!(
        parse_mqtt_topic("arkhe/gdid/arkhe/+1"),
        Some((Namespace::ArkheGlobal, GdidMessageType::Announce))
    );
    assert_eq!(parse_mqtt_topic("arkhe/gdid/oem/7"), None);
    assert_eq!(parse_mqtt_topic("arkhe/gdid/oem/256"), None);
    assert_eq!(parse_mqtt_topic("arkhe/gdid/mars/1"), None);
    assert_eq!(parse_mqtt_topic("arkhe/gdid/oem"), None);
}

#[test]
fn named_topics_are_not_parsed() {
    let t = mqtt_topic(Namespace::Oem, GdidMessageType::Announce);
    assert_eq!(parse_mqtt_topic(&t), None);
}

#[test]
fn type_bytes_read_back() {
    let all = [
        GdidMessageType::Announce,
        GdidMessageType::CertRequest,
        GdidMessageType::CertResponse,
        GdidMessageType::CrlUpdate,
        GdidMessageType::Challenge,
        GdidMessageType::ChallengeResponse,
    ];
    for (i, t) in all.iter().enumerate() {
        assert_eq!(t.to_byte(), i as u8 + 1);
        assert_eq!(GdidMessageType::from_byte(t.to_byte()), Some(*t));
    }
}
