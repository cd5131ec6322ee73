use arkhe::convert::ConvertError;
use arkhe::ffi::{
    gdid_decompose_bytes, gdid_derive_bytes, gdid_equal_bytes, gdid_to_base58_text,
    gdid_to_hex_text, gdid_wipe_bytes, parse_namespace, GdidFFIResult,
};
use arkhe::gdid::{Gdid, Namespace};

fn sample() -> Gdid {
    let fp = [7u8; 32];
    Gdid::from_fingerprint(&fp, Namespace::HubbleNetwork, 0x0403_0201)
}

#[test]
fn fingerprint_fields_read_back() {
    let g = sample();
    assert_eq!(g.version(), 1);
    assert_eq!(g.namespace(), Namespace::HubbleNetwork);
    assert_eq!(g.nonce(), 0x0403_0201);
    let b = g.as_bytes();
    assert_eq!(&b[22..26], &[1u8, 2, 3, 4]);
    assert_eq!(&b[26..32], &[0u8; 6]);
}

#[test]
fn fingerprint_uses_domain_separated_blake3() {
    let fp = [7u8; 32];
    let g = Gdid::from_fingerprint(&fp, Namespace::Oem, 9);
    let mut input = b"arkhe-gdid-v1".to_vec();
    input.extend_from_slice(&fp);
    let h = blake3::hash(&input);
    assert_eq!(&g.as_bytes()[2..22], &h.as_bytes()[0..20]);
    assert_eq!(g.as_bytes()[1], 2);
}

#[test]
fn derive_equals_from_fingerprint() {
    let pk = [3u8; 32];
    let a = Gdid::derive(&pk, Namespace::ArkheGlobal, 5).unwrap();
    let b = Gdid::from_fingerprint(&pk, Namespace::ArkheGlobal, 5);
    assert_eq!(a, b);
}

#[test]
fn unknown_namespace_byte_is_kept() {
    let g = Gdid::from_fingerprint(&[0u8; 32], Namespace::Unknown(0x7f), 0);
    assert_eq!(g.namespace(), Namespace::Unknown(0x7f));
    assert!(g.to_base58_raw().starts_with("?:0x7f:"));
}

#[test]
fn hex_roundtrip() {
    let g = sample();
    let h = g.to_hex();
    assert_eq!(h.len(), 64);
    assert!(h.chars().all(|c| c.is_ascii_hexdigit() && !c.is_ascii_uppercase()));
    assert_eq!(Gdid::from_hex(&h).unwrap(), g);
    assert_eq!(Gdid::from_hex(&h.to_uppercase()).unwrap(), g);
}

#[test]
fn hex_exact_digits() {
    let mut raw = [0u8; 32];
    raw[0] = 0xab;
    raw[31] = 0x0f;
    let g = Gdid::from_raw(&raw);
    let h = g.to_hex();
    assert!(h.starts_with("ab00"));
    assert!(h.ends_with("000f"));
    let mut buf = [0u8; 64];
    g.to_hex_buf(&mut buf);
    assert_eq!(&buf[..], h.as_bytes());
}

#[test]
fn hex_wrong_length() {
    let e = Gdid::from_hex("abcd").unwrap_err();
    assert_eq!(e, ConvertError::InvalidFormat("hex must be 64 chars, got 4".to_string()));
    assert_eq!(e.to_string(), "invalid format: hex must be 64 chars, got 4");
}

#[test]
fn hex_bad_char() {
    let mut s = "0".repeat(63);
    s.push('g');
    let e = Gdid::from_hex(&s).unwrap_err();
    assert_eq!(e, ConvertError::InvalidFormat("invalid hex char: 'g'".to_string()));
}

#[test]
fn base58_form_and_did_roundtrip() {
    let g = sample();
    let raw = g.to_base58_raw();
    assert!(raw.starts_with("1:hubble:"));
    assert_eq!(g.to_base58(), format!("gdid:{}", raw));
    let did = g.to_did_string();
    assert_eq!(did, format!("did:arkhe:gdid:{}", raw));
    let back = Gdid::from_did_string(&did).unwrap();
    assert_eq!(&back.as_bytes()[..30], &g.as_bytes()[..30]);
    assert_eq!(&back.as_bytes()[30..], &[0u8, 0]);
    let back2 = Gdid::from_did_string(&g.to_base58()).unwrap();
    assert_eq!(back, back2);
}

#[test]
fn base58_pieces_match_bs58() {
    let g = sample();
    let raw = g.to_base58_raw();
    let parts: Vec<&str> = raw.split(':').collect();
    assert_eq!(parts.len(), 4);
    assert_eq!(parts[2], bs58::encode(&g.as_bytes()[..30]).into_string());
    let ck = blake3::hash(&g.as_bytes()[..30]);
    assert_eq!(parts[3], bs58::encode(&ck.as_bytes()[..4]).into_string());
}

#[test]
fn did_string_errors() {
    assert_eq!(
        Gdid::from_did_string("nope").unwrap_err(),
        ConvertError::InvalidFormat("must start with 'did:arkhe:gdid:' or 'gdid:'".to_string())
    );
    assert_eq!(
        Gdid::from_did_string("gdid:a:b").unwrap_err(),
        ConvertError::InvalidFormat("expected 4 colon-separated parts after prefix, got 2".to_string())
    );
    assert_eq!(
        Gdid::from_did_string("gdid:1:arkhe:2:3").unwrap_err(),
        ConvertError::InvalidFormat("payload decoded to 1 bytes, expected 30".to_string())
    );
    let g = sample();
    let raw = g.to_base58_raw();
    let parts: Vec<&str> = raw.split(':').collect();
    let wrong = format!("gdid:1:hubble:{}:{}", parts[2], bs58::encode([1u8, 2, 3, 4]).into_string());
    assert_eq!(
        Gdid::from_did_string(&wrong).unwrap_err(),
        ConvertError::InvalidFormat("checksum mismatch".to_string())
    );
    let bad = format!("gdid:1:hubble:{}:0OIl", parts[2]);
    match Gdid::from_did_string(&bad).unwrap_err() {
        ConvertError::InvalidFormat(m) => assert!(m.starts_with("base58 checksum: ")),
        other => panic!("unexpected {:?}", other),
    }
}

#[test]
fn copy_to_slice_checks_length() {
    let g = sample();
    let mut small = [0u8; 10];
    let e = g.copy_to_slice(&mut small).unwrap_err();
    assert_eq!(e, ConvertError::BufferTooSmall { needed: 32, got: 10 });
    assert_eq!(e.to_string(), "buffer too small: need 32 bytes, got 10");
    let mut big = [9u8; 40];
    g.copy_to_slice(&mut big).unwrap();
    assert_eq!(&big[..32], g.as_slice());
    assert_eq!(&big[32..], &[9u8; 8]);
}

#[test]
fn ffi_helpers() {
    assert_eq!(parse_namespace(1), Some(Namespace::HubbleNetwork));
    assert_eq!(parse_namespace(3), None);
    let fp = [5u8; 32];
    assert_eq!(gdid_derive_bytes(&fp, 9, 0), Err(GdidFFIResult::invalid_namespace()));
    let b = gdid_derive_bytes(&fp, 2, 77).unwrap();
    assert_eq!(&b, Gdid::from_fingerprint(&fp, Namespace::Oem, 77).as_bytes());
    let (v, ns, nonce, hw) = gdid_decompose_bytes(&b);
    assert_eq!((v, ns), (1, 2));
    assert_eq!(nonce, [77, 0, 0, 0]);
    assert_eq!(&hw[..], &b[2..22]);
    assert_eq!(gdid_equal_bytes(&b, &b), 1);
    let mut c = b;
    c[31] ^= 1;
    assert_eq!(gdid_equal_bytes(&b, &c), 0);
    assert_eq!(gdid_to_base58_text(&b, 79), Err(GdidFFIResult::buffer_size()));
    assert_eq!(gdid_to_base58_text(&b, 80).unwrap(), Gdid::from_raw(&b).to_base58());
    assert_eq!(gdid_to_hex_text(&b, 64), Err(GdidFFIResult::buffer_size()));
    let t = gdid_to_hex_text(&b, 65).unwrap();
    assert_eq!(&t[..64], Gdid::from_raw(&b).to_hex().as_bytes());
    assert_eq!(t[64], 0);
    gdid_wipe_bytes(&mut c);
    assert_eq!(c, [0u8; 32]);
    assert_eq!(GdidFFIResult::ok().code(), 0);
    assert!(GdidFFIResult::ok().is_ok());
    assert_eq!(GdidFFIResult::buffer_size().code(), -4);
}

#[test]
fn hex_capitals_print_back_lowercase() {
    let text = "AB".to_string() + &"0".repeat(60) + "Ff";
    let g = Gdid::from_hex(&text).unwrap();
    assert_eq!(g.as_bytes()[0], 0xab);
    assert_eq!(g.as_bytes()[31], 0xff);
    assert_eq!(g.to_hex(), text.to_ascii_lowercase());
}
