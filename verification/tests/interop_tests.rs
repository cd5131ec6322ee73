use arkhe::gdid::{Gdid, Namespace};
use arkhe::interop::{did_document_parts, did_to_gdid, gdid_to_did, gdid_to_uuid, uuid_to_gdid, UuidConversionInfo};

fn gdid() -> Gdid {
    Gdid::from_fingerprint(&[2u8; 32], Namespace::Oem, 7)
}

#[test]
fn device_did_roundtrip_keeps_first_thirty_bytes() {
    let g = gdid();
    let did = gdid_to_did(&g);
    assert_eq!(did, format!("did:arkhe:device:{}", g.to_base58_raw()));
    let back = did_to_gdid(&did).unwrap();
    assert_eq!(&back.as_bytes()[..30], &g.as_bytes()[..30]);
    assert_eq!(&back.as_bytes()[30..], &[0u8, 0]);
    assert_eq!(did_to_gdid(&g.to_did_string()).unwrap(), back);
    assert_eq!(did_to_gdid(&g.to_base58()).unwrap(), back);
}

#[test]
fn did_errors() {
    assert_eq!(did_to_gdid("did:web:x").unwrap_err(), "unrecognized DID format: did:web:x");
    assert_eq!(
        did_to_gdid("gdid:only").unwrap_err(),
        "invalid format: expected 4 colon-separated parts after prefix, got 1"
    );
}

#[test]
fn uuid_v5_of_identifier() {
    let g = gdid();
    let u = gdid_to_uuid(&g);
    let expected = uuid::Uuid::new_v5(&uuid::Uuid::NAMESPACE_DNS, g.as_bytes());
    assert_eq!(&u, expected.as_bytes());
    assert_ne!(&u[..], &g.as_bytes()[..16]);
}

#[test]
fn uuid_bytes_survive() {
    let u = [0xaau8; 16];
    let g = uuid_to_gdid(u);
    assert_eq!(g.version(), 1);
    assert_eq!(g.namespace(), Namespace::ArkheGlobal);
    assert_eq!(&g.as_bytes()[2..18], &u);
    assert_eq!(g.nonce(), 0);
    let info = UuidConversionInfo::for_conversion();
    assert_eq!(info.preserved_bytes, 16);
    assert_eq!(info.zeroed_bytes, 14);
    assert!(!info.nonce_preserved);
}

#[test]
fn did_document_values() {
    let g = gdid();
    let p = did_document_parts(&g);
    assert_eq!(p.did_id, gdid_to_did(&g));
    assert_eq!(p.key_id, format!("{}#key-1", gdid_to_did(&g)));
    assert_eq!(p.public_key_multibase, format!("z{}", bs58::encode(g.as_bytes()).into_string()));
}

#[test]
fn did_forms_give_fingerprint_identifier_back() {
    let g = gdid();
    assert_eq!(&g.as_bytes()[30..], &[0u8, 0]);
    assert_eq!(did_to_gdid(&gdid_to_did(&g)).unwrap(), g);
    assert_eq!(did_to_gdid(&g.to_did_string()).unwrap(), g);
    assert_eq!(did_to_gdid(&g.to_base58()).unwrap(), g);
    assert_eq!(did_to_gdid("urn:x").unwrap_err(), "unrecognized DID format: urn:x");
}
