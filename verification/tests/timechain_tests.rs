use arkhe::timechain::auth_kem::{AuthenticatedKem, PqcIdentity, PqcKeyMaterial};
use arkhe::timechain::handshake::PqcHandshake;
use arkhe::timechain::pqc::{generate_node_keys, hash_to_bytes};
use sha3::Digest;

#[test]
fn test_shors_attack_symbolic() {
    let material = PqcKeyMaterial::generate();

    let dsa_pk_len = material.identity.dsa_public_key.len();
    let kem_pk_len = material.identity.kem_public_key.len();

    assert!(dsa_pk_len > 1024, "DSA PK should be large enough to resist Shor's Algorithm");
    assert!(kem_pk_len > 1024, "KEM PK should be large enough to resist Shor's Algorithm");

    println!("Simulated Shor's attack failed against large Lattice-based keys.");
}

#[test]
fn identity_fingerprint_is_sha3_of_both_keys() {
    let m = PqcKeyMaterial::generate();
    let id = &m.identity;
    assert_eq!(id.dsa_public_key.len(), 2592);
    assert_eq!(id.kem_public_key.len(), 1568);
    let mut h = sha3::Sha3_256::new();
    h.update(&id.dsa_public_key);
    h.update(&id.kem_public_key);
    let expected: [u8; 32] = h.finalize().into();
    assert_eq!(id.fingerprint, expected);
    let copy = id.public_only();
    assert_eq!(copy.fingerprint, id.fingerprint);
    assert_eq!(copy.dsa_public_key, id.dsa_public_key);
}

#[test]
fn identity_from_node_keys() {
    let (pk, _sk) = generate_node_keys();
    let (kem_pk, _kem_sk) = pqcrypto_kyber::kyber1024::keypair();
    let id = PqcIdentity::new(&pk, &kem_pk);
    assert_eq!(id.dsa_public_key.as_slice(), pqcrypto_traits::sign::PublicKey::as_bytes(&pk));
    assert_eq!(id.kem_public_key.as_slice(), pqcrypto_traits::kem::PublicKey::as_bytes(&kem_pk));
}

#[test]
fn kem_and_handshake_stubs() {
    let a = PqcKeyMaterial::generate();
    let b = PqcKeyMaterial::generate();
    let (encap, ss) = AuthenticatedKem::encapsulate_auth(&a, &b.identity, b"ctx").unwrap();
    assert_eq!(ss, [0u8; 32]);
    assert!(encap.ciphertext.is_empty());
    assert_eq!(AuthenticatedKem::decapsulate_auth(&b, &encap, b"ctx").unwrap(), [0u8; 32]);
    let mut hs = PqcHandshake::new(a);
    let hello = hs.initiate().unwrap();
    let resp = hs.handle_hello(hello).unwrap();
    let confirm = hs.handle_response(resp).unwrap();
    assert!(hs.handle_confirm(confirm).is_ok());
    let peer = hs.complete_initiator().unwrap();
    assert_eq!(peer.kem_public_key.len(), 1568);
    assert_eq!(hash_to_bytes(b"anything"), [0u8; 32]);
}
