//! Post-quantum identities, key material and authenticated key
//! encapsulation.

use vstd::prelude::*;
use crate::primitives::{sha3_256_digest, sha3_256_hash};
use crate::text::{append_bytes, copy_bytes};
use crate::timechain::error::TimechainError;
use crate::timechain::pqc::{QuantumBlockSignature, dsa_public_key_bytes, generate_node_keys};

verus! {

#[verifier::external_type_specification]
#[verifier::external_body]
pub struct ExKemPublicKey(pqcrypto_kyber::kyber1024::PublicKey);

#[verifier::external_type_specification]
#[verifier::external_body]
pub struct ExKemSecretKey(pqcrypto_kyber::kyber1024::SecretKey);

/// A fresh Kyber1024 key pair from `pqcrypto_kyber::kyber1024::keypair`, drawn
/// from the system's randomness; nothing is claimed of the keys.
#[verifier::external_body]
fn kem_keypair() -> (pqcrypto_kyber::kyber1024::PublicKey, pqcrypto_kyber::kyber1024::SecretKey) {
    pqcrypto_kyber::kyber1024::keypair()
}

/// The bytes of a Kyber1024 public key, through `PublicKey::as_bytes`.
/// Trusted: the key is a fixed array of 1568 bytes
/// (`PQCLEAN_KYBER1024_CLEAN_CRYPTO_PUBLICKEYBYTES`), all of which are given.
#[verifier::external_body]
fn kem_public_key_bytes(pk: &pqcrypto_kyber::kyber1024::PublicKey) -> (r: Vec<u8>)
    ensures
        r@.len() == 1568,
{
    pqcrypto_traits::kem::PublicKey::as_bytes(pk).to_vec()
}

/// An encapsulated key with the sender's signature and public key.
#[derive(Debug)]
pub struct AuthEncap {
    pub ciphertext: Vec<u8>,
    pub sender_signature: QuantumBlockSignature,
    pub sender_public_key: Vec<u8>,
    pub context_nonce: [u8; 32],
}

/// The public side of a node: its signing and encapsulation keys and the
/// SHA3-256 fingerprint of both.
#[derive(Debug)]
pub struct PqcIdentity {
    pub dsa_public_key: Vec<u8>,
    pub kem_public_key: Vec<u8>,
    pub fingerprint: [u8; 32],
}

/// The fingerprint of two public keys: SHA3-256 over the signing key's bytes
/// followed by the encapsulation key's bytes.
pub open spec fn identity_fingerprint(dsa: Seq<u8>, kem: Seq<u8>) -> Seq<u8> {
    sha3_256_hash(dsa + kem)
}

impl PqcIdentity {
    /// The identity of two public keys: their bytes and their fingerprint.
    pub fn new(
        dsa_public_key: &pqcrypto_dilithium::dilithium5::PublicKey,
        kem_public_key: &pqcrypto_kyber::kyber1024::PublicKey,
    ) -> (id: Self)
        ensures
            id.dsa_public_key@.len() == 2592,
            id.kem_public_key@.len() == 1568,
            id.fingerprint@ == identity_fingerprint(id.dsa_public_key@, id.kem_public_key@),
    {
        let dsa = dsa_public_key_bytes(dsa_public_key);
        let kem = kem_public_key_bytes(kem_public_key);
        let mut input: Vec<u8> = copy_bytes(dsa.as_slice());
        append_bytes(&mut input, kem.as_slice());
        let fingerprint = sha3_256_digest(input.as_slice());
        PqcIdentity { dsa_public_key: dsa, kem_public_key: kem, fingerprint }
    }

    /// A copy of the identity (it holds public data only).
    pub fn public_only(&self) -> (r: Self)
        ensures
            r.dsa_public_key@ == self.dsa_public_key@,
            r.kem_public_key@ == self.kem_public_key@,
            r.fingerprint@ == self.fingerprint@,
    {
        PqcIdentity {
            dsa_public_key: copy_bytes(self.dsa_public_key.as_slice()),
            kem_public_key: copy_bytes(self.kem_public_key.as_slice()),
            fingerprint: self.fingerprint,
        }
    }
}

impl Clone for PqcIdentity {
    fn clone(&self) -> (r: Self)
        ensures
            r.dsa_public_key@ == self.dsa_public_key@,
            r.kem_public_key@ == self.kem_public_key@,
            r.fingerprint@ == self.fingerprint@,
    {
        self.public_only()
    }
}

/// A node's secret keys and its public identity.
pub struct PqcKeyMaterial {
    pub dsa_secret_key: pqcrypto_dilithium::dilithium5::SecretKey,
    pub kem_secret_key: pqcrypto_kyber::kyber1024::SecretKey,
    pub identity: PqcIdentity,
}

impl PqcKeyMaterial {
    /// Fresh key pairs for signing and encapsulation, and the identity of
    /// their public keys.
    pub fn generate() -> (m: Self)
        ensures
            m.identity.dsa_public_key@.len() == 2592,
            m.identity.kem_public_key@.len() == 1568,
            m.identity.fingerprint@ == identity_fingerprint(
                m.identity.dsa_public_key@,
                m.identity.kem_public_key@,
            ),
    {
        let (dsa_pk, dsa_sk) = generate_node_keys();
        let (kem_pk, kem_sk) = kem_keypair();
        let identity = PqcIdentity::new(&dsa_pk, &kem_pk);
        PqcKeyMaterial { dsa_secret_key: dsa_sk, kem_secret_key: kem_sk, identity }
    }
}

/// Key encapsulation authenticated by the sender's signature.
pub struct AuthenticatedKem;

impl AuthenticatedKem {
    /// Encapsulates a key for the receiver: here an empty encapsulation and an
    /// all-zero shared secret.
    pub fn encapsulate_auth(
        _sender: &PqcKeyMaterial,
        _receiver: &PqcIdentity,
        _context: &[u8],
    ) -> (r: Result<(AuthEncap, [u8; 32]), TimechainError>)
        ensures
            r matches Ok((e, ss)) && e.ciphertext@.len() == 0 && e.sender_signature.0@.len() == 0
                && e.sender_public_key@.len() == 0 && e.context_nonce@ == Seq::new(32, |i: int| 0u8)
                && ss@ == Seq::new(32, |i: int| 0u8),
    {
        let nonce = [0u8; 32];
        let ss = [0u8; 32];
        assert(nonce@ =~= Seq::new(32, |i: int| 0u8));
        assert(ss@ =~= Seq::new(32, |i: int| 0u8));
        Ok(
            (
                AuthEncap {
                    ciphertext: Vec::new(),
                    sender_signature: QuantumBlockSignature(Vec::new()),
                    sender_public_key: Vec::new(),
                    context_nonce: nonce,
                },
                ss,
            ),
        )
    }

    /// Recovers the shared secret: here all zeros.
    pub fn decapsulate_auth(
        _receiver: &PqcKeyMaterial,
        _encap: &AuthEncap,
        _context: &[u8],
    ) -> (r: Result<[u8; 32], TimechainError>)
        ensures
            r matches Ok(ss) && ss@ == Seq::new(32, |i: int| 0u8),
    {
        let ss = [0u8; 32];
        assert(ss@ =~= Seq::new(32, |i: int| 0u8));
        Ok(ss)
    }
}

} // verus!
