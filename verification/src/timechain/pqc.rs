//! Dilithium5 signing keys for timechain nodes.

use vstd::prelude::*;

verus! {

#[verifier::external_type_specification]
#[verifier::external_body]
pub struct ExDsaPublicKey(pqcrypto_dilithium::dilithium5::PublicKey);

#[verifier::external_type_specification]
#[verifier::external_body]
pub struct ExDsaSecretKey(pqcrypto_dilithium::dilithium5::SecretKey);

/// A post-quantum signature over a block.
#[derive(Debug)]
pub struct QuantumBlockSignature(pub Vec<u8>);

impl Clone for QuantumBlockSignature {
    fn clone(&self) -> (r: Self)
        ensures
            r.0@ == self.0@,
    {
        QuantumBlockSignature(crate::text::copy_bytes(self.0.as_slice()))
    }
}

/// A fresh Dilithium5 key pair from `pqcrypto_dilithium::dilithium5::keypair`,
/// drawn from the system's randomness; nothing is claimed of the keys.
#[verifier::external_body]
pub fn generate_node_keys() -> (pqcrypto_dilithium::dilithium5::PublicKey, pqcrypto_dilithium::dilithium5::SecretKey) {
    pqcrypto_dilithium::dilithium5::keypair()
}

/// The bytes of a Dilithium5 public key, through `PublicKey::as_bytes`.
/// Trusted: the key is a fixed array of 2592 bytes
/// (`PQCLEAN_DILITHIUM5_CLEAN_CRYPTO_PUBLICKEYBYTES`), all of which are given.
#[verifier::external_body]
pub(crate) fn dsa_public_key_bytes(pk: &pqcrypto_dilithium::dilithium5::PublicKey) -> (r: Vec<u8>)
    ensures
        r@.len() == 2592,
{
    pqcrypto_traits::sign::PublicKey::as_bytes(pk).to_vec()
}

/// A placeholder digest: 32 zero bytes, whatever the input.
pub fn hash_to_bytes(_data: &[u8]) -> (r: [u8; 32])
    ensures
        r@ == Seq::new(32, |i: int| 0u8),
{
    let r = [0u8; 32];
    assert(r@ =~= Seq::new(32, |i: int| 0u8));
    r
}

} // verus!
