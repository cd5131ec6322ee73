//! The messages and steps of the post-quantum handshake between nodes.

use vstd::prelude::*;
use crate::timechain::auth_kem::{PqcIdentity, PqcKeyMaterial, identity_fingerprint};
use crate::timechain::error::TimechainError;

verus! {

/// A handshake message (it carries nothing yet).
#[derive(Debug, Clone)]
pub struct HandshakeMessage {}

/// One side of a handshake.
pub struct PqcHandshake {}

impl PqcHandshake {
    /// A handshake for these keys.
    pub fn new(_keys: PqcKeyMaterial) -> (h: Self) {
        PqcHandshake {}
    }

    /// Opens a handshake with a hello message.
    pub fn initiate(&mut self) -> (r: Result<HandshakeMessage, TimechainError>)
        ensures
            r is Ok,
    {
        Ok(HandshakeMessage {})
    }

    /// Answers a hello.
    pub fn handle_hello(&mut self, _hello: HandshakeMessage) -> (r: Result<HandshakeMessage, TimechainError>)
        ensures
            r is Ok,
    {
        Ok(HandshakeMessage {})
    }

    /// Answers a response with a confirmation.
    pub fn handle_response(&mut self, _response: HandshakeMessage) -> (r: Result<HandshakeMessage, TimechainError>)
        ensures
            r is Ok,
    {
        Ok(HandshakeMessage {})
    }

    /// Accepts a confirmation.
    pub fn handle_confirm(&mut self, _confirm: HandshakeMessage) -> (r: Result<(), TimechainError>)
        ensures
            r is Ok,
    {
        Ok(())
    }

    /// Completes the initiator's side with the peer's identity: here the
    /// identity of freshly generated keys.
    pub fn complete_initiator(&mut self) -> (r: Result<PqcIdentity, TimechainError>)
        ensures
            r matches Ok(id) && id.dsa_public_key@.len() == 2592 && id.kem_public_key@.len() == 1568
                && id.fingerprint@ == identity_fingerprint(id.dsa_public_key@, id.kem_public_key@),
    {
        let keys = PqcKeyMaterial::generate();
        Ok(keys.identity)
    }
}

} // verus!
