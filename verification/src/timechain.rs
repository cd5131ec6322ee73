//! The post-quantum identity and handshake layer of the timechain: key
//! material and identities, authenticated key encapsulation, the handshake
//! state machine's messages, and the ledger's block types.

pub mod error;
pub mod pqc;
pub mod auth_kem;
pub mod handshake;
pub mod network;
pub mod timechain;
