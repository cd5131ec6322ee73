//! Device identities (GDID), their wire protocol and text forms, octonion
//! arithmetic over integers, and a commit-governance pipeline with a
//! hash-chained evidence log.

pub mod text;
pub mod primitives;
pub mod gdid;
pub mod protocol;
pub mod convert;
pub mod crl;
pub mod ffi;
pub mod interop;
pub mod governance;
pub mod octonion;
pub mod octonion_buf;
pub mod timechain;
