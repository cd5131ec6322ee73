//! Why a timechain operation failed.

use vstd::prelude::*;

verus! {

#[verifier::external_type_specification]
#[verifier::external_body]
pub struct ExBincodeErrorKind(bincode::ErrorKind);

#[verifier::external_type_specification]
#[verifier::external_body]
pub struct ExIoError(std::io::Error);

/// Why a timechain operation failed. A violated CFL condition carries the
/// step and its bound as the bit patterns of their IEEE-754 doubles.
#[derive(Debug)]
pub enum TimechainError {
    SerializationError(Box<bincode::ErrorKind>),
    NetworkError(std::io::Error),
    CflViolation { dt_bits: u64, max_bits: u64 },
    EmptyShadow,
    QuantumSignatureInvalid,
    QuantumKemFailure,
    PqcError(String),
}

impl vstd::std_specs::convert::FromSpecImpl<Box<bincode::ErrorKind>> for TimechainError {
    open spec fn obeys_from_spec() -> bool {
        true
    }

    open spec fn from_spec(e: Box<bincode::ErrorKind>) -> Self {
        TimechainError::SerializationError(e)
    }
}

impl From<Box<bincode::ErrorKind>> for TimechainError {
    fn from(e: Box<bincode::ErrorKind>) -> Self {
        TimechainError::SerializationError(e)
    }
}

impl vstd::std_specs::convert::FromSpecImpl<std::io::Error> for TimechainError {
    open spec fn obeys_from_spec() -> bool {
        true
    }

    open spec fn from_spec(e: std::io::Error) -> Self {
        TimechainError::NetworkError(e)
    }
}

impl From<std::io::Error> for TimechainError {
    fn from(e: std::io::Error) -> Self {
        TimechainError::NetworkError(e)
    }
}

} // verus!
