//! The error taxonomy shared by every component of the toolkit.

use vstd::prelude::*;

verus! {

/// Declares `std::io::Error` so that it can ride through [`CryptoError`]
/// as an opaque payload; the library itself never constructs one.
#[verifier::external_type_specification]
#[verifier::external_body]
pub struct ExIoError(std::io::Error);

/// Errors surfaced by the toolkit. Every operation is synchronous and returns
/// a result value; no error is retried or swallowed internally.
///
/// All durations carried by variants are in nanoseconds.
#[derive(Debug)]
pub enum CryptoError {
    /// Malformed or out-of-range caller-supplied data.
    InvalidInput(String),
    /// An operation was attempted in a state that forbids it.
    InvalidState(String),
    /// A caller advanced faster than the configured minimum iteration time.
    TimingViolation { expected: u64, actual: u64 },
    /// A share's stored hash does not match its recomputed hash.
    VerificationFailed(String),
    /// Passthrough for I/O failures in collaborators.
    IoError(std::io::Error),
    /// Reserved: an operation exceeded its allotted time.
    Timeout(u64),
}

pub type CryptoResult<T> = Result<T, CryptoError>;

} // verus!
