//! Typed errors surfaced by kernel calls and by the run loop.

use vstd::prelude::*;

verus! {

/// A failure reported by a kernel call or by the runtime itself.
///
/// Kernel-call failures carry no further payload: the variant is the
/// kernel's status.
#[derive(Debug, Clone, Copy, PartialEq, Eq, Structural)]
pub enum Error {
    /// The handle passed to a kernel call does not name a live kernel
    /// object, or names one of the wrong kind.
    InvalidHandle,
    /// The kernel rejected the requested queue configuration.
    UnsupportedConfiguration,
    /// The kernel ran out of a resource needed to satisfy the call.
    ResourceExhaustion,
    /// A blocking wait was issued while no completion was available and
    /// none could ever arrive; the run loop cannot make progress.
    WouldBlockForever,
    /// A completion arrived whose context value does not name an
    /// operation that is still in flight.
    StaleCompletion,
    /// An individual operation inside a submission failed with the given
    /// kernel status code.
    OperationFailed { code: u64 },
    /// A completed action carried a payload of a different kind than the
    /// caller asked for: the peer violated the expected conversation
    /// shape.
    WrongResultKind,
    /// The run loop's step budget ran out. The budget is large enough
    /// that this is unreachable in practice; it exists so that every run
    /// of the loop provably ends.
    BudgetExhausted,
}

impl Error {
    /// A short human-readable description of the failure.
    pub fn message(&self) -> String {
        match self {
            Error::InvalidHandle => "invalid handle".to_string(),
            Error::UnsupportedConfiguration => "unsupported queue configuration".to_string(),
            Error::ResourceExhaustion => "resource exhaustion".to_string(),
            Error::WouldBlockForever => "wait would block forever".to_string(),
            Error::StaleCompletion => "completion does not match an operation in flight".to_string(),
            Error::OperationFailed { code: _ } => "operation failed".to_string(),
            Error::WrongResultKind => "completed action carries a payload of the wrong kind".to_string(),
            Error::BudgetExhausted => "the run loop's step budget ran out".to_string(),
        }
    }
}

/// The result type used throughout the runtime.
pub type Result<T> = core::result::Result<T, Error>;

} // verus!
