//! The error codes of the escrow core.

use vstd::prelude::*;

verus! {

/// Error codes of the escrow core. Each failure of an operation is reported
/// as exactly one of these, so callers can tell transient conditions
/// (`NotMatured`) from permanent ones (`ProofMismatch`, `AlreadyExists`).
#[derive(Clone, Copy, Debug, PartialEq, Eq, Structural)]
pub enum MyError {
    /// The program authority has not been initialized yet.
    Uninitialized,
    /// An escrow record with the same key already exists.
    AlreadyExists,
    /// No escrow record with the given key exists.
    NotFound,
    /// A candidate index lies outside `1 ..= candidate count`.
    PositionTooLarge,
    /// A vote was cast after voting closed.
    VotingIsClosed,
    /// A collection was attempted while the voting gate is still open.
    VotingInProgress,
    /// A collection was attempted before the maturity date.
    NotMatured,
    /// The asserted candidate's tally does not exceed the threshold.
    InvalidCandidate,
    /// The Merkle proof does not reproduce the committed root.
    ProofMismatch,
}

} // verus!
