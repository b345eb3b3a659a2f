//! A conditional custodial vault: value (native currency or a fungible
//! token) is locked by a depositor and released only to a claimant who wins
//! a stake-weighted threshold vote among candidates and proves membership in
//! a Merkle tree committed at lock time.
//!
//! The core covers the escrow lifecycle state machine, the voting gate and
//! the Merkle inclusion-proof verification. Moving the actual balances,
//! authenticating callers and reading the clock are collaborators of the
//! host: every operation here takes the current time as an argument and
//! reports what the host must transfer.

pub mod errors;
pub mod escrow;
pub mod gate;
pub mod hashing;
pub mod merkle;
pub mod service;
