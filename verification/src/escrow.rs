//! The escrow record and the decisions made on a single record.
//!
//! A record holds the deposit metadata, the committed Merkle root, the
//! balance, the asset kind and the embedded voting gate. It is created by
//! opening an escrow, mutated by votes, and destroyed by a successful
//! collection.

use vstd::prelude::*;

use crate::errors::MyError;
use crate::gate::{VotingGate, VOTE_THRESHOLD};
use crate::merkle;
use crate::merkle::{merkle_root_of, path_view};

verus! {

/// The singleton custodian of all pooled value: every deposit and every
/// voting stake is moved into its balance, and collections are paid out of
/// it. `bump` is the nonce of its deterministic derivation.
pub struct ProgramAuthority {
    pub is_initialized: bool,
    pub bump: u8,
    pub lamports: u64,
}

/// The kind of value an escrow record holds: the native currency, or a
/// fungible token of the given mint.
#[derive(Clone, Copy, Debug)]
pub enum AssetAccountType {
    Sol,
    Token { mint: [u8; 32] },
}

/// The inputs of opening an escrow: the committed root, the deposit amount,
/// the maturity period in days, and the number of vote candidates.
#[derive(Clone, Copy, Debug)]
pub struct Params {
    pub merkle_root: [u8; 32],
    pub amount: u64,
    pub period: i64,
    pub size: u64,
}

/// One escrow record: deposit metadata, committed root, balance, asset kind
/// and the embedded voting gate.
pub struct EscrowAccount {
    pub initial_date: i64,
    pub maturity_date: i64,
    pub sender: [u8; 32],
    pub merkle_root: [u8; 32],
    pub balance: u64,
    pub gate: VotingGate,
    pub asset: AssetAccountType,
}

/// Whether two asset kinds name the same asset: both native, or both the
/// same token mint.
pub open spec fn asset_key_eq(a: AssetAccountType, b: AssetAccountType) -> bool {
    match (a, b) {
        (AssetAccountType::Sol, AssetAccountType::Sol) => true,
        (AssetAccountType::Token { mint: m1 }, AssetAccountType::Token { mint: m2 }) => m1@ == m2@,
        _ => false,
    }
}

/// Decide whether two asset kinds name the same asset.
pub fn asset_matches(a: &AssetAccountType, b: &AssetAccountType) -> (r: bool)
    ensures
        r == asset_key_eq(*a, *b),
{
    match (a, b) {
        (AssetAccountType::Sol, AssetAccountType::Sol) => true,
        (AssetAccountType::Token { mint: m1 }, AssetAccountType::Token { mint: m2 }) => {
            merkle::eq_bytes32(m1, m2)
        },
        _ => false,
    }
}

/// Whether the record `r` is stored under the key (depositor, committed
/// root, asset): records are keyed uniquely by these three.
pub open spec fn record_has_key(
    r: EscrowAccount,
    sender: Seq<u8>,
    root: Seq<u8>,
    asset: AssetAccountType,
) -> bool {
    r.sender@ == sender && r.merkle_root@ == root && asset_key_eq(r.asset, asset)
}

/// The decision a collection attempt draws on one record, preconditions
/// evaluated in order with the first failure winning: voting must have
/// closed, the record matured, the asserted candidate's tally above the
/// threshold, and the claimant's Merkle proof must reproduce the committed
/// root. On success the record's whole balance is paid out.
pub open spec fn collect_checks(
    rec: EscrowAccount,
    signer: Seq<u8>,
    path: Seq<Seq<u8>>,
    ipos: u8,
    now: i64,
) -> Result<u64, MyError> {
    if rec.gate.is_open {
        Err(MyError::VotingInProgress)
    } else if rec.maturity_date > now {
        Err(MyError::NotMatured)
    } else if ipos < 1 || rec.gate.candidates@.len() < ipos as int {
        Err(MyError::PositionTooLarge)
    } else if !(rec.gate.candidates@[ipos - 1] > VOTE_THRESHOLD) {
        Err(MyError::InvalidCandidate)
    } else if merkle_root_of(signer, ipos as int, path) != rec.merkle_root@ {
        Err(MyError::ProofMismatch)
    } else {
        Ok(rec.balance)
    }
}

impl EscrowAccount {
    /// A record holds a positive balance and a well-formed gate for its
    /// whole life prior to collection.
    pub open spec fn wf(self) -> bool {
        1 <= self.balance && self.gate.wf()
    }

    /// Create the record an opening deposit commits to: opened now, maturing
    /// `period` days later, with the whole deposit as balance, a zeroed
    /// tally of `size` candidates, and voting open.
    pub fn open_record(sender: &[u8; 32], data: &Params, asset: AssetAccountType, now: i64) -> (rec:
        EscrowAccount)
        requires
            1 <= data.amount,
            1 <= data.size,
            data.size <= usize::MAX as u64,
            0 <= data.period,
            0 <= now,
            now + 86400 * data.period <= i64::MAX,
        ensures
            rec.wf(),
            rec.initial_date == now,
            rec.maturity_date == now + 86400 * data.period,
            rec.sender == *sender,
            rec.merkle_root == data.merkle_root,
            rec.balance == data.amount,
            rec.gate@.tally.len() == data.size,
            forall|i: int| 0 <= i < data.size ==> rec.gate@.tally[i] == 0,
            rec.gate@.is_open,
            rec.asset == asset,
    {
        EscrowAccount {
            initial_date: now,
            maturity_date: now + 86400 * data.period,
            sender: *sender,
            merkle_root: data.merkle_root,
            balance: data.amount,
            gate: VotingGate::open_gate(data.size),
            asset,
        }
    }

    /// Decide whether the claimant `signer`, asserting the winning candidate
    /// `ipos` and standing at leaf position `ipos` with the sibling path
    /// `nodes`, may collect this record now, and for how much.
    pub fn collect_decision(
        &self,
        signer: &[u8; 32],
        nodes: &Vec<[u8; 32]>,
        ipos: u8,
        now: i64,
    ) -> (r: Result<u64, MyError>)
        ensures
            r == collect_checks(*self, signer@, path_view(nodes@), ipos, now),
    {
        if self.gate.is_open {
            return Err(MyError::VotingInProgress);
        }
        if self.maturity_date > now {
            return Err(MyError::NotMatured);
        }
        if ipos < 1 || self.gate.candidates.len() < ipos as usize {
            return Err(MyError::PositionTooLarge);
        }
        if !(self.gate.candidates[ipos as usize - 1] > VOTE_THRESHOLD) {
            return Err(MyError::InvalidCandidate);
        }
        if !merkle::verify(signer, nodes, ipos, &self.merkle_root) {
            return Err(MyError::ProofMismatch);
        }
        Ok(self.balance)
    }
}

} // verus!
