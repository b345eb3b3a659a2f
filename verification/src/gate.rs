//! The voting gate of one escrow record: a fixed-length candidate tally and
//! an open/closed flag.
//!
//! Votes are cast for 1-based candidate indices while voting is open. The
//! first candidate whose tally exceeds the threshold closes voting
//! permanently: no operation reopens it, and further votes are rejected.

use vstd::prelude::*;

use crate::errors::MyError;

verus! {

/// The fixed stake a candidate's tally must exceed to win the vote and end
/// the election.
pub const VOTE_THRESHOLD: u64 = 100_000_000;

/// The per-escrow voting state: `candidates[i]` is the pooled stake of the
/// 1-based candidate `i + 1`, and `is_open` tells whether votes are still
/// accepted.
pub struct VotingGate {
    pub candidates: Vec<u64>,
    pub is_open: bool,
}

/// The mathematical model of a voting gate.
pub ghost struct GateModel {
    pub tally: Seq<u64>,
    pub is_open: bool,
}

impl View for VotingGate {
    type V = GateModel;

    open spec fn view(&self) -> GateModel {
        GateModel { tally: self.candidates@, is_open: self.is_open }
    }
}

/// The error a vote for candidate `pos` draws on the voting state `g`, if
/// any: voting must be open, and the index must lie in `1 ..= candidate count`.
pub open spec fn gate_vote_error(g: GateModel, pos: u8) -> Option<MyError> {
    if !g.is_open {
        Some(MyError::VotingIsClosed)
    } else if pos < 1 || g.tally.len() < pos as int {
        Some(MyError::PositionTooLarge)
    } else {
        None
    }
}

/// The voting state after a vote of `amount` for candidate `pos`: unchanged
/// when the vote is rejected; otherwise the candidate's tally grows by
/// `amount`, and voting closes exactly when that tally now exceeds the
/// threshold.
pub open spec fn gate_after_vote(g: GateModel, pos: u8, amount: u64) -> GateModel {
    if gate_vote_error(g, pos) is Some {
        g
    } else {
        let tally = g.tally.update(pos - 1, (g.tally[pos - 1] + amount) as u64);
        GateModel { tally, is_open: tally[pos - 1] <= VOTE_THRESHOLD }
    }
}

/// The voting state after a whole sequence of votes, applied in order.
pub open spec fn gate_after_votes(g: GateModel, votes: Seq<(u8, u64)>) -> GateModel
    decreases votes.len(),
{
    if votes.len() == 0 {
        g
    } else {
        gate_after_votes(gate_after_vote(g, votes[0].0, votes[0].1), votes.skip(1))
    }
}

/// No vote of the sequence overflows the tally it lands on.
pub open spec fn votes_fit(g: GateModel, votes: Seq<(u8, u64)>) -> bool
    decreases votes.len(),
{
    votes.len() == 0 || {
        &&& (gate_vote_error(g, votes[0].0) is None
            ==> g.tally[votes[0].0 - 1] + votes[0].1 <= u64::MAX)
        &&& votes_fit(gate_after_vote(g, votes[0].0, votes[0].1), votes.skip(1))
    }
}

impl VotingGate {
    /// A gate has at least one candidate.
    pub open spec fn wf(self) -> bool {
        1 <= self.candidates@.len()
    }

    /// Create a gate with `n` zeroed candidate tallies, open for voting.
    pub fn open_gate(n: u64) -> (g: VotingGate)
        requires
            1 <= n,
            n <= usize::MAX as u64,
        ensures
            g.wf(),
            g@.tally.len() == n,
            forall|i: int| 0 <= i < n ==> g@.tally[i] == 0,
            g@.is_open,
    {
        let count = n as usize;
        let mut candidates: Vec<u64> = Vec::new();
        while candidates.len() < count
            invariant
                candidates@.len() <= count,
                forall|i: int| 0 <= i < candidates@.len() ==> candidates@[i] == 0,
            decreases count - candidates@.len(),
        {
            candidates.push(0);
        }
        VotingGate { candidates, is_open: true }
    }

    /// Cast a vote of `amount` for the 1-based candidate `pos`. On success
    /// the candidate's tally grows by `amount`, and voting closes exactly
    /// when that tally now exceeds the threshold; a rejected vote changes
    /// nothing.
    pub fn vote(&mut self, pos: u8, amount: u64) -> (r: Result<(), MyError>)
        requires
            gate_vote_error(old(self)@, pos) is None
                ==> old(self)@.tally[pos - 1] + amount <= u64::MAX,
        ensures
            final(self)@ == gate_after_vote(old(self)@, pos, amount),
            match gate_vote_error(old(self)@, pos) {
                Some(e) => r == Err::<(), MyError>(e),
                None => r is Ok,
            },
    {
        if !self.is_open {
            return Err(MyError::VotingIsClosed);
        }
        if pos < 1 || self.candidates.len() < pos as usize {
            return Err(MyError::PositionTooLarge);
        }
        let idx = pos as usize - 1;
        let updated = self.candidates[idx] + amount;
        self.candidates.set(idx, updated);
        if updated > VOTE_THRESHOLD {
            self.is_open = false;
        }
        Ok(())
    }
}

/// Law: a single vote never lowers any tally and never changes the number of
/// candidates.
pub proof fn lemma_vote_tally_monotone(g: GateModel, pos: u8, amount: u64)
    requires
        gate_vote_error(g, pos) is None ==> g.tally[pos - 1] + amount <= u64::MAX,
    ensures
        gate_after_vote(g, pos, amount).tally.len() == g.tally.len(),
        forall|j: int|
            0 <= j < g.tally.len() ==> g.tally[j] <= gate_after_vote(g, pos, amount).tally[j],
{
}

/// Law: across any sequence of votes none of which overflows, every tally is
/// non-decreasing.
pub proof fn lemma_tally_monotone(g: GateModel, votes: Seq<(u8, u64)>)
    requires
        votes_fit(g, votes),
    ensures
        gate_after_votes(g, votes).tally.len() == g.tally.len(),
        forall|j: int|
            0 <= j < g.tally.len() ==> g.tally[j] <= gate_after_votes(g, votes).tally[j],
    decreases votes.len(),
{
    if votes.len() > 0 {
        let h = gate_after_vote(g, votes[0].0, votes[0].1);
        lemma_vote_tally_monotone(g, votes[0].0, votes[0].1);
        lemma_tally_monotone(h, votes.skip(1));
    }
}

/// Law: a vote never reopens a closed gate.
pub proof fn lemma_gate_never_reopens(g: GateModel, pos: u8, amount: u64)
    ensures
        gate_after_vote(g, pos, amount).is_open ==> g.is_open,
{
}

/// Law: once voting is closed it stays closed, and no later vote changes
/// any tally: every vote cast after closure is rejected.
pub proof fn lemma_closed_gate_stays_closed(g: GateModel, votes: Seq<(u8, u64)>)
    requires
        !g.is_open,
    ensures
        gate_after_votes(g, votes) == g,
    decreases votes.len(),
{
    if votes.len() > 0 {
        lemma_closed_gate_stays_closed(gate_after_vote(g, votes[0].0, votes[0].1), votes.skip(1));
    }
}

/// Law: as long as voting is open, no tally has exceeded the threshold: the
/// first crossing closes voting at once, so an open state always means that
/// nobody has won yet.
pub proof fn lemma_open_means_no_winner(g: GateModel, votes: Seq<(u8, u64)>)
    requires
        g.is_open ==> forall|j: int| 0 <= j < g.tally.len() ==> g.tally[j] <= VOTE_THRESHOLD,
    ensures
        ({
            let h = gate_after_votes(g, votes);
            h.is_open ==> forall|j: int| 0 <= j < h.tally.len() ==> h.tally[j] <= VOTE_THRESHOLD
        }),
    decreases votes.len(),
{
    if votes.len() > 0 {
        let h = gate_after_vote(g, votes[0].0, votes[0].1);
        assert(h.is_open ==> forall|j: int|
            0 <= j < h.tally.len() ==> h.tally[j] <= VOTE_THRESHOLD) by {
            if gate_vote_error(g, votes[0].0) is None && h.is_open {
                let i = votes[0].0 - 1;
                assert forall|j: int| 0 <= j < h.tally.len() implies h.tally[j] <= VOTE_THRESHOLD by {
                    if j != i {
                        assert(h.tally[j] == g.tally[j]);
                    }
                }
            }
        }
        lemma_open_means_no_winner(h, votes.skip(1));
    }
}

/// Law: the vote that lifts a candidate's tally above the threshold closes
/// voting, and no later sequence of votes reopens it or changes anything.
pub proof fn lemma_gate_closure_permanent(g: GateModel, pos: u8, amount: u64, later: Seq<(u8, u64)>)
    requires
        gate_vote_error(g, pos) is None,
        g.tally[pos - 1] + amount <= u64::MAX,
        g.tally[pos - 1] + amount > VOTE_THRESHOLD,
    ensures
        !gate_after_vote(g, pos, amount).is_open,
        gate_after_votes(gate_after_vote(g, pos, amount), later) == gate_after_vote(g, pos, amount),
{
    let h = gate_after_vote(g, pos, amount);
    assert(h.tally[pos - 1] > VOTE_THRESHOLD);
    lemma_closed_gate_stays_closed(h, later);
}

} // verus!
