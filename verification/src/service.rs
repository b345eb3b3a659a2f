//! The escrow service: the program authority together with the stored
//! records, and the operations Open, Vote and Collect against them.
//!
//! Every operation is all-or-nothing: on any failure the returned error is
//! the only effect. Time is an argument, never read here; the host performs
//! the actual value movement that the pooled balance records.

use vstd::prelude::*;

use crate::errors::MyError;
use crate::escrow::{
    record_has_key, collect_checks, AssetAccountType, EscrowAccount, Params,
    ProgramAuthority,
};
use crate::gate::{gate_after_vote, gate_vote_error};
use crate::merkle::path_view;

verus! {

/// The whole custodial state: the singleton authority holding the pooled
/// balance, and the stored escrow records.
pub struct EscrowService {
    pub authority: ProgramAuthority,
    pub records: Vec<EscrowAccount>,
}

/// The sum of the balances of the stored records: what the pooled balance
/// owes to open escrows.
pub open spec fn total_balance(records: Seq<EscrowAccount>) -> int
    decreases records.len(),
{
    if records.len() == 0 {
        0
    } else {
        records[0].balance + total_balance(records.skip(1))
    }
}

/// Whether some stored record carries the key (depositor, root, asset).
pub open spec fn has_record(
    records: Seq<EscrowAccount>,
    sender: Seq<u8>,
    root: Seq<u8>,
    asset: AssetAccountType,
) -> bool {
    exists|i: int|
        0 <= i < records.len() && record_has_key(#[trigger] records[i], sender, root, asset)
}

proof fn lemma_total_nonneg(records: Seq<EscrowAccount>)
    ensures
        total_balance(records) >= 0,
    decreases records.len(),
{
    if records.len() > 0 {
        lemma_total_nonneg(records.skip(1));
    }
}

proof fn lemma_total_push(records: Seq<EscrowAccount>, r: EscrowAccount)
    ensures
        total_balance(records.push(r)) == total_balance(records) + r.balance,
    decreases records.len(),
{
    if records.len() == 0 {
        assert(records.push(r).skip(1) =~= records);
        assert(records.push(r)[0] == r);
    } else {
        assert(records.push(r).skip(1) =~= records.skip(1).push(r));
        assert(records.push(r)[0] == records[0]);
        lemma_total_push(records.skip(1), r);
    }
}

proof fn lemma_total_remove(records: Seq<EscrowAccount>, i: int)
    requires
        0 <= i < records.len(),
    ensures
        total_balance(records.remove(i)) == total_balance(records) - records[i].balance,
    decreases records.len(),
{
    if i == 0 {
        assert(records.remove(0) =~= records.skip(1));
    } else {
        assert(records.remove(i).skip(1) =~= records.skip(1).remove(i - 1));
        lemma_total_remove(records.skip(1), i - 1);
    }
}

proof fn lemma_total_update_same_balance(records: Seq<EscrowAccount>, i: int, r: EscrowAccount)
    requires
        0 <= i < records.len(),
        r.balance == records[i].balance,
    ensures
        total_balance(records.update(i, r)) == total_balance(records),
    decreases records.len(),
{
    if i == 0 {
        assert(records.update(0, r).skip(1) =~= records.skip(1));
    } else {
        assert(records.update(i, r).skip(1) =~= records.skip(1).update(i - 1, r));
        lemma_total_update_same_balance(records.skip(1), i - 1, r);
    }
}

/// In a well-formed service at most one record carries a given key.
pub proof fn lemma_key_unique(
    s: EscrowService,
    sender: Seq<u8>,
    root: Seq<u8>,
    asset: AssetAccountType,
    i: int,
    j: int,
)
    requires
        s.wf(),
        0 <= i < s.records@.len(),
        0 <= j < s.records@.len(),
        record_has_key(s.records@[i], sender, root, asset),
        record_has_key(s.records@[j], sender, root, asset),
    ensures
        i == j,
{
    if i < j {
        assert(record_has_key(
            s.records@[i],
            s.records@[j].sender@,
            s.records@[j].merkle_root@,
            s.records@[j].asset,
        ));
    } else if j < i {
        assert(record_has_key(
            s.records@[j],
            s.records@[i].sender@,
            s.records@[i].merkle_root@,
            s.records@[i].asset,
        ));
    }
}

/// What opening an escrow leaves behind on success: the record appended at
/// the end of the store.
pub open spec fn opened_record(
    rec: EscrowAccount,
    sender: [u8; 32],
    data: Params,
    asset: AssetAccountType,
    now: i64,
) -> bool {
    &&& rec.initial_date == now
    &&& rec.maturity_date == now + 86400 * data.period
    &&& rec.sender == sender
    &&& rec.merkle_root == data.merkle_root
    &&& rec.balance == data.amount
    &&& rec.gate@.tally.len() == data.size
    &&& (forall|i: int| 0 <= i < data.size ==> rec.gate@.tally[i] == 0)
    &&& rec.gate@.is_open
    &&& rec.asset == asset
}

/// The full contract of opening an escrow. The authority must be
/// initialized, else `Uninitialized`; the key must be fresh, else
/// `AlreadyExists`; otherwise the deposit moves into the pooled balance and
/// the new record is appended: opened now, maturing `period` days later,
/// with a zeroed tally and voting open.
pub open spec fn open_post(
    pre: EscrowService,
    post: EscrowService,
    sender: [u8; 32],
    data: Params,
    asset: AssetAccountType,
    now: i64,
    r: Result<(), MyError>,
) -> bool {
    &&& (!pre.authority.is_initialized ==> r == Err::<(), MyError>(MyError::Uninitialized) && post
        == pre)
    &&& (pre.authority.is_initialized && has_record(
        pre.records@,
        sender@,
        data.merkle_root@,
        asset,
    ) ==> r == Err::<(), MyError>(MyError::AlreadyExists) && post == pre)
    &&& (pre.authority.is_initialized && !has_record(
        pre.records@,
        sender@,
        data.merkle_root@,
        asset,
    ) ==> {
        &&& r is Ok
        &&& post.records@.len() == pre.records@.len() + 1
        &&& post.records@.drop_last() == pre.records@
        &&& opened_record(post.records@.last(), sender, data, asset, now)
        &&& post.authority == (ProgramAuthority {
            is_initialized: true,
            bump: pre.authority.bump,
            lamports: (pre.authority.lamports + data.amount) as u64,
        })
    })
}

/// The full contract of a vote. The record must exist, else `NotFound`; the
/// gate decides the rest: a rejected vote changes nothing, an accepted one
/// pools the stake and applies `gate_after_vote` to the record's gate,
/// leaving every other field and record unchanged.
pub open spec fn vote_post(
    pre: EscrowService,
    post: EscrowService,
    sender: Seq<u8>,
    root: Seq<u8>,
    asset: AssetAccountType,
    pos: u8,
    amount: u64,
    r: Result<(), MyError>,
) -> bool {
    &&& (!has_record(pre.records@, sender, root, asset) ==> r == Err::<(), MyError>(
        MyError::NotFound,
    ) && post == pre)
    &&& (forall|i: int|
        0 <= i < pre.records@.len() && record_has_key(
            #[trigger] pre.records@[i],
            sender,
            root,
            asset,
        ) ==> match gate_vote_error(pre.records@[i].gate@, pos) {
            Some(e) => r == Err::<(), MyError>(e) && post == pre,
            None => {
                &&& r is Ok
                &&& post.records@.len() == pre.records@.len()
                &&& (forall|j: int|
                    0 <= j < pre.records@.len() && j != i ==> post.records@[j] == pre.records@[j])
                &&& post.records@[i].gate@ == gate_after_vote(pre.records@[i].gate@, pos, amount)
                &&& post.records@[i].initial_date == pre.records@[i].initial_date
                &&& post.records@[i].maturity_date == pre.records@[i].maturity_date
                &&& post.records@[i].sender == pre.records@[i].sender
                &&& post.records@[i].merkle_root == pre.records@[i].merkle_root
                &&& post.records@[i].balance == pre.records@[i].balance
                &&& post.records@[i].asset == pre.records@[i].asset
                &&& post.authority == (ProgramAuthority {
                    is_initialized: pre.authority.is_initialized,
                    bump: pre.authority.bump,
                    lamports: (pre.authority.lamports + amount) as u64,
                })
            },
        })
}

/// The full contract of a collection. The record must exist, else
/// `NotFound`; `collect_checks` decides the rest, preconditions in order
/// with the first failure winning. On success the record's whole balance
/// leaves the pooled balance for the claimant, the record is destroyed, and
/// no record with its key remains: a payout happens at most once.
pub open spec fn collect_post(
    pre: EscrowService,
    post: EscrowService,
    sender: Seq<u8>,
    root: Seq<u8>,
    asset: AssetAccountType,
    signer: Seq<u8>,
    path: Seq<Seq<u8>>,
    ipos: u8,
    now: i64,
    r: Result<u64, MyError>,
) -> bool {
    &&& (!has_record(pre.records@, sender, root, asset) ==> r == Err::<u64, MyError>(
        MyError::NotFound,
    ) && post == pre)
    &&& (forall|i: int|
        0 <= i < pre.records@.len() && record_has_key(
            #[trigger] pre.records@[i],
            sender,
            root,
            asset,
        ) ==> {
            &&& r == collect_checks(pre.records@[i], signer, path, ipos, now)
            &&& (r is Err ==> post == pre)
            &&& (r is Ok ==> {
                &&& post.records@ == pre.records@.remove(i)
                &&& !has_record(post.records@, sender, root, asset)
                &&& post.authority == (ProgramAuthority {
                    is_initialized: pre.authority.is_initialized,
                    bump: pre.authority.bump,
                    lamports: (pre.authority.lamports - pre.records@[i].balance) as u64,
                })
            })
        })
}

impl EscrowService {
    /// Every stored record is well-formed, no two records share a key, and
    /// the pooled balance covers the sum of the stored balances.
    pub open spec fn wf(self) -> bool {
        &&& forall|i: int| 0 <= i < self.records@.len() ==> (#[trigger] self.records@[i]).wf()
        &&& forall|i: int, j: int|
            0 <= i < j < self.records@.len()
                ==> !record_has_key(
                #[trigger] self.records@[i],
                (#[trigger] self.records@[j]).sender@,
                self.records@[j].merkle_root@,
                self.records@[j].asset,
            )
        &&& total_balance(self.records@) <= self.authority.lamports
    }

    /// An empty service: no authority yet, no records, nothing pooled.
    pub fn new() -> (s: EscrowService)
        ensures
            s.wf(),
            !s.authority.is_initialized,
            s.authority.lamports == 0,
            s.records@.len() == 0,
    {
        let s = EscrowService {
            authority: ProgramAuthority { is_initialized: false, bump: 0, lamports: 0 },
            records: Vec::new(),
        };
        s
    }

    /// Initialize the singleton program authority with its derivation nonce.
    /// The authority is created once: a second initialization fails
    /// `AlreadyExists` and changes nothing.
    pub fn initialize_program_signer(&mut self, bump: u8) -> (r: Result<(), MyError>)
        ensures
            old(self).authority.is_initialized ==> r == Err::<(), MyError>(MyError::AlreadyExists)
                && *final(self) == *old(self),
            !old(self).authority.is_initialized ==> r is Ok && final(self).authority == (
            ProgramAuthority {
                is_initialized: true,
                bump,
                lamports: old(self).authority.lamports,
            }) && final(self).records == old(self).records,
            old(self).wf() ==> final(self).wf(),
    {
        if self.authority.is_initialized {
            return Err(MyError::AlreadyExists);
        }
        self.authority = ProgramAuthority {
            is_initialized: true,
            bump,
            lamports: self.authority.lamports,
        };
        Ok(())
    }

    /// Find the index of the record stored under (depositor, root, asset).
    fn find_record(
        &self,
        sender: &[u8; 32],
        root: &[u8; 32],
        asset: &AssetAccountType,
    ) -> (r: Option<usize>)
        ensures
            match r {
                Some(i) => i < self.records@.len() && record_has_key(
                    self.records@[i as int],
                    sender@,
                    root@,
                    *asset,
                ),
                None => !has_record(self.records@, sender@, root@, *asset),
            },
    {
        let mut i: usize = 0;
        while i < self.records.len()
            invariant
                i <= self.records@.len(),
                forall|j: int|
                    0 <= j < i ==> !record_has_key(
                        #[trigger] self.records@[j],
                        sender@,
                        root@,
                        *asset,
                    ),
            decreases self.records@.len() - i,
        {
            let rec = &self.records[i];
            if crate::merkle::eq_bytes32(&rec.sender, sender) && crate::merkle::eq_bytes32(
                &rec.merkle_root,
                root,
            ) && crate::escrow::asset_matches(&rec.asset, asset) {
                return Some(i);
            }
            i = i + 1;
        }
        None
    }

    /// Open an escrow: move the deposit into the pooled balance and append
    /// the record committed to `data.merkle_root`, holding `asset`.
    fn open_escrow(
        &mut self,
        sender: &[u8; 32],
        data: &Params,
        asset: AssetAccountType,
        now: i64,
    ) -> (r: Result<(), MyError>)
        requires
            old(self).wf(),
            1 <= data.amount,
            1 <= data.size,
            data.size <= usize::MAX as u64,
            0 <= data.period,
            0 <= now,
            now + 86400 * data.period <= i64::MAX,
            old(self).authority.lamports + data.amount <= u64::MAX,
        ensures
            final(self).wf(),
            open_post(*old(self), *final(self), *sender, *data, asset, now, r),
    {
        if !self.authority.is_initialized {
            return Err(MyError::Uninitialized);
        }
        match self.find_record(sender, &data.merkle_root, &asset) {
            Some(_) => {
                return Err(MyError::AlreadyExists);
            },
            None => {},
        }
        let rec = EscrowAccount::open_record(sender, data, asset, now);
        proof {
            lemma_total_push(self.records@, rec);
        }
        let ghost pre_records = self.records@;
        self.records.push(rec);
        self.authority.lamports = self.authority.lamports + data.amount;
        proof {
            assert(self.records@.drop_last() =~= pre_records);
            assert forall|i: int, j: int| 0 <= i < j < self.records@.len() implies !record_has_key(
                #[trigger] self.records@[i],
                (#[trigger] self.records@[j]).sender@,
                self.records@[j].merkle_root@,
                self.records@[j].asset,
            ) by {
                if j == pre_records.len() {
                    assert(self.records@[j] == rec);
                    assert(!record_has_key(pre_records[i], sender@, data.merkle_root@, asset));
                } else {
                    assert(old(self).wf());
                }
            }
        }
        Ok(())
    }

    /// Open an escrow holding native value.
    pub fn open_escrow_target_sol(
        &mut self,
        sender: &[u8; 32],
        data: &Params,
        now: i64,
    ) -> (r: Result<(), MyError>)
        requires
            old(self).wf(),
            1 <= data.amount,
            1 <= data.size,
            data.size <= usize::MAX as u64,
            0 <= data.period,
            0 <= now,
            now + 86400 * data.period <= i64::MAX,
            old(self).authority.lamports + data.amount <= u64::MAX,
        ensures
            final(self).wf(),
            open_post(*old(self), *final(self), *sender, *data, AssetAccountType::Sol, now, r),
    {
        self.open_escrow(sender, data, AssetAccountType::Sol, now)
    }

    /// Open an escrow holding a fungible token of the given mint.
    pub fn open_escrow_target_token(
        &mut self,
        sender: &[u8; 32],
        data: &Params,
        mint: &[u8; 32],
        now: i64,
    ) -> (r: Result<(), MyError>)
        requires
            old(self).wf(),
            1 <= data.amount,
            1 <= data.size,
            data.size <= usize::MAX as u64,
            0 <= data.period,
            0 <= now,
            now + 86400 * data.period <= i64::MAX,
            old(self).authority.lamports + data.amount <= u64::MAX,
        ensures
            final(self).wf(),
            open_post(
                *old(self),
                *final(self),
                *sender,
                *data,
                AssetAccountType::Token { mint: *mint },
                now,
                r,
            ),
    {
        self.open_escrow(sender, data, AssetAccountType::Token { mint: *mint }, now)
    }

    /// Cast a vote of `amount` for the 1-based candidate `pos` on the record
    /// stored under (depositor, root, asset). The stake is pooled and the
    /// record's gate updated in one atomic step; a rejected vote changes
    /// nothing.
    pub fn vote(
        &mut self,
        sender: &[u8; 32],
        merkle_root: &[u8; 32],
        asset: &AssetAccountType,
        pos: u8,
        amount: u64,
    ) -> (r: Result<(), MyError>)
        requires
            old(self).wf(),
            old(self).authority.lamports + amount <= u64::MAX,
            forall|i: int|
                (0 <= i < old(self).records@.len() && record_has_key(
                    #[trigger] old(self).records@[i],
                    sender@,
                    merkle_root@,
                    *asset,
                ) && gate_vote_error(old(self).records@[i].gate@, pos) is None) ==> old(
                    self,
                ).records@[i].gate@.tally[pos - 1] + amount <= u64::MAX,
        ensures
            final(self).wf(),
            vote_post(*old(self), *final(self), sender@, merkle_root@, *asset, pos, amount, r),
    {
        let idx = match self.find_record(sender, merkle_root, asset) {
            None => {
                return Err(MyError::NotFound);
            },
            Some(i) => i,
        };
        proof {
            assert forall|i: int|
                0 <= i < self.records@.len() && record_has_key(
                    #[trigger] self.records@[i],
                    sender@,
                    merkle_root@,
                    *asset,
                ) implies i == idx as int by {
                lemma_key_unique(*self, sender@, merkle_root@, *asset, i, idx as int);
            }
        }
        if !self.records[idx].gate.is_open {
            return Err(MyError::VotingIsClosed);
        }
        if pos < 1 || self.records[idx].gate.candidates.len() < pos as usize {
            return Err(MyError::PositionTooLarge);
        }
        let ghost pre = *self;
        let mut rec = self.records.remove(idx);
        let res = rec.gate.vote(pos, amount);
        self.records.insert(idx, rec);
        self.authority.lamports = self.authority.lamports + amount;
        proof {
            assert(self.records@ =~= pre.records@.update(idx as int, self.records@[idx as int]));
            lemma_total_update_same_balance(pre.records@, idx as int, self.records@[idx as int]);
            assert forall|i: int, j: int| 0 <= i < j < self.records@.len() implies !record_has_key(
                #[trigger] self.records@[i],
                (#[trigger] self.records@[j]).sender@,
                self.records@[j].merkle_root@,
                self.records@[j].asset,
            ) by {
                assert(!record_has_key(
                    pre.records@[i],
                    pre.records@[j].sender@,
                    pre.records@[j].merkle_root@,
                    pre.records@[j].asset,
                ));
            }
        }
        res
    }

    /// Collect the record stored under (depositor, root, asset): decide per
    /// `collect_checks`, and on success pay the record's whole balance out
    /// of the pool and destroy the record.
    fn collect_inner(
        &mut self,
        sender: &[u8; 32],
        merkle_root: &[u8; 32],
        asset: &AssetAccountType,
        signer: &[u8; 32],
        nodes: &Vec<[u8; 32]>,
        ipos: u8,
        now: i64,
    ) -> (r: Result<u64, MyError>)
        requires
            old(self).wf(),
        ensures
            final(self).wf(),
            collect_post(
                *old(self),
                *final(self),
                sender@,
                merkle_root@,
                *asset,
                signer@,
                path_view(nodes@),
                ipos,
                now,
                r,
            ),
    {
        let idx = match self.find_record(sender, merkle_root, asset) {
            None => {
                return Err(MyError::NotFound);
            },
            Some(i) => i,
        };
        proof {
            assert forall|i: int|
                0 <= i < self.records@.len() && record_has_key(
                    #[trigger] self.records@[i],
                    sender@,
                    merkle_root@,
                    *asset,
                ) implies i == idx as int by {
                lemma_key_unique(*self, sender@, merkle_root@, *asset, i, idx as int);
            }
        }
        let decision = self.records[idx].collect_decision(signer, nodes, ipos, now);
        match decision {
            Err(e) => Err(e),
            Ok(amount) => {
                proof {
                    lemma_total_remove(self.records@, idx as int);
                    lemma_total_nonneg(self.records@.remove(idx as int));
                }
                let ghost pre = *self;
                let rec = self.records.remove(idx);
                self.authority.lamports = self.authority.lamports - rec.balance;
                proof {
                    let post_records = self.records@;
                    assert forall|k: int| 0 <= k < post_records.len() implies post_records[k]
                        == if k < idx as int {
                        pre.records@[k]
                    } else {
                        pre.records@[k + 1]
                    } by {
                        assert(post_records == pre.records@.remove(idx as int));
                    }
                    assert forall|i: int, j: int|
                        0 <= i < j < post_records.len() implies !record_has_key(
                        #[trigger] post_records[i],
                        (#[trigger] post_records[j]).sender@,
                        post_records[j].merkle_root@,
                        post_records[j].asset,
                    ) by {
                        let i0 = if i < idx as int { i } else { i + 1 };
                        let j0 = if j < idx as int { j } else { j + 1 };
                        assert(post_records[i] == pre.records@[i0]);
                        assert(post_records[j] == pre.records@[j0]);
                        assert(!record_has_key(
                            pre.records@[i0],
                            pre.records@[j0].sender@,
                            pre.records@[j0].merkle_root@,
                            pre.records@[j0].asset,
                        ));
                    }
                    assert forall|k: int|
                        0 <= k < post_records.len() implies !record_has_key(
                        #[trigger] post_records[k],
                        sender@,
                        merkle_root@,
                        *asset,
                    ) by {
                        let k0 = if k < idx as int { k } else { k + 1 };
                        assert(post_records[k] == pre.records@[k0]);
                        if record_has_key(pre.records@[k0], sender@, merkle_root@, *asset) {
                            lemma_key_unique(pre, sender@, merkle_root@, *asset, k0, idx as int);
                        }
                    }
                }
                Ok(amount)
            },
        }
    }

    /// Collect an escrow holding native value: the pooled balance owed to
    /// the record moves to the claimant and the record is destroyed.
    pub fn collect_escrow_on_sol(
        &mut self,
        sender: &[u8; 32],
        merkle_root: &[u8; 32],
        signer: &[u8; 32],
        nodes: &Vec<[u8; 32]>,
        ipos: u8,
        now: i64,
    ) -> (r: Result<u64, MyError>)
        requires
            old(self).wf(),
        ensures
            final(self).wf(),
            collect_post(
                *old(self),
                *final(self),
                sender@,
                merkle_root@,
                AssetAccountType::Sol,
                signer@,
                path_view(nodes@),
                ipos,
                now,
                r,
            ),
    {
        self.collect_inner(sender, merkle_root, &AssetAccountType::Sol, signer, nodes, ipos, now)
    }

    /// Collect an escrow holding a fungible token of the given mint.
    pub fn collect_escrow_on_token(
        &mut self,
        sender: &[u8; 32],
        merkle_root: &[u8; 32],
        mint: &[u8; 32],
        signer: &[u8; 32],
        nodes: &Vec<[u8; 32]>,
        ipos: u8,
        now: i64,
    ) -> (r: Result<u64, MyError>)
        requires
            old(self).wf(),
        ensures
            final(self).wf(),
            collect_post(
                *old(self),
                *final(self),
                sender@,
                merkle_root@,
                AssetAccountType::Token { mint: *mint },
                signer@,
                path_view(nodes@),
                ipos,
                now,
                r,
            ),
    {
        self.collect_inner(
            sender,
            merkle_root,
            &AssetAccountType::Token { mint: *mint },
            signer,
            nodes,
            ipos,
            now,
        )
    }
}

/// Law: payout is exactly-once. After a successful collection the pooled
/// balance has decreased exactly by the paid amount, no record with the key
/// remains, and a second collection with the same key fails `NotFound` and
/// changes nothing — whatever proof, index and time it presents.
pub proof fn lemma_collect_exactly_once(
    s0: EscrowService,
    s1: EscrowService,
    s2: EscrowService,
    sender: Seq<u8>,
    root: Seq<u8>,
    asset: AssetAccountType,
    signer1: Seq<u8>,
    path1: Seq<Seq<u8>>,
    ipos1: u8,
    now1: i64,
    amount: u64,
    signer2: Seq<u8>,
    path2: Seq<Seq<u8>>,
    ipos2: u8,
    now2: i64,
    r2: Result<u64, MyError>,
)
    requires
        s0.wf(),
        collect_post(s0, s1, sender, root, asset, signer1, path1, ipos1, now1, Ok(amount)),
        collect_post(s1, s2, sender, root, asset, signer2, path2, ipos2, now2, r2),
    ensures
        r2 == Err::<u64, MyError>(MyError::NotFound),
        s2 == s1,
        s0.authority.lamports - s1.authority.lamports == amount,
{
    assert(has_record(s0.records@, sender, root, asset));
    let i = choose|i: int|
        0 <= i < s0.records@.len() && record_has_key(#[trigger] s0.records@[i], sender, root, asset);
    assert(Ok::<u64, MyError>(amount) == collect_checks(s0.records@[i], signer1, path1, ipos1, now1));
    assert(s0.records@[i].balance == amount);
    lemma_total_remove(s0.records@, i);
    lemma_total_nonneg(s0.records@.remove(i));
    assert(amount <= s0.authority.lamports);
}

} // verus!

