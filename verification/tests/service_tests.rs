//! Tests of the escrow lifecycle: Open, Vote and Collect against the stored
//! records, with trees built by the same SHA-256 implementation the library
//! calls.

use solana_escrow::errors::MyError;
use solana_escrow::escrow::{AssetAccountType, Params};
use solana_escrow::gate::VOTE_THRESHOLD;
use solana_escrow::service::EscrowService;

fn h1(a: &[u8; 32]) -> [u8; 32] {
    solana_sha256_hasher::hashv(&[a.as_slice()]).to_bytes()
}

fn h2(a: &[u8; 32], b: &[u8; 32]) -> [u8; 32] {
    solana_sha256_hasher::hashv(&[a.as_slice(), b.as_slice()]).to_bytes()
}

fn id(fill: u8) -> [u8; 32] {
    [fill; 32]
}

const NOW: i64 = 1_000_000;
const DAY: i64 = 86_400;

fn initialized_service() -> EscrowService {
    let mut s = EscrowService::new();
    assert_eq!(s.initialize_program_signer(200), Ok(()));
    s
}

fn params(root: [u8; 32], amount: u64, period: i64, size: u64) -> Params {
    Params { merkle_root: root, amount, period, size }
}

#[test]
fn authority_initializes_once() {
    let mut s = EscrowService::new();
    assert_eq!(s.initialize_program_signer(200), Ok(()));
    assert!(s.authority.is_initialized);
    assert_eq!(s.authority.bump, 200);
    assert_eq!(s.initialize_program_signer(201), Err(MyError::AlreadyExists));
    assert_eq!(s.authority.bump, 200);
}

#[test]
fn open_requires_initialized_authority() {
    let mut s = EscrowService::new();
    let data = params(id(9), 1000, 1, 3);
    assert_eq!(s.open_escrow_target_sol(&id(1), &data, NOW), Err(MyError::Uninitialized));
    assert_eq!(s.records.len(), 0);
}

#[test]
fn open_creates_the_record_and_pools_the_deposit() {
    let mut s = initialized_service();
    let data = params(id(9), 1000, 2, 3);
    assert_eq!(s.open_escrow_target_sol(&id(1), &data, NOW), Ok(()));
    assert_eq!(s.records.len(), 1);
    assert_eq!(s.authority.lamports, 1000);
    let rec = &s.records[0];
    assert_eq!(rec.initial_date, NOW);
    assert_eq!(rec.maturity_date, NOW + 2 * DAY);
    assert_eq!(rec.sender, id(1));
    assert_eq!(rec.merkle_root, id(9));
    assert_eq!(rec.balance, 1000);
    assert_eq!(rec.gate.candidates, vec![0, 0, 0]);
    assert!(rec.gate.is_open);
}

#[test]
fn open_same_key_twice_fails() {
    let mut s = initialized_service();
    let data = params(id(9), 1000, 1, 3);
    assert_eq!(s.open_escrow_target_sol(&id(1), &data, NOW), Ok(()));
    assert_eq!(s.open_escrow_target_sol(&id(1), &data, NOW), Err(MyError::AlreadyExists));
    // The same depositor and root under another asset is another key.
    assert_eq!(s.open_escrow_target_token(&id(1), &data, &id(5), NOW), Ok(()));
    assert_eq!(s.open_escrow_target_token(&id(1), &data, &id(5), NOW), Err(MyError::AlreadyExists));
    assert_eq!(s.open_escrow_target_token(&id(1), &data, &id(6), NOW), Ok(()));
    assert_eq!(s.records.len(), 3);
}

#[test]
fn vote_and_collect_need_an_existing_record() {
    let mut s = initialized_service();
    let empty: Vec<[u8; 32]> = Vec::new();
    assert_eq!(s.vote(&id(1), &id(9), &AssetAccountType::Sol, 1, 10), Err(MyError::NotFound));
    assert_eq!(
        s.collect_escrow_on_sol(&id(1), &id(9), &id(2), &empty, 1, NOW),
        Err(MyError::NotFound)
    );
}

#[test]
fn vote_rejects_out_of_range_candidates() {
    let mut s = initialized_service();
    let data = params(id(9), 1000, 1, 3);
    assert_eq!(s.open_escrow_target_sol(&id(1), &data, NOW), Ok(()));
    assert_eq!(
        s.vote(&id(1), &id(9), &AssetAccountType::Sol, 0, 10),
        Err(MyError::PositionTooLarge)
    );
    assert_eq!(
        s.vote(&id(1), &id(9), &AssetAccountType::Sol, 4, 10),
        Err(MyError::PositionTooLarge)
    );
    assert_eq!(s.records[0].gate.candidates, vec![0, 0, 0]);
    assert_eq!(s.authority.lamports, 1000);
}

#[test]
fn tallies_never_decrease_across_votes() {
    let mut s = initialized_service();
    let data = params(id(9), 1000, 1, 3);
    assert_eq!(s.open_escrow_target_sol(&id(1), &data, NOW), Ok(()));
    let mut previous = vec![0u64, 0, 0];
    for (pos, amount) in [(1u8, 50u64), (2, 70), (1, 30), (3, 5), (2, 1)] {
        assert_eq!(s.vote(&id(1), &id(9), &AssetAccountType::Sol, pos, amount), Ok(()));
        let current = s.records[0].gate.candidates.clone();
        for i in 0..3 {
            assert!(previous[i] <= current[i]);
        }
        previous = current;
    }
    assert_eq!(s.records[0].gate.candidates, vec![80, 71, 5]);
    // Every stake was pooled on top of the deposit.
    assert_eq!(s.authority.lamports, 1000 + 156);
}

#[test]
fn scenario_open_then_immediate_collect() {
    // Open(amount=1000, root=R, period=1, N=3), then collect at once:
    // voting is still open, so the first precondition fails; after a vote
    // that closes voting the same immediate collect fails NotMatured.
    let mut s = initialized_service();
    let claimant = id(2);
    let root = h1(&claimant);
    let data = params(root, 1000, 1, 3);
    assert_eq!(s.open_escrow_target_sol(&id(1), &data, NOW), Ok(()));
    let empty: Vec<[u8; 32]> = Vec::new();
    assert_eq!(
        s.collect_escrow_on_sol(&id(1), &root, &claimant, &empty, 1, NOW),
        Err(MyError::VotingInProgress)
    );
    assert_eq!(s.vote(&id(1), &root, &AssetAccountType::Sol, 1, VOTE_THRESHOLD + 1), Ok(()));
    assert_eq!(
        s.collect_escrow_on_sol(&id(1), &root, &claimant, &empty, 1, NOW),
        Err(MyError::NotMatured)
    );
    assert_eq!(
        s.collect_escrow_on_sol(&id(1), &root, &claimant, &empty, 1, NOW + DAY - 1),
        Err(MyError::NotMatured)
    );
    assert_eq!(s.records[0].balance, 1000);
}

#[test]
fn scenario_threshold_crossing_closes_voting() {
    // Vote(index=1, amount=100_000_001) with T=100_000_000 closes voting;
    // a later vote for candidate 2 is rejected and cannot reopen it.
    let mut s = initialized_service();
    let data = params(id(9), 1000, 1, 3);
    assert_eq!(s.open_escrow_target_sol(&id(1), &data, NOW), Ok(()));
    assert_eq!(VOTE_THRESHOLD, 100_000_000);
    assert_eq!(s.vote(&id(1), &id(9), &AssetAccountType::Sol, 1, 100_000_001), Ok(()));
    assert!(!s.records[0].gate.is_open);
    assert_eq!(
        s.vote(&id(1), &id(9), &AssetAccountType::Sol, 2, 1),
        Err(MyError::VotingIsClosed)
    );
    assert!(!s.records[0].gate.is_open);
    assert_eq!(s.records[0].gate.candidates, vec![100_000_001, 0, 0]);
    // An exact-threshold tally does not close voting: it must be exceeded.
    let data2 = params(id(8), 1000, 1, 3);
    assert_eq!(s.open_escrow_target_sol(&id(1), &data2, NOW), Ok(()));
    assert_eq!(s.vote(&id(1), &id(8), &AssetAccountType::Sol, 1, VOTE_THRESHOLD), Ok(()));
    assert!(s.records[1].gate.is_open);
    assert_eq!(s.vote(&id(1), &id(8), &AssetAccountType::Sol, 1, 1), Ok(()));
    assert!(!s.records[1].gate.is_open);
}

#[test]
fn scenario_successful_collection_pays_once() {
    // After maturity, gate closed, tally[1] = 150_000_000: a collect for
    // candidate 1 with a valid proof pays the whole balance and removes the
    // record; a collect for candidate 2 fails InvalidCandidate, and a second
    // collect for candidate 1 fails NotFound.
    let mut s = initialized_service();
    let claimant = id(2);
    let other = id(3);
    // Claimant stands at leaf position 1 of a two-leaf tree.
    let root = h2(&h1(&claimant), &h1(&other));
    let proof = vec![h1(&other)];
    let data = params(root, 1000, 1, 3);
    assert_eq!(s.open_escrow_target_sol(&id(1), &data, NOW), Ok(()));
    assert_eq!(s.vote(&id(1), &root, &AssetAccountType::Sol, 1, 150_000_000), Ok(()));
    assert!(!s.records[0].gate.is_open);
    let lamports_before = s.authority.lamports;
    assert_eq!(lamports_before, 1000 + 150_000_000);

    let matured = NOW + DAY;
    assert_eq!(
        s.collect_escrow_on_sol(&id(1), &root, &claimant, &proof, 2, matured),
        Err(MyError::InvalidCandidate)
    );
    assert_eq!(s.authority.lamports, lamports_before);
    assert_eq!(
        s.collect_escrow_on_sol(&id(1), &root, &claimant, &proof, 1, matured),
        Ok(1000)
    );
    assert_eq!(s.records.len(), 0);
    assert_eq!(s.authority.lamports, lamports_before - 1000);
    // The payout happens exactly once.
    assert_eq!(
        s.collect_escrow_on_sol(&id(1), &root, &claimant, &proof, 1, matured),
        Err(MyError::NotFound)
    );
    assert_eq!(s.authority.lamports, lamports_before - 1000);
}

#[test]
fn scenario_swapped_proof_order_fails() {
    // The sibling hashes are the right set, but the committed construction
    // placed the claimant at position 2: folding them with the parity of
    // position 1 reproduces a different root, so collection fails
    // ProofMismatch — ordering is part of the commitment.
    let mut s = initialized_service();
    let claimant = id(2);
    let other = id(3);
    let root = h2(&h1(&other), &h1(&claimant));
    let proof = vec![h1(&other)];
    let data = params(root, 1000, 0, 3);
    assert_eq!(s.open_escrow_target_sol(&id(1), &data, NOW), Ok(()));
    assert_eq!(s.vote(&id(1), &root, &AssetAccountType::Sol, 1, VOTE_THRESHOLD + 1), Ok(()));
    let lamports_before = s.authority.lamports;
    assert_eq!(
        s.collect_escrow_on_sol(&id(1), &root, &claimant, &proof, 1, NOW),
        Err(MyError::ProofMismatch)
    );
    assert_eq!(s.records.len(), 1);
    assert_eq!(s.records[0].balance, 1000);
    assert_eq!(s.authority.lamports, lamports_before);
    // With the parity the construction used, the same hashes verify — but
    // candidate 2 did not win.
    assert_eq!(
        s.collect_escrow_on_sol(&id(1), &root, &claimant, &proof, 2, NOW),
        Err(MyError::InvalidCandidate)
    );
}

#[test]
fn collect_preconditions_fail_one_by_one() {
    // From a state in which collection succeeds, violating exactly one
    // precondition produces exactly the matching error, with nothing moved.
    let claimant = id(2);
    let other = id(3);
    let root = h2(&h1(&claimant), &h1(&other));
    let proof = vec![h1(&other)];
    let build = |close_gate: bool| -> EscrowService {
        let mut s = initialized_service();
        let data = params(root, 1000, 1, 3);
        assert_eq!(s.open_escrow_target_sol(&id(1), &data, NOW), Ok(()));
        if close_gate {
            assert_eq!(s.vote(&id(1), &root, &AssetAccountType::Sol, 1, VOTE_THRESHOLD + 1), Ok(()));
        }
        s
    };
    let matured = NOW + DAY;

    // All four preconditions hold: success.
    let mut s = build(true);
    assert_eq!(s.collect_escrow_on_sol(&id(1), &root, &claimant, &proof, 1, matured), Ok(1000));

    // Gate still open.
    let mut s = build(false);
    let lamports = s.authority.lamports;
    assert_eq!(
        s.collect_escrow_on_sol(&id(1), &root, &claimant, &proof, 1, matured),
        Err(MyError::VotingInProgress)
    );
    assert_eq!(s.authority.lamports, lamports);

    // Not yet matured.
    let mut s = build(true);
    let lamports = s.authority.lamports;
    assert_eq!(
        s.collect_escrow_on_sol(&id(1), &root, &claimant, &proof, 1, matured - 1),
        Err(MyError::NotMatured)
    );
    assert_eq!(s.authority.lamports, lamports);

    // Asserted candidate did not win.
    let mut s = build(true);
    let lamports = s.authority.lamports;
    assert_eq!(
        s.collect_escrow_on_sol(&id(1), &root, &claimant, &proof, 2, matured),
        Err(MyError::InvalidCandidate)
    );
    assert_eq!(s.authority.lamports, lamports);

    // Out-of-range candidate index.
    let mut s = build(true);
    assert_eq!(
        s.collect_escrow_on_sol(&id(1), &root, &claimant, &proof, 4, matured),
        Err(MyError::PositionTooLarge)
    );

    // Proof does not reproduce the committed root.
    let mut s = build(true);
    let lamports = s.authority.lamports;
    assert_eq!(
        s.collect_escrow_on_sol(&id(1), &root, &other, &proof, 1, matured),
        Err(MyError::ProofMismatch)
    );
    assert_eq!(s.authority.lamports, lamports);
    assert_eq!(s.records.len(), 1);
}

#[test]
fn token_escrow_lifecycle() {
    let mut s = initialized_service();
    let claimant = id(2);
    let root = h1(&claimant);
    let mint = id(5);
    let asset = AssetAccountType::Token { mint };
    let data = params(root, 777, 0, 1);
    assert_eq!(s.open_escrow_target_token(&id(1), &data, &mint, NOW), Ok(()));
    assert_eq!(s.vote(&id(1), &root, &asset, 1, VOTE_THRESHOLD + 1), Ok(()));
    let empty: Vec<[u8; 32]> = Vec::new();
    // The same key under another mint is not found.
    assert_eq!(
        s.collect_escrow_on_token(&id(1), &root, &id(6), &claimant, &empty, 1, NOW),
        Err(MyError::NotFound)
    );
    // A native-asset lookup does not see the token record either.
    assert_eq!(
        s.collect_escrow_on_sol(&id(1), &root, &claimant, &empty, 1, NOW),
        Err(MyError::NotFound)
    );
    assert_eq!(
        s.collect_escrow_on_token(&id(1), &root, &mint, &claimant, &empty, 1, NOW),
        Ok(777)
    );
    assert_eq!(s.records.len(), 0);
}
