//! Tests of Merkle inclusion-proof verification against trees built with the
//! same SHA-256 implementation the library calls.

use solana_escrow::merkle::{compute_root, verify};

/// SHA-256 of one 32-byte value, computed directly with the outside hasher.
fn h1(a: &[u8; 32]) -> [u8; 32] {
    solana_sha256_hasher::hashv(&[a.as_slice()]).to_bytes()
}

/// SHA-256 of the concatenation of two 32-byte values.
fn h2(a: &[u8; 32], b: &[u8; 32]) -> [u8; 32] {
    solana_sha256_hasher::hashv(&[a.as_slice(), b.as_slice()]).to_bytes()
}

fn id(fill: u8) -> [u8; 32] {
    [fill; 32]
}

#[test]
fn single_leaf_tree_matches_hashed_identity() {
    let claimant = id(7);
    let empty: Vec<[u8; 32]> = Vec::new();
    // With an empty sibling path the recomputed root is the hashed identity.
    assert_eq!(compute_root(&claimant, &empty, 1), h1(&claimant));
    assert!(verify(&claimant, &empty, 1, &h1(&claimant)));
    assert!(!verify(&claimant, &empty, 1, &id(9)));
}

#[test]
fn two_leaf_tree_round_trip() {
    let a = id(1);
    let b = id(2);
    // Leaves are 1-indexed: position 1 is a left child, position 2 a right
    // child, so the committed root is H(H(a) || H(b)).
    let root = h2(&h1(&a), &h1(&b));
    assert!(verify(&a, &vec![h1(&b)], 1, &root));
    assert!(verify(&b, &vec![h1(&a)], 2, &root));
}

#[test]
fn four_leaf_tree_round_trip() {
    // A conforming construction: leaves at positions 1..=4, the parent of
    // node i is i % 2 + i / 2, odd indices are left children.
    let leaves = [id(1), id(2), id(3), id(4)];
    let n: Vec<[u8; 32]> = leaves.iter().map(h1).collect();
    let m1 = h2(&n[0], &n[1]);
    let m2 = h2(&n[2], &n[3]);
    let root = h2(&m1, &m2);

    assert!(verify(&leaves[0], &vec![n[1], m2], 1, &root));
    assert!(verify(&leaves[1], &vec![n[0], m2], 2, &root));
    assert!(verify(&leaves[2], &vec![n[3], m1], 3, &root));
    assert!(verify(&leaves[3], &vec![n[2], m1], 4, &root));
}

#[test]
fn swapped_parity_fails() {
    let a = id(1);
    let b = id(2);
    let root = h2(&h1(&a), &h1(&b));
    // The same sibling hash folded with the other parity gives another root:
    // the position is part of the commitment.
    assert!(!verify(&a, &vec![h1(&b)], 2, &root));
    assert!(!verify(&b, &vec![h1(&a)], 1, &root));
}

#[test]
fn swapped_sibling_order_fails() {
    let leaves = [id(1), id(2), id(3), id(4)];
    let n: Vec<[u8; 32]> = leaves.iter().map(h1).collect();
    let m1 = h2(&n[0], &n[1]);
    let m2 = h2(&n[2], &n[3]);
    let root = h2(&m1, &m2);
    // The correct sibling hashes in the wrong order do not reproduce the
    // root.
    assert!(!verify(&leaves[0], &vec![m2, n[1]], 1, &root));
}

#[test]
fn computed_root_differs_from_leaf_input() {
    // The recomputed root actually hashes: it never hands back the identity
    // or a sibling unchanged.
    let claimant = id(3);
    let sibling = h1(&id(4));
    let root = compute_root(&claimant, &vec![sibling], 1);
    assert_ne!(root, claimant);
    assert_ne!(root, sibling);
    assert_eq!(root, h2(&h1(&claimant), &sibling));
}
