//! Merkle inclusion-proof verification.
//!
//! A committed root authorizes a set of claimants without storing them: a
//! claimant presents the ordered sibling hashes from their leaf up to the
//! root, together with the leaf's 1-based position in its level. The
//! verifier recomputes the root and compares it to the committed one.
//!
//! Levels are 1-indexed: nodes 1 and 2 share parent 1, nodes 3 and 4 share
//! parent 2, and so on, so the parent of node `i` is `i % 2 + i / 2`. An odd
//! index is a left child (the running hash is placed before the sibling), an
//! even index a right child. The position is part of the commitment: the
//! same sibling hashes folded with another parity give another root.

use vstd::prelude::*;

use crate::hashing::{sha256_of, sha256_pair, sha256_single};

verus! {

/// The hash standing at a claimant's leaf: the digest of the 32-byte
/// identity.
pub open spec fn leaf_hash(identity: Seq<u8>) -> Seq<u8> {
    sha256_of(identity)
}

/// One step up the tree: a node at an even index is a right child, so the
/// sibling's hash is placed first; at an odd index the running hash is
/// placed first.
pub open spec fn combine(current: Seq<u8>, sibling: Seq<u8>, pos: int) -> Seq<u8> {
    if pos % 2 == 0 {
        sha256_of(sibling + current)
    } else {
        sha256_of(current + sibling)
    }
}

/// The 1-indexed position of the parent of the node at `pos`.
pub open spec fn parent_index(pos: int) -> int {
    pos % 2 + pos / 2
}

/// The root reached from the hash `current` standing at `pos` by folding the
/// sibling hashes in order.
pub open spec fn root_from(current: Seq<u8>, pos: int, path: Seq<Seq<u8>>) -> Seq<u8>
    decreases path.len(),
{
    if path.len() == 0 {
        current
    } else {
        root_from(combine(current, path[0], pos), parent_index(pos), path.skip(1))
    }
}

/// The root that a conforming tree construction commits for the identity
/// standing at position `pos` with the given sibling path. This is the model
/// of the off-chain construction routine: verification succeeds exactly for
/// this value, so any proof produced by a conforming construction
/// round-trips.
pub open spec fn merkle_root_of(identity: Seq<u8>, pos: int, path: Seq<Seq<u8>>) -> Seq<u8> {
    root_from(leaf_hash(identity), pos, path)
}

/// The byte sequences held by a vector of 32-byte hashes.
pub open spec fn path_view(nodes: Seq<[u8; 32]>) -> Seq<Seq<u8>> {
    nodes.map(|i: int, n: [u8; 32]| n@)
}

/// Compare two 32-byte values.
pub fn eq_bytes32(a: &[u8; 32], b: &[u8; 32]) -> (r: bool)
    ensures
        r == (a@ == b@),
{
    let mut i: usize = 0;
    while i < 32
        invariant
            i <= 32,
            forall|j: int| 0 <= j < i ==> a@[j] == b@[j],
        decreases 32 - i,
    {
        if a[i] != b[i] {
            return false;
        }
        i = i + 1;
    }
    proof {
        assert(a@ =~= b@);
    }
    true
}

/// Recompute the root committed for `identity` standing at position `start`
/// with the sibling path `nodes`.
pub fn compute_root(identity: &[u8; 32], nodes: &Vec<[u8; 32]>, start: u8) -> (r: [u8; 32])
    ensures
        r@ == merkle_root_of(identity@, start as int, path_view(nodes@)),
{
    let mut current: [u8; 32] = sha256_single(identity);
    let mut pos: u8 = start;
    let mut i: usize = 0;
    proof {
        assert(path_view(nodes@).skip(0) =~= path_view(nodes@));
    }
    while i < nodes.len()
        invariant
            i <= nodes@.len(),
            root_from(current@, pos as int, path_view(nodes@).skip(i as int))
                == merkle_root_of(identity@, start as int, path_view(nodes@)),
        decreases nodes@.len() - i,
    {
        proof {
            assert(path_view(nodes@).skip(i as int).skip(1)
                =~= path_view(nodes@).skip(i as int + 1));
            assert(path_view(nodes@).skip(i as int)[0] == nodes@[i as int]@);
        }
        let node = &nodes[i];
        if pos % 2 == 0 {
            current = sha256_pair(node, &current);
        } else {
            current = sha256_pair(&current, node);
        }
        pos = pos % 2 + pos / 2;
        i = i + 1;
    }
    proof {
        assert(path_view(nodes@).skip(nodes@.len() as int) =~= Seq::<Seq<u8>>::empty());
    }
    current
}

/// Decide whether `identity` standing at position `start` with the sibling
/// path `nodes` is a member of the tree committed by `expected_root`: the
/// recomputed root must equal the committed one.
pub fn verify(
    identity: &[u8; 32],
    nodes: &Vec<[u8; 32]>,
    start: u8,
    expected_root: &[u8; 32],
) -> (r: bool)
    ensures
        r == (merkle_root_of(identity@, start as int, path_view(nodes@)) == expected_root@),
{
    let computed = compute_root(identity, nodes, start);
    eq_bytes32(&computed, expected_root)
}

} // verus!
