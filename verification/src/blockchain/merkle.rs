//! Merkle root over 64-byte leaf hashes.
//!
//! A parent is the SHA-512 of its two children, left then right. A level with
//! an odd number of nodes pairs its last node with itself. A single leaf is
//! its own root.

use crate::bytes::append_bytes;
use crate::crypto::sha512::{sha512, sha512_collides, sha512_collision, sha512_digest};
use vstd::prelude::*;

verus! {

#[derive(Debug)]
pub enum MerkleError {
    Empty,
}

impl MerkleError {
    /// The human-readable description of the error.
    pub fn message(&self) -> (text: String)
        ensures
            text@ == "merkle tree requires at least one leaf"@,
    {
        "merkle tree requires at least one leaf".to_owned()
    }
}

/// The byte strings of a sequence of 64-byte leaves.
pub open spec fn leaf_views(leaves: Seq<[u8; 64]>) -> Seq<Seq<u8>> {
    Seq::new(leaves.len(), |i: int| leaves[i]@)
}

/// The hash of two children.
pub open spec fn pair_digest(left: Seq<u8>, right: Seq<u8>) -> Seq<u8> {
    sha512(left + right)@
}

/// The second child of the `i`-th pair of a level: the node itself where the
/// level ends on an unpaired node.
pub open spec fn plain_right_child(level: Seq<Seq<u8>>, i: int) -> Seq<u8> {
    if 2 * i + 1 < level.len() {
        level[2 * i + 1]
    } else {
        level[2 * i]
    }
}

/// The level above `level`.
pub open spec fn plain_parent_level(level: Seq<Seq<u8>>) -> Seq<Seq<u8>> {
    Seq::new(
        ((level.len() + 1) / 2) as nat,
        |i: int| pair_digest(level[2 * i], plain_right_child(level, i)),
    )
}

/// The root over `level`.
pub open spec fn plain_merkle_root(level: Seq<Seq<u8>>) -> Seq<u8>
    decreases level.len(),
{
    if level.len() <= 1 {
        level[0]
    } else {
        plain_merkle_root(plain_parent_level(level))
    }
}

pub struct MerkleTree {
    root: [u8; 64],
}

impl MerkleTree {
    /// The stored root.
    pub closed spec fn root_hash(&self) -> Seq<u8> {
        self.root@
    }

    fn hash_pair(left: &[u8; 64], right: &[u8; 64]) -> (parent: [u8; 64])
        ensures
            parent@ == pair_digest(left@, right@),
    {
        let mut buf: Vec<u8> = Vec::new();
        append_bytes(&mut buf, left.as_slice());
        append_bytes(&mut buf, right.as_slice());
        assert(buf@ =~= left@ + right@);
        sha512_digest(buf.as_slice())
    }

    fn pair_up(level: &Vec<[u8; 64]>) -> (next: Vec<[u8; 64]>)
        ensures
            leaf_views(next@) == plain_parent_level(leaf_views(level@)),
    {
        let n: usize = level.len();
        let ghost below = leaf_views(level@);
        let mut next: Vec<[u8; 64]> = Vec::new();
        let mut i: usize = 0;
        while i < n
            invariant
                n == level.len(),
                below == leaf_views(level@),
                i <= n,
                i % 2 == 0 || i == n,
                next.len() == (i + 1) / 2,
                forall|j: int|
                    0 <= j < next.len() ==> next@[j]@ == pair_digest(
                        below[2 * j],
                        plain_right_child(below, j),
                    ),
            decreases n - i,
        {
            if n - i >= 2 {
                next.push(Self::hash_pair(&level[i], &level[i + 1]));
                i = i + 2;
            } else {
                next.push(Self::hash_pair(&level[i], &level[i]));
                i = i + 1;
            }
        }
        assert(leaf_views(next@) =~= plain_parent_level(below));
        next
    }

    /// Builds the tree over hashed leaves.
    pub fn new(leaves: &[[u8; 64]]) -> (res: Result<Self, MerkleError>)
        ensures
            res is Err <==> leaves@.len() == 0,
            res matches Ok(tree) ==> tree.root_hash() == plain_merkle_root(leaf_views(leaves@)),
    {
        if leaves.len() == 0 {
            return Err(MerkleError::Empty);
        }
        let mut level: Vec<[u8; 64]> = Vec::new();
        let mut i: usize = 0;
        while i < leaves.len()
            invariant
                i <= leaves.len(),
                level.len() == i,
                forall|j: int| 0 <= j < i ==> level@[j] == leaves@[j],
            decreases leaves.len() - i,
        {
            level.push(leaves[i]);
            i += 1;
        }
        assert(leaf_views(level@) =~= leaf_views(leaves@));
        while level.len() > 1
            invariant
                level.len() >= 1,
                plain_merkle_root(leaf_views(level@)) == plain_merkle_root(leaf_views(leaves@)),
            decreases level.len(),
        {
            let next = Self::pair_up(&level);
            assert(next@.len() == leaf_views(next@).len());
            assert(level@.len() == leaf_views(level@).len());
            level = next;
        }
        assert(level@.len() == leaf_views(level@).len());
        Ok(MerkleTree { root: level[0] })
    }

    /// Returns the Merkle root.
    pub fn root(&self) -> (root: [u8; 64])
        ensures
            root@ == self.root_hash(),
    {
        self.root
    }
}

/// The root binds the leaves: two sequences of as many 64-byte leaves that
/// have the same root are the same sequence, unless SHA-512 collides. So the
/// root depends on every leaf and on their order.
pub proof fn lemma_root_binds_leaves(leaves: Seq<Seq<u8>>, others: Seq<Seq<u8>>)
    requires
        leaves.len() >= 1,
        leaves.len() == others.len(),
        forall|i: int| 0 <= i < leaves.len() ==> leaves[i].len() == 64 && others[i].len() == 64,
        plain_merkle_root(leaves) == plain_merkle_root(others),
    ensures
        leaves == others || sha512_collides(),
    decreases leaves.len(),
{
    if leaves.len() == 1 {
        assert(leaves =~= others);
    } else {
        let above = plain_parent_level(leaves);
        let other_above = plain_parent_level(others);
        lemma_root_binds_leaves(above, other_above);
        if !sha512_collides() {
            assert forall|i: int| 0 <= i < leaves.len() implies leaves[i] == others[i] by {
                let j = i / 2;
                assert(above[j] == other_above[j]);
                let p = leaves[2 * j] + plain_right_child(leaves, j);
                let q = others[2 * j] + plain_right_child(others, j);
                assert(!sha512_collision(p, q));
                assert(leaves[2 * j] =~= p.subrange(0, 64));
                assert(others[2 * j] =~= q.subrange(0, 64));
                assert(plain_right_child(leaves, j) =~= p.subrange(64, 128));
                assert(plain_right_child(others, j) =~= q.subrange(64, 128));
            }
            assert(leaves =~= others);
        }
    }
}

} // verus!
