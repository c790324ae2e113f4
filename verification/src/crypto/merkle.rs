//! Merkle tree over byte strings with domain-separated hashing and
//! inclusion proofs.
//!
//! Every input is first hashed as a leaf (`"leaf:"` tag); a parent is the hash
//! of its two children behind the `"node:"` tag. A level with an odd number of
//! nodes pairs its last node with itself.

use crate::bytes::{append_bytes, bytes_equal};
use crate::crypto::sha512::{sha512, sha512_collides, sha512_collision, sha512_digest};
use vstd::prelude::*;
use vstd::slice::slice_to_vec;

verus! {

#[derive(Debug, Clone)]
pub enum MerkleError {
    EmptyTree,
    InvalidProof,
    InvalidIndex,
}

impl MerkleError {
    /// The human-readable description of the error.
    pub fn message(&self) -> (text: String)
        ensures
            text@ == (match self {
                MerkleError::EmptyTree => "Cannot build Merkle tree from empty data"@,
                MerkleError::InvalidProof => "Invalid Merkle proof"@,
                MerkleError::InvalidIndex => "Invalid index for proof generation"@,
            }),
    {
        match self {
            MerkleError::EmptyTree => "Cannot build Merkle tree from empty data".to_owned(),
            MerkleError::InvalidProof => "Invalid Merkle proof".to_owned(),
            MerkleError::InvalidIndex => "Invalid index for proof generation".to_owned(),
        }
    }
}

/// The bytes of `"leaf:"`.
pub open spec fn leaf_tag() -> Seq<u8> {
    seq![108u8, 101u8, 97u8, 102u8, 58u8]
}

/// The bytes of `"node:"`.
pub open spec fn node_tag() -> Seq<u8> {
    seq![110u8, 111u8, 100u8, 101u8, 58u8]
}

/// The hash of a leaf's data.
pub open spec fn leaf_digest(data: Seq<u8>) -> Seq<u8> {
    sha512(leaf_tag() + data)@
}

/// The hash of an inner node from its two children.
pub open spec fn node_digest(left: Seq<u8>, right: Seq<u8>) -> Seq<u8> {
    sha512(node_tag() + left + right)@
}

/// The byte strings held by a vector of vectors.
pub open spec fn hashes(v: Seq<Vec<u8>>) -> Seq<Seq<u8>> {
    Seq::new(v.len(), |i: int| v[i]@)
}

/// The leaf hashes of a sequence of inputs.
pub open spec fn leaf_digests(data: Seq<Vec<u8>>) -> Seq<Seq<u8>> {
    Seq::new(data.len(), |i: int| leaf_digest(data[i]@))
}

/// The second child of the `i`-th pair of a level: the node itself where the
/// level ends on an unpaired node.
pub open spec fn right_child(level: Seq<Seq<u8>>, i: int) -> Seq<u8> {
    if 2 * i + 1 < level.len() {
        level[2 * i + 1]
    } else {
        level[2 * i]
    }
}

/// The level above `level`: adjacent nodes hashed in pairs.
pub open spec fn parent_level(level: Seq<Seq<u8>>) -> Seq<Seq<u8>> {
    Seq::new(
        ((level.len() + 1) / 2) as nat,
        |i: int| node_digest(level[2 * i], right_child(level, i)),
    )
}

/// The root of the tree over `level`. A single node is its own root.
pub open spec fn merkle_root(level: Seq<Seq<u8>>) -> Seq<u8>
    decreases level.len(),
{
    if level.len() <= 1 {
        level[0]
    } else {
        merkle_root(parent_level(level))
    }
}

/// The number of levels above the leaves.
pub open spec fn height(level: Seq<Seq<u8>>) -> nat
    decreases level.len(),
{
    if level.len() <= 1 {
        0
    } else {
        1 + height(parent_level(level))
    }
}

/// The `k`-th level of the tree, the leaves being level 0.
pub open spec fn nth_level(leaves: Seq<Seq<u8>>, k: nat) -> Seq<Seq<u8>>
    decreases k,
{
    if k == 0 {
        leaves
    } else {
        parent_level(nth_level(leaves, (k - 1) as nat))
    }
}

/// The position at level `k` of the ancestor of leaf `index`.
pub open spec fn ancestor(index: int, k: nat) -> int
    decreases k,
{
    if k == 0 {
        index
    } else {
        ancestor(index, (k - 1) as nat) / 2
    }
}

/// The node that is hashed together with node `i` of `level`.
pub open spec fn sibling(level: Seq<Seq<u8>>, i: int) -> Seq<u8> {
    if i % 2 == 0 {
        if i + 1 < level.len() {
            level[i + 1]
        } else {
            level[i]
        }
    } else {
        level[i - 1]
    }
}

/// On which side the sibling of node `i` stands: 1 for the right, 0 for the
/// left. An unpaired node counts as its own left sibling.
pub open spec fn sibling_side(level: Seq<Seq<u8>>, i: int) -> usize {
    if i % 2 == 0 && i + 1 < level.len() {
        1
    } else {
        0
    }
}

/// The sibling hashes on the way from leaf `index` to the root.
pub open spec fn path_hashes(leaves: Seq<Seq<u8>>, index: int) -> Seq<Seq<u8>> {
    Seq::new(height(leaves), |k: int| sibling(nth_level(leaves, k as nat), ancestor(index, k as nat)))
}

/// The sides of the siblings on the way from leaf `index` to the root.
pub open spec fn path_sides(leaves: Seq<Seq<u8>>, index: int) -> Seq<usize> {
    Seq::new(
        height(leaves),
        |k: int| sibling_side(nth_level(leaves, k as nat), ancestor(index, k as nat)),
    )
}

/// One step towards the root: the parent of `current` and its sibling.
pub open spec fn climb(current: Seq<u8>, sibling: Seq<u8>, side: usize) -> Seq<u8> {
    if side == 0 {
        node_digest(sibling, current)
    } else {
        node_digest(current, sibling)
    }
}

/// The hash reached from `leaf` by climbing past `siblings` in order;
/// `sides[k]` is the side of `siblings[k]`.
pub open spec fn fold_path(leaf: Seq<u8>, siblings: Seq<Seq<u8>>, sides: Seq<usize>) -> Seq<u8>
    decreases siblings.len(),
{
    if siblings.len() == 0 {
        leaf
    } else {
        climb(
            fold_path(leaf, siblings.drop_last(), sides),
            siblings.last(),
            sides[siblings.len() - 1],
        )
    }
}

/// A level above the leaves that still exists is never empty, and its height
/// is what is left of the tree's.
pub proof fn lemma_level_height(leaves: Seq<Seq<u8>>, k: nat)
    requires
        leaves.len() >= 1,
        k <= height(leaves),
    ensures
        nth_level(leaves, k).len() >= 1,
        height(nth_level(leaves, k)) + k == height(leaves),
        k < height(leaves) ==> nth_level(leaves, k).len() >= 2,
        k == height(leaves) ==> nth_level(leaves, k).len() == 1,
        merkle_root(nth_level(leaves, k)) == merkle_root(leaves),
    decreases k,
{
    if k > 0 {
        lemma_level_height(leaves, (k - 1) as nat);
    }
}

/// The ancestor of a leaf lies inside its level.
pub proof fn lemma_ancestor_in_level(leaves: Seq<Seq<u8>>, index: int, k: nat)
    requires
        0 <= index < leaves.len(),
        k <= height(leaves),
    ensures
        0 <= ancestor(index, k) < nth_level(leaves, k).len(),
    decreases k,
{
    if k > 0 {
        lemma_ancestor_in_level(leaves, index, (k - 1) as nat);
        lemma_level_height(leaves, (k - 1) as nat);
    }
}

/// Climbing the first `k` steps of a leaf's path arrives at its ancestor on
/// level `k`.
pub proof fn lemma_path_reaches_ancestor(leaves: Seq<Seq<u8>>, index: int, k: nat)
    requires
        0 <= index < leaves.len(),
        k <= height(leaves),
    ensures
        fold_path(leaves[index], path_hashes(leaves, index).take(k as int), path_sides(leaves, index))
            == nth_level(leaves, k)[ancestor(index, k)],
    decreases k,
{
    let hs = path_hashes(leaves, index);
    let ss = path_sides(leaves, index);
    if k > 0 {
        let j = (k - 1) as nat;
        lemma_path_reaches_ancestor(leaves, index, j);
        lemma_ancestor_in_level(leaves, index, j);
        lemma_level_height(leaves, j);
        let level = nth_level(leaves, j);
        let i = ancestor(index, j);
        assert(hs.take(k as int).drop_last() =~= hs.take(j as int));
        assert(hs.take(k as int).last() == sibling(level, i));
        assert(ss[k - 1] == sibling_side(level, i));
        assert(ancestor(index, k) == i / 2);
        assert(nth_level(leaves, k) == parent_level(level));
        assert(parent_level(level)[i / 2] == node_digest(level[2 * (i / 2)], right_child(level, i / 2)));
    }
}

/// Every inclusion path of a tree leads from its leaf to the root.
pub proof fn lemma_path_leads_to_root(leaves: Seq<Seq<u8>>, index: int)
    requires
        0 <= index < leaves.len(),
    ensures
        fold_path(leaves[index], path_hashes(leaves, index), path_sides(leaves, index))
            == merkle_root(leaves),
{
    let h = height(leaves);
    lemma_path_reaches_ancestor(leaves, index, h);
    lemma_ancestor_in_level(leaves, index, h);
    lemma_level_height(leaves, h);
    assert(path_hashes(leaves, index).take(h as int) =~= path_hashes(leaves, index));
}

/// An inclusion proof: the leaf's hash, the sibling hashes from the leaf
/// upwards and, for each, its side (0 left, anything else right).
#[derive(Debug, Clone)]
pub struct MerkleProof {
    pub leaf_hash: Vec<u8>,
    pub proof_hashes: Vec<Vec<u8>>,
    pub proof_indices: Vec<usize>,
}

impl MerkleProof {
    /// Whether climbing from the leaf hash past the siblings arrives at `root`.
    pub open spec fn leads_to(&self, root: Seq<u8>) -> bool {
        &&& self.proof_indices@.len() >= self.proof_hashes@.len()
        &&& fold_path(self.leaf_hash@, hashes(self.proof_hashes@), self.proof_indices@) == root
    }
}

#[derive(Debug)]
pub struct MerkleTree {
    leaves: Vec<Vec<u8>>,
    levels: Vec<Vec<Vec<u8>>>,
    root: Vec<u8>,
}

fn copy_level(level: &Vec<Vec<u8>>) -> (copy: Vec<Vec<u8>>)
    ensures
        hashes(copy@) == hashes(level@),
{
    let mut copy: Vec<Vec<u8>> = Vec::new();
    let mut i: usize = 0;
    while i < level.len()
        invariant
            i <= level.len(),
            copy.len() == i,
            forall|j: int| 0 <= j < i ==> copy@[j]@ == level@[j]@,
        decreases level.len() - i,
    {
        copy.push(level[i].clone());
        i += 1;
    }
    assert(hashes(copy@) =~= hashes(level@));
    copy
}

impl MerkleTree {
    #[verifier::type_invariant]
    spec fn inv(self) -> bool {
        let base = hashes(self.leaves@);
        &&& base.len() >= 1
        &&& self.levels@.len() == height(base) + 1
        &&& forall|k: int|
            0 <= k < self.levels@.len() ==> hashes(#[trigger] self.levels@[k]@) == nth_level(
                base,
                k as nat,
            )
        &&& self.root@ == merkle_root(base)
    }

    /// The leaf hashes, in the order of the inputs.
    pub closed spec fn leaf_hashes(&self) -> Seq<Seq<u8>> {
        hashes(self.leaves@)
    }

    /// The stored root.
    pub closed spec fn root_hash(&self) -> Seq<u8> {
        self.root@
    }

    fn hash_leaf(data: &[u8]) -> (digest: Vec<u8>)
        ensures
            digest@ == leaf_digest(data@),
    {
        let mut buf: Vec<u8> = Vec::new();
        buf.push(108u8);
        buf.push(101u8);
        buf.push(97u8);
        buf.push(102u8);
        buf.push(58u8);
        assert(buf@ =~= leaf_tag());
        append_bytes(&mut buf, data);
        let digest = sha512_digest(buf.as_slice());
        slice_to_vec(digest.as_slice())
    }

    fn hash_nodes(left: &[u8], right: &[u8]) -> (digest: Vec<u8>)
        ensures
            digest@ == node_digest(left@, right@),
    {
        let mut buf: Vec<u8> = Vec::new();
        buf.push(110u8);
        buf.push(111u8);
        buf.push(100u8);
        buf.push(101u8);
        buf.push(58u8);
        assert(buf@ =~= node_tag());
        append_bytes(&mut buf, left);
        append_bytes(&mut buf, right);
        let digest = sha512_digest(buf.as_slice());
        slice_to_vec(digest.as_slice())
    }

    fn pair_up(level: &Vec<Vec<u8>>) -> (next: Vec<Vec<u8>>)
        ensures
            hashes(next@) == parent_level(hashes(level@)),
    {
        let n = level.len();
        let ghost below = hashes(level@);
        let mut next: Vec<Vec<u8>> = Vec::new();
        let mut i: usize = 0;
        while i < n
            invariant
                n == level.len(),
                below == hashes(level@),
                i <= n,
                i % 2 == 0 || i == n,
                next.len() == (i + 1) / 2,
                forall|j: int|
                    0 <= j < next.len() ==> next@[j]@ == node_digest(
                        below[2 * j],
                        right_child(below, j),
                    ),
            decreases n - i,
        {
            if n - i >= 2 {
                next.push(Self::hash_nodes(level[i].as_slice(), level[i + 1].as_slice()));
                i = i + 2;
            } else {
                next.push(Self::hash_nodes(level[i].as_slice(), level[i].as_slice()));
                i = i + 1;
            }
        }
        assert(hashes(next@) =~= parent_level(below));
        next
    }

    /// Builds the tree over the hashes of `data`.
    pub fn new(data: &[Vec<u8>]) -> (res: Result<MerkleTree, MerkleError>)
        ensures
            res is Err <==> data@.len() == 0,
            res matches Err(e) ==> e is EmptyTree,
            res matches Ok(tree) ==> {
                &&& tree.leaf_hashes() == leaf_digests(data@)
                &&& tree.root_hash() == merkle_root(leaf_digests(data@))
            },
    {
        if data.len() == 0 {
            return Err(MerkleError::EmptyTree);
        }
        let mut leaves: Vec<Vec<u8>> = Vec::new();
        let mut i: usize = 0;
        while i < data.len()
            invariant
                i <= data.len(),
                leaves.len() == i,
                forall|j: int| 0 <= j < i ==> leaves@[j]@ == leaf_digest(data@[j]@),
            decreases data.len() - i,
        {
            leaves.push(Self::hash_leaf(data[i].as_slice()));
            i += 1;
        }
        let ghost base = hashes(leaves@);
        assert(base =~= leaf_digests(data@));

        let mut levels: Vec<Vec<Vec<u8>>> = Vec::new();
        levels.push(copy_level(&leaves));
        let mut current = copy_level(&leaves);
        while current.len() > 1
            invariant
                base == hashes(leaves@),
                base.len() >= 1,
                levels.len() >= 1,
                current.len() >= 1,
                hashes(current@) == nth_level(base, (levels.len() - 1) as nat),
                forall|k: int|
                    0 <= k < levels.len() ==> hashes(#[trigger] levels@[k]@) == nth_level(
                        base,
                        k as nat,
                    ),
                height(base) == levels.len() - 1 + height(hashes(current@)),
                merkle_root(base) == merkle_root(hashes(current@)),
            decreases current.len(),
        {
            let next = Self::pair_up(&current);
            assert(next@.len() == hashes(next@).len());
            assert(current@.len() == hashes(current@).len());
            levels.push(copy_level(&next));
            current = next;
        }
        let root = current[0].clone();
        Ok(MerkleTree { leaves, levels, root })
    }

    /// The root of the tree.
    pub fn root(&self) -> (root: &[u8])
        ensures
            root@ == self.root_hash(),
            self.root_hash() == merkle_root(self.leaf_hashes()),
    {
        proof {
            use_type_invariant(self);
        }
        self.root.as_slice()
    }

    /// The leaf hashes, in the order of the inputs.
    pub fn leaves(&self) -> (leaves: &[Vec<u8>])
        ensures
            hashes(leaves@) == self.leaf_hashes(),
            leaves@.len() >= 1,
    {
        proof {
            use_type_invariant(self);
        }
        self.leaves.as_slice()
    }

    /// The inclusion proof of the leaf at `index`.
    pub fn generate_proof(&self, index: usize) -> (res: Result<MerkleProof, MerkleError>)
        ensures
            res is Err <==> index >= self.leaf_hashes().len(),
            res matches Err(e) ==> e is InvalidIndex,
            res matches Ok(proof) ==> {
                &&& proof.leaf_hash@ == self.leaf_hashes()[index as int]
                &&& hashes(proof.proof_hashes@) == path_hashes(self.leaf_hashes(), index as int)
                &&& proof.proof_indices@ == path_sides(self.leaf_hashes(), index as int)
                &&& proof.leads_to(self.root_hash())
            },
    {
        proof {
            use_type_invariant(self);
        }
        if index >= self.leaves.len() {
            return Err(MerkleError::InvalidIndex);
        }
        let ghost base = hashes(self.leaves@);
        let leaf_hash = self.leaves[index].clone();
        let mut proof_hashes: Vec<Vec<u8>> = Vec::new();
        let mut proof_indices: Vec<usize> = Vec::new();
        let mut current_index = index;
        let top = self.levels.len() - 1;
        let mut level: usize = 0;
        while level < top
            invariant
                base == hashes(self.leaves@),
                base.len() >= 1,
                0 <= index < base.len(),
                top == height(base),
                self.levels@.len() == top + 1,
                forall|k: int|
                    0 <= k < self.levels@.len() ==> hashes(#[trigger] self.levels@[k]@)
                        == nth_level(base, k as nat),
                level <= top,
                current_index == ancestor(index as int, level as nat),
                proof_hashes.len() == level,
                proof_indices.len() == level,
                forall|k: int|
                    0 <= k < level ==> proof_hashes@[k]@ == path_hashes(base, index as int)[k],
                forall|k: int|
                    0 <= k < level ==> proof_indices@[k] == path_sides(base, index as int)[k],
            decreases top - level,
        {
            let current_level = &self.levels[level];
            proof {
                lemma_ancestor_in_level(base, index as int, level as nat);
                assert(hashes(self.levels@[level as int]@) == nth_level(base, level as nat));
                assert(current_level@.len() == nth_level(base, level as nat).len());
                assert(forall|j: int|
                    0 <= j < current_level@.len() ==> current_level@[j]@ == hashes(
                        current_level@,
                    )[j]);
            }
            if current_index % 2 == 0 {
                if current_index + 1 < current_level.len() {
                    proof_hashes.push(current_level[current_index + 1].clone());
                    proof_indices.push(1);
                } else {
                    proof_hashes.push(current_level[current_index].clone());
                    proof_indices.push(0);
                }
            } else {
                proof_hashes.push(current_level[current_index - 1].clone());
                proof_indices.push(0);
            }
            current_index = current_index / 2;
            level += 1;
        }
        let proof = MerkleProof { leaf_hash, proof_hashes, proof_indices };
        proof {
            assert(hashes(proof.proof_hashes@) =~= path_hashes(base, index as int));
            assert(proof.proof_indices@ =~= path_sides(base, index as int));
            lemma_path_leads_to_root(base, index as int);
        }
        Ok(proof)
    }

    /// Whether `proof` leads from its leaf hash to `root`.
    pub fn verify_proof(proof: &MerkleProof, root: &[u8]) -> (ok: bool)
        ensures
            ok == proof.leads_to(root@),
    {
        if proof.proof_indices.len() < proof.proof_hashes.len() {
            return false;
        }
        let ghost siblings = hashes(proof.proof_hashes@);
        let mut current_hash = proof.leaf_hash.clone();
        let mut i: usize = 0;
        while i < proof.proof_hashes.len()
            invariant
                i <= proof.proof_hashes.len(),
                proof.proof_indices.len() >= proof.proof_hashes.len(),
                siblings == hashes(proof.proof_hashes@),
                current_hash@ == fold_path(
                    proof.leaf_hash@,
                    siblings.take(i as int),
                    proof.proof_indices@,
                ),
            decreases proof.proof_hashes.len() - i,
        {
            let sibling_hash = &proof.proof_hashes[i];
            let sibling_index = proof.proof_indices[i];
            proof {
                assert(siblings.take(i + 1).drop_last() =~= siblings.take(i as int));
                assert(siblings.take(i + 1).last() == sibling_hash@);
            }
            current_hash =
            if sibling_index == 0 {
                Self::hash_nodes(sibling_hash.as_slice(), current_hash.as_slice())
            } else {
                Self::hash_nodes(current_hash.as_slice(), sibling_hash.as_slice())
            };
            i += 1;
        }
        assert(siblings.take(i as int) =~= siblings);
        bytes_equal(current_hash.as_slice(), root)
    }

    /// Whether `leaf_data` is the input behind the leaf at `index`.
    pub fn verify_leaf(&self, leaf_data: &[u8], index: usize) -> (ok: bool)
        ensures
            ok == (index < self.leaf_hashes().len() && leaf_digest(leaf_data@)
                == self.leaf_hashes()[index as int]),
    {
        let leaf_hash = Self::hash_leaf(leaf_data);
        match self.generate_proof(index) {
            Ok(proof) => {
                bytes_equal(leaf_hash.as_slice(), proof.leaf_hash.as_slice())
                    && Self::verify_proof(&proof, self.root.as_slice())
            },
            Err(_) => false,
        }
    }
}

/// Two pairs of children with the same parent are the same pair, where the
/// left children have the same length, unless SHA-512 collides.
pub proof fn lemma_parent_binds_children(
    left: Seq<u8>,
    right: Seq<u8>,
    other_left: Seq<u8>,
    other_right: Seq<u8>,
)
    requires
        left.len() == other_left.len(),
        node_digest(left, right) == node_digest(other_left, other_right),
    ensures
        (left == other_left && right == other_right) || sha512_collides(),
{
    let p = node_tag() + left + right;
    let q = node_tag() + other_left + other_right;
    if p == q {
        assert(p.len() == q.len());
        assert(left =~= p.subrange(5, 5 + left.len() as int));
        assert(other_left =~= q.subrange(5, 5 + other_left.len() as int));
        assert(right =~= p.subrange(5 + left.len() as int, p.len() as int));
        assert(other_right =~= q.subrange(5 + other_left.len() as int, q.len() as int));
    } else {
        assert(sha512_collision(p, q));
    }
}

/// The root binds the leaves: two sequences of as many leaves, leaf by leaf
/// of the same length, that have the same root are the same sequence, unless
/// SHA-512 collides. So the root depends on every leaf and on their order.
pub proof fn lemma_root_binds_leaves(leaves: Seq<Seq<u8>>, others: Seq<Seq<u8>>)
    requires
        leaves.len() >= 1,
        leaves.len() == others.len(),
        forall|i: int| 0 <= i < leaves.len() ==> leaves[i].len() == others[i].len(),
        merkle_root(leaves) == merkle_root(others),
    ensures
        leaves == others || sha512_collides(),
    decreases leaves.len(),
{
    if leaves.len() == 1 {
        assert(leaves =~= others);
    } else {
        let above = parent_level(leaves);
        let other_above = parent_level(others);
        lemma_root_binds_leaves(above, other_above);
        if !sha512_collides() {
            assert forall|i: int| 0 <= i < leaves.len() implies leaves[i] == others[i] by {
                let j = i / 2;
                assert(above[j] == other_above[j]);
                lemma_parent_binds_children(
                    leaves[2 * j],
                    right_child(leaves, j),
                    others[2 * j],
                    right_child(others, j),
                );
            }
            assert(leaves =~= others);
        }
    }
}

/// Trees over different inputs have different roots: two sequences of as
/// many inputs whose trees have the same root are the same, unless SHA-512
/// collides.
pub proof fn lemma_root_binds_inputs(data: Seq<Vec<u8>>, other: Seq<Vec<u8>>)
    requires
        data.len() >= 1,
        data.len() == other.len(),
        merkle_root(leaf_digests(data)) == merkle_root(leaf_digests(other)),
    ensures
        hashes(data) == hashes(other) || sha512_collides(),
{
    lemma_root_binds_leaves(leaf_digests(data), leaf_digests(other));
    if !sha512_collides() {
        assert forall|i: int| 0 <= i < data.len() implies data[i]@ == other[i]@ by {
            assert(leaf_digests(data)[i] == leaf_digests(other)[i]);
            let p = leaf_tag() + data[i]@;
            let q = leaf_tag() + other[i]@;
            assert(!sha512_collision(p, q));
            assert(data[i]@ =~= p.subrange(5, p.len() as int));
            assert(other[i]@ =~= q.subrange(5, q.len() as int));
        }
        assert(hashes(data) =~= hashes(other));
    }
}

/// A changed proof fails: two lists of siblings of the same lengths, entry
/// by entry, that are not the same list lead from the same leaf by the same
/// sides to different hashes, unless SHA-512 collides. So a proof in which a
/// byte of an entry was changed no longer leads to the root.
pub proof fn lemma_changed_proof_fails(
    leaf: Seq<u8>,
    siblings: Seq<Seq<u8>>,
    changed: Seq<Seq<u8>>,
    sides: Seq<usize>,
)
    requires
        siblings.len() == changed.len(),
        forall|k: int| 0 <= k < siblings.len() ==> siblings[k].len() == changed[k].len(),
        siblings != changed,
    ensures
        fold_path(leaf, siblings, sides) != fold_path(leaf, changed, sides) || sha512_collides(),
    decreases siblings.len(),
{
    if siblings.len() == 0 {
        assert(siblings =~= changed);
    } else if !sha512_collides() {
        let a = fold_path(leaf, siblings.drop_last(), sides);
        let b = fold_path(leaf, changed.drop_last(), sides);
        let side = sides[siblings.len() - 1];
        let x = siblings.last();
        let y = changed.last();
        if siblings.drop_last() != changed.drop_last() {
            lemma_changed_proof_fails(leaf, siblings.drop_last(), changed.drop_last(), sides);
        } else {
            assert(x != y) by {
                if x == y {
                    assert(siblings =~= siblings.drop_last().push(x));
                    assert(changed =~= changed.drop_last().push(y));
                }
            }
        }
        assert(a.len() == b.len());
        if fold_path(leaf, siblings, sides) == fold_path(leaf, changed, sides) {
            if side == 0 {
                lemma_parent_binds_children(x, a, y, b);
            } else {
                lemma_parent_binds_children(a, x, b, y);
            }
        }
    }
}

/// A changed leaf hash fails too: from two leaf hashes of the same length
/// the same siblings lead to different hashes, unless SHA-512 collides.
pub proof fn lemma_changed_leaf_fails(
    leaf: Seq<u8>,
    changed: Seq<u8>,
    siblings: Seq<Seq<u8>>,
    sides: Seq<usize>,
)
    requires
        leaf.len() == changed.len(),
        leaf != changed,
    ensures
        fold_path(leaf, siblings, sides) != fold_path(changed, siblings, sides)
            || sha512_collides(),
    decreases siblings.len(),
{
    if siblings.len() > 0 && !sha512_collides() {
        let a = fold_path(leaf, siblings.drop_last(), sides);
        let b = fold_path(changed, siblings.drop_last(), sides);
        lemma_changed_leaf_fails(leaf, changed, siblings.drop_last(), sides);
        assert(a.len() == b.len());
        if fold_path(leaf, siblings, sides) == fold_path(changed, siblings, sides) {
            if sides[siblings.len() - 1] == 0 {
                lemma_parent_binds_children(siblings.last(), a, siblings.last(), b);
            } else {
                lemma_parent_binds_children(a, siblings.last(), b, siblings.last());
            }
        }
    }
}

} // verus!
