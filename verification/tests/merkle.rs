use btpc_quantum_resistant_chain::blockchain::merkle::MerkleTree as HashTree;
use btpc_quantum_resistant_chain::crypto::merkle::{MerkleError, MerkleProof, MerkleTree};
use sha2::{Digest, Sha512};

fn h(b: &[u8]) -> [u8; 64] {
    let x = Sha512::digest(b);
    let mut out = [0u8; 64];
    out.copy_from_slice(&x);
    out
}

fn pair(left: &[u8; 64], right: &[u8; 64]) -> [u8; 64] {
    let mut buf = [0u8; 128];
    buf[..64].copy_from_slice(left);
    buf[64..].copy_from_slice(right);
    h(&buf)
}

fn leaf(data: &[u8]) -> Vec<u8> {
    let mut hasher = Sha512::new();
    hasher.update(b"leaf:");
    hasher.update(data);
    hasher.finalize().to_vec()
}

fn node(left: &[u8], right: &[u8]) -> Vec<u8> {
    let mut hasher = Sha512::new();
    hasher.update(b"node:");
    hasher.update(left);
    hasher.update(right);
    hasher.finalize().to_vec()
}

fn sample() -> Vec<Vec<u8>> {
    vec![b"data1".to_vec(), b"data2".to_vec(), b"data3".to_vec()]
}

#[test]
fn test_merkle_tree_creation() {
    let data = vec![b"data1".to_vec(), b"data2".to_vec(), b"data3".to_vec()];

    let tree = MerkleTree::new(&data).unwrap();
    assert!(!tree.root().is_empty());
    assert_eq!(tree.leaves().len(), 3);
}

#[test]
fn test_merkle_proof_verification() {
    let data = vec![b"data1".to_vec(), b"data2".to_vec(), b"data3".to_vec()];

    let tree = MerkleTree::new(&data).unwrap();
    let proof = tree.generate_proof(0).unwrap();

    assert!(MerkleTree::verify_proof(&proof, tree.root()));
}

#[test]
fn test_merkle_leaf_verification() {
    let data = vec![b"data1".to_vec(), b"data2".to_vec(), b"data3".to_vec()];

    let tree = MerkleTree::new(&data).unwrap();
    assert!(tree.verify_leaf(b"data1", 0));
    assert!(!tree.verify_leaf(b"wrong_data", 0));
}

#[test]
fn test_empty_tree_error() {
    let data: Vec<Vec<u8>> = vec![];
    let result = MerkleTree::new(&data);
    assert!(result.is_err());
}

#[test]
fn empty_tree_is_the_empty_tree_error() {
    let data: Vec<Vec<u8>> = vec![];
    assert!(matches!(MerkleTree::new(&data), Err(MerkleError::EmptyTree)));
}

#[test]
fn tagged_root_of_three_leaves() {
    let tree = MerkleTree::new(&sample()).unwrap();
    let l1 = leaf(b"data1");
    let l2 = leaf(b"data2");
    let l3 = leaf(b"data3");
    assert_eq!(tree.leaves()[0], l1);
    assert_eq!(tree.leaves()[2], l3);
    let expected = node(&node(&l1, &l2), &node(&l3, &l3));
    assert_eq!(tree.root(), &expected[..]);
}

#[test]
fn single_input_root_is_its_leaf_hash() {
    let tree = MerkleTree::new(&[b"only".to_vec()]).unwrap();
    assert_eq!(tree.root(), &leaf(b"only")[..]);
    let proof = tree.generate_proof(0).unwrap();
    assert!(proof.proof_hashes.is_empty());
    assert!(MerkleTree::verify_proof(&proof, tree.root()));
}

#[test]
fn every_generated_proof_verifies() {
    for n in 1..=9usize {
        let data: Vec<Vec<u8>> = (0..n).map(|i| vec![i as u8; 3]).collect();
        let tree = MerkleTree::new(&data).unwrap();
        for index in 0..n {
            let proof = tree.generate_proof(index).unwrap();
            assert!(MerkleTree::verify_proof(&proof, tree.root()));
            assert!(tree.verify_leaf(&data[index], index));
        }
        assert!(matches!(tree.generate_proof(n), Err(MerkleError::InvalidIndex)));
        assert!(!tree.verify_leaf(&data[0], n));
    }
}

#[test]
fn proof_of_last_of_three_pairs_it_with_itself() {
    let tree = MerkleTree::new(&sample()).unwrap();
    let proof = tree.generate_proof(2).unwrap();
    assert_eq!(proof.leaf_hash, leaf(b"data3"));
    assert_eq!(proof.proof_hashes, vec![leaf(b"data3"), node(&leaf(b"data1"), &leaf(b"data2"))]);
    assert_eq!(proof.proof_indices, vec![0, 0]);
    let first = tree.generate_proof(0).unwrap();
    assert_eq!(first.proof_indices, vec![1, 1]);
}

#[test]
fn corrupted_proof_fails() {
    let data: Vec<Vec<u8>> = (0..5u8).map(|i| vec![i; 4]).collect();
    let tree = MerkleTree::new(&data).unwrap();
    let proof = tree.generate_proof(3).unwrap();
    for entry in 0..proof.proof_hashes.len() {
        for byte in [0usize, 31, 63] {
            let mut bad = MerkleProof {
                leaf_hash: proof.leaf_hash.clone(),
                proof_hashes: proof.proof_hashes.clone(),
                proof_indices: proof.proof_indices.clone(),
            };
            bad.proof_hashes[entry][byte] ^= 0x01;
            assert!(!MerkleTree::verify_proof(&bad, tree.root()));
        }
    }
    let mut bad_leaf = proof.clone();
    bad_leaf.leaf_hash[10] ^= 0x80;
    assert!(!MerkleTree::verify_proof(&bad_leaf, tree.root()));
}

#[test]
fn proof_with_too_few_sides_fails() {
    let tree = MerkleTree::new(&sample()).unwrap();
    let mut proof = tree.generate_proof(0).unwrap();
    proof.proof_indices.pop();
    assert!(!MerkleTree::verify_proof(&proof, tree.root()));
}

#[test]
fn root_depends_on_order() {
    let a = MerkleTree::new(&sample()).unwrap();
    let swapped = vec![b"data2".to_vec(), b"data1".to_vec(), b"data3".to_vec()];
    let b = MerkleTree::new(&swapped).unwrap();
    assert_ne!(a.root(), b.root());
    let again = MerkleTree::new(&sample()).unwrap();
    assert_eq!(a.root(), again.root());
}

#[test]
fn merkle_one_leaf() {
    let leaves = [h(b"a")];
    let t = HashTree::new(&leaves).unwrap();
    assert_eq!(t.root(), leaves[0]);
}

#[test]
fn merkle_two_leaves() {
    let leaves = [h(b"a"), h(b"b")];
    let t = HashTree::new(&leaves).unwrap();
    // expected = SHA512( h(a) || h(b) )
    let mut buf = [0u8; 128];
    buf[..64].copy_from_slice(&leaves[0]);
    buf[64..].copy_from_slice(&leaves[1]);
    let exp = Sha512::digest(buf);
    let mut exp_arr = [0u8; 64];
    exp_arr.copy_from_slice(&exp);
    assert_eq!(t.root(), exp_arr);
}

#[test]
fn merkle_odd_duplication() {
    let leaves = [h(b"a"), h(b"b"), h(b"c")];
    let t = HashTree::new(&leaves).unwrap();
    let r1 = t.root();
    let r2 = HashTree::new(&leaves).unwrap().root();
    assert_eq!(r1, r2);
}

#[test]
fn three_leaves_duplicate_the_last() {
    let leaves = [h(b"a"), h(b"b"), h(b"c")];
    let t = HashTree::new(&leaves).unwrap();
    let expected = pair(&pair(&leaves[0], &leaves[1]), &pair(&leaves[2], &leaves[2]));
    assert_eq!(t.root(), expected);
}

#[test]
fn hashed_leaves_swap_changes_root() {
    let leaves = [h(b"a"), h(b"b"), h(b"c"), h(b"d"), h(b"e")];
    let swapped = [h(b"a"), h(b"d"), h(b"c"), h(b"b"), h(b"e")];
    let r1 = HashTree::new(&leaves).unwrap().root();
    let r2 = HashTree::new(&swapped).unwrap().root();
    assert_ne!(r1, r2);
    let l4 = pair(&pair(&pair(&leaves[0], &leaves[1]), &pair(&leaves[2], &leaves[3])),
        &pair(&pair(&leaves[4], &leaves[4]), &pair(&leaves[4], &leaves[4])));
    assert_eq!(r1, l4);
}

#[test]
fn no_leaves_no_tree() {
    let leaves: [[u8; 64]; 0] = [];
    assert!(HashTree::new(&leaves).is_err());
}
