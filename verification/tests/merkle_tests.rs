//! Tests of the Poseidon compression interface and Merkle aggregation.

use zk_circuits::field::{poseidon_hash, Fe};
use zk_circuits::merkle::{
    build_merkle_tree, compute_merkle_root, get_merkle_proof, verify_inclusion_proof,
};
use zk_circuits::rollup::state_transition_check;

fn leaves_from(values: &[u64]) -> Vec<Fe> {
    values.iter().map(|v| Fe::from_u64(*v)).collect()
}

#[test]
fn test_poseidon_hash_works() {
    let a = Fe::from_u64(100);
    let b = Fe::from_u64(0);
    let h1 = poseidon_hash(&a, &b);
    let h2 = poseidon_hash(&a, &b);
    // The compression function is a deterministic function of its two
    // inputs, and actually mixes them.
    assert_eq!(h1, h2);
    assert_ne!(h1, a);
    assert_ne!(h1, b);
}

#[test]
fn test_merkle_inclusion_proof() {
    let leaves: Vec<Fe> = leaves_from(&[0, 1, 2, 3, 4, 5, 6, 7]);
    let tree = build_merkle_tree(&leaves);
    let root = tree.last().unwrap()[0];
    let leaf_index = 3;
    let leaf = leaves[leaf_index];
    let (proof, path_bits) = get_merkle_proof(&tree, leaf_index);
    assert!(verify_inclusion_proof(&leaf, &proof, &path_bits, &root));
}

#[test]
fn merkle_inclusion_holds_for_every_leaf() {
    let leaves: Vec<Fe> = leaves_from(&[11, 22, 33, 44, 55, 66, 77, 88]);
    let tree = build_merkle_tree(&leaves);
    let root = tree.last().unwrap()[0];
    for i in 0..leaves.len() {
        let (proof, path_bits) = get_merkle_proof(&tree, i);
        assert!(verify_inclusion_proof(&leaves[i], &proof, &path_bits, &root));
    }
}

#[test]
fn merkle_inclusion_fails_on_altered_sibling() {
    let leaves: Vec<Fe> = leaves_from(&[0, 1, 2, 3, 4, 5, 6, 7]);
    let tree = build_merkle_tree(&leaves);
    let root = tree.last().unwrap()[0];
    let (proof, path_bits) = get_merkle_proof(&tree, 3);
    for altered_at in 0..proof.len() {
        let mut tampered = proof.clone();
        tampered[altered_at] = Fe::from_u64(9999);
        assert!(!verify_inclusion_proof(&leaves[3], &tampered, &path_bits, &root));
    }
}

#[test]
fn merkle_root_is_deterministic_and_order_sensitive() {
    let once = build_merkle_tree(&leaves_from(&[1, 2, 3, 4]));
    let again = build_merkle_tree(&leaves_from(&[1, 2, 3, 4]));
    let swapped = build_merkle_tree(&leaves_from(&[2, 1, 3, 4]));
    assert_eq!(once.last().unwrap()[0], again.last().unwrap()[0]);
    assert_ne!(once.last().unwrap()[0], swapped.last().unwrap()[0]);
}

#[test]
fn merkle_tree_pads_to_power_of_two() {
    let tree = build_merkle_tree(&leaves_from(&[5, 6, 7]));
    assert_eq!(tree[0].len(), 4);
    assert_eq!(tree[0][3], Fe::zero());
    assert_eq!(tree.last().unwrap().len(), 1);
}

#[test]
fn compute_merkle_root_matches_built_tree() {
    let leaves = leaves_from(&[9, 8, 7, 6]);
    let tree = build_merkle_tree(&leaves);
    let root = compute_merkle_root(&leaves);
    assert_eq!(root, tree.last().unwrap()[0]);
    // If the compression wrapper handed an input through unchanged,
    // this root would collapse onto a leaf.
    assert_ne!(root, leaves[0]);
    assert_ne!(root, leaves[3]);
}

#[test]
fn test_state_transition_passes() {
    let prev = Fe::from_u64(123);
    let curr = Fe::from_u64(456);
    let expected_hash = poseidon_hash(&prev, &curr);
    assert!(state_transition_check(&prev, &curr, &expected_hash));
}

#[test]
fn test_state_transition_fails_with_wrong_root() {
    let prev = Fe::from_u64(123);
    let curr = Fe::from_u64(456);
    let wrong_hash = Fe::from_u64(999);
    assert!(!state_transition_check(&prev, &curr, &wrong_hash));
}
