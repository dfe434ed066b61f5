use monerochan_sdk::digest::Digest;
use monerochan_sdk::merkle::{
    compute_root, verify_path, MONEROCHANMerkleProofVerifier, MONEROCHANMerkleProofWitnessValues,
    MerkleError, MerkleTree,
};

fn leaf(seed: u32) -> Digest {
    let mut d = [0u32; 8];
    for (i, x) in d.iter_mut().enumerate() {
        *x = seed * 100 + i as u32;
    }
    d
}

fn registry() -> (Digest, MerkleTree, Vec<Digest>) {
    let leaves = vec![leaf(1), leaf(2), leaf(3)];
    let (root, tree) = MerkleTree::commit(&leaves);
    (root, tree, leaves)
}

#[test]
fn commit_pads_to_power_of_two() {
    let (root, tree, leaves) = registry();
    assert_eq!(tree.height, 2);
    assert_eq!(tree.layers[0].len(), 4);
    assert_eq!(tree.layers[0][..3], leaves[..]);
    assert_eq!(tree.layers[0][3], [0u32; 8]);
    assert_eq!(tree.layers[2], vec![root]);
}

#[test]
fn parent_differs_from_children() {
    let leaves = vec![leaf(1), leaf(2)];
    let (root, tree) = MerkleTree::commit(&leaves);
    assert_eq!(tree.height, 1);
    assert_ne!(root, leaves[0]);
    assert_ne!(root, leaves[1]);
    let swapped = vec![leaf(2), leaf(1)];
    let (other, _) = MerkleTree::commit(&swapped);
    assert_ne!(root, other);
}

#[test]
fn single_leaf_is_its_own_root() {
    let leaves = vec![leaf(7)];
    let (root, tree) = MerkleTree::commit(&leaves);
    assert_eq!(tree.height, 0);
    assert_eq!(root, leaf(7));
}

#[test]
fn every_opening_reaches_the_root() {
    let (root, tree, leaves) = registry();
    for i in 0..4 {
        let (value, proof) = tree.open(i);
        assert_eq!(proof.index, i);
        assert_eq!(proof.path.len(), 2);
        if i < 3 {
            assert_eq!(value, leaves[i]);
        }
        assert_eq!(compute_root(&proof, &value), root);
        assert!(verify_path(&proof, &value, &root));
    }
}

#[test]
fn membership_of_authorized_keys_passes() {
    let (root, tree, leaves) = registry();
    let witness = tree.witness_for(&vec![2, 0]);
    assert_eq!(witness.root, root);
    let digests = vec![leaves[2], leaves[0]];
    assert!(MONEROCHANMerkleProofVerifier::verify(&digests, &witness, true).is_ok());
}

#[test]
fn tampered_sibling_is_rejected() {
    let (_, tree, leaves) = registry();
    let digests = vec![leaves[1]];
    for t in 0..2 {
        for k in 0..8 {
            let mut witness = tree.witness_for(&vec![1]);
            witness.vk_merkle_proofs[0].path[t][k] ^= 1;
            match MONEROCHANMerkleProofVerifier::verify(&digests, &witness, true) {
                Err(MerkleError::RootMismatch { index }) => assert_eq!(index, 0),
                _ => panic!("a tampered path was accepted"),
            }
        }
    }
}

#[test]
fn tampered_root_is_rejected() {
    let (_, tree, leaves) = registry();
    let digests = vec![leaves[0]];
    let mut witness = tree.witness_for(&vec![0]);
    witness.root[3] ^= 0x10;
    assert!(matches!(
        MONEROCHANMerkleProofVerifier::verify(&digests, &witness, true),
        Err(MerkleError::RootMismatch { index: 0 })
    ));
}

#[test]
fn tampered_index_is_rejected() {
    let (_, tree, leaves) = registry();
    let digests = vec![leaves[0]];
    let mut witness = tree.witness_for(&vec![0]);
    witness.vk_merkle_proofs[0].index = 1;
    assert!(matches!(
        MONEROCHANMerkleProofVerifier::verify(&digests, &witness, true),
        Err(MerkleError::RootMismatch { index: 0 })
    ));
}

#[test]
fn unauthorized_key_fails_value_assertion() {
    let (_, tree, leaves) = registry();
    let witness = tree.witness_for(&vec![0, 1]);
    let digests = vec![leaves[0], leaf(9)];
    assert!(matches!(
        MONEROCHANMerkleProofVerifier::verify(&digests, &witness, true),
        Err(MerkleError::ValueMismatch { index: 1 })
    ));
    // Without value assertions the value is only compared with itself.
    assert!(MONEROCHANMerkleProofVerifier::verify(&digests, &witness, false).is_ok());
}

#[test]
fn length_mismatch_is_rejected() {
    let (_, tree, leaves) = registry();
    let witness = tree.witness_for(&vec![0]);
    let digests = vec![leaves[0], leaves[1]];
    assert!(matches!(
        MONEROCHANMerkleProofVerifier::verify(&digests, &witness, true),
        Err(MerkleError::LengthMismatch)
    ));
}

#[test]
fn dummy_merkle_witness_layout() {
    let w = MONEROCHANMerkleProofWitnessValues::dummy(3, 5);
    assert_eq!(w.vk_merkle_proofs.len(), 3);
    assert_eq!(w.values, vec![[0u32; 8]; 3]);
    assert_eq!(w.root, [0u32; 8]);
    for p in &w.vk_merkle_proofs {
        assert_eq!(p.index, 0);
        assert_eq!(p.path, vec![[0u32; 8]; 5]);
    }
    // A padding witness proves nothing against its zero root.
    let digests = vec![[0u32; 8]; 3];
    assert!(matches!(
        MONEROCHANMerkleProofVerifier::verify(&digests, &w, false),
        Err(MerkleError::RootMismatch { index: 0 })
    ));
}
