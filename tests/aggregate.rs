use monerochan_sdk::aggregate::{
    AggregationError, CompressShape, InnerProof, MONEROCHANCompressRootVerifier,
    MONEROCHANCompressRootVerifierWithVKey, MONEROCHANCompressVerifier,
    MONEROCHANCompressWithVKeyVerifier, MONEROCHANCompressWithVKeyWitnessValues,
    MONEROCHANCompressWithVkeyShape, MONEROCHANCompressWitnessValues, VkAndProof,
};
use monerochan_sdk::digest::Digest;
use monerochan_sdk::merkle::MerkleTree;
use monerochan_sdk::public_values::{check_shard_chain, ChainError, ExecutionState, PublicValues};

fn state(shard: u32, pc: u32, cycles: u64) -> ExecutionState {
    ExecutionState { pc, shard, memory_digest: [shard + 11; 8], cycles }
}

fn shard(i: u32, complete: bool) -> PublicValues {
    PublicValues {
        start: state(i, 100 * i, 1000 * i as u64),
        end: state(i + 1, 100 * (i + 1), 1000 * (i + 1) as u64),
        is_complete: complete,
        committed_value_digest: [i; 32],
        vk_root: [0; 8],
    }
}

fn entry(vk: Digest, pv: PublicValues, dummy: bool) -> VkAndProof {
    VkAndProof { vk_digest: vk, proof: InnerProof { public_values: pv, log_trace_height: 20, is_dummy: dummy } }
}

const VK: Digest = [5, 6, 7, 8, 9, 10, 11, 12];
const OTHER_VK: Digest = [1, 1, 1, 1, 1, 1, 1, 1];

#[test]
fn adjacent_shards_link() {
    let shards = vec![shard(0, false), shard(1, false), shard(2, true)];
    assert!(check_shard_chain(&shards).is_ok());
    assert_eq!(shards[0].end.pc, shards[1].start.pc);
    assert_eq!(shards[1].end.cycles, shards[2].start.cycles);
}

#[test]
fn broken_shard_chain_is_reported() {
    let mut shards = vec![shard(0, false), shard(1, false), shard(2, true)];
    shards[2].start.pc += 4;
    assert!(matches!(check_shard_chain(&shards), Err(ChainError::BrokenChain { index: 1 })));
    let early = vec![shard(0, true), shard(1, true)];
    assert!(matches!(check_shard_chain(&early), Err(ChainError::BrokenChain { index: 0 })));
    assert!(matches!(check_shard_chain(&vec![]), Err(ChainError::Empty)));
}

#[test]
fn fold_covers_the_whole_run() {
    let w = MONEROCHANCompressWitnessValues {
        vks_and_proofs: vec![entry(VK, shard(0, false), false), entry(VK, shard(1, true), false)],
        is_complete: true,
    };
    let root = [3u32; 8];
    let out = MONEROCHANCompressVerifier::verify(&w, &root).ok().unwrap();
    assert_eq!(out.start.pc, 0);
    assert_eq!(out.end.pc, 200);
    assert_eq!(out.end.shard, 2);
    assert_eq!(out.end.cycles - out.start.cycles, 2000);
    assert!(out.is_complete);
    assert_eq!(out.committed_value_digest, [1u32; 32]);
    assert_eq!(out.vk_root, root);
}

#[test]
fn padding_is_left_out_of_the_fold() {
    let mut junk = shard(9, true);
    junk.start.pc = 12345;
    let w = MONEROCHANCompressWitnessValues {
        vks_and_proofs: vec![
            entry(VK, shard(0, false), false),
            entry([0; 8], junk, true),
            entry(VK, shard(1, false), false),
            entry([0; 8], junk, true),
        ],
        is_complete: false,
    };
    let out = MONEROCHANCompressVerifier::verify(&w, &[0; 8]).ok().unwrap();
    assert_eq!(out.start.pc, 0);
    assert_eq!(out.end.pc, 200);
    assert!(!out.is_complete);
}

#[test]
fn aggregation_errors() {
    let broken = MONEROCHANCompressWitnessValues {
        vks_and_proofs: vec![entry(VK, shard(0, false), false), entry(VK, shard(2, false), false)],
        is_complete: false,
    };
    assert!(matches!(MONEROCHANCompressVerifier::verify(&broken, &[0; 8]), Err(AggregationError::BrokenChain)));
    let claim = MONEROCHANCompressWitnessValues {
        vks_and_proofs: vec![entry(VK, shard(0, false), false)],
        is_complete: true,
    };
    assert!(matches!(
        MONEROCHANCompressVerifier::verify(&claim, &[0; 8]),
        Err(AggregationError::CompletenessMismatch)
    ));
    let empty = MONEROCHANCompressWitnessValues { vks_and_proofs: vec![entry(VK, shard(0, false), true)], is_complete: false };
    assert!(matches!(MONEROCHANCompressVerifier::verify(&empty, &[0; 8]), Err(AggregationError::EmptyBatch)));
}

#[test]
fn root_requires_completion() {
    let w = MONEROCHANCompressWitnessValues {
        vks_and_proofs: vec![entry(VK, shard(0, false), false)],
        is_complete: false,
    };
    assert!(matches!(MONEROCHANCompressRootVerifier::verify(&w, &[0; 8]), Err(AggregationError::NotComplete)));
    let done = MONEROCHANCompressWitnessValues {
        vks_and_proofs: vec![entry(VK, shard(0, true), false)],
        is_complete: true,
    };
    assert!(MONEROCHANCompressRootVerifier::verify(&done, &[0; 8]).ok().unwrap().is_complete);
}

fn with_vkey(keys: Vec<Digest>, registered: &[Digest], complete: bool) -> MONEROCHANCompressWithVKeyWitnessValues {
    let (_, tree) = MerkleTree::commit(&registered.to_vec());
    let indices: Vec<usize> = keys
        .iter()
        .map(|k| registered.iter().position(|r| r == k).unwrap_or(0))
        .collect();
    let n = keys.len() as u32;
    let vks_and_proofs = keys
        .into_iter()
        .enumerate()
        .map(|(i, k)| entry(k, shard(i as u32, complete && i as u32 + 1 == n), false))
        .collect();
    MONEROCHANCompressWithVKeyWitnessValues {
        compress_val: MONEROCHANCompressWitnessValues { vks_and_proofs, is_complete: complete },
        merkle_val: tree.witness_for(&indices),
    }
}

#[test]
fn registered_keys_aggregate_under_the_root() {
    let w = with_vkey(vec![VK, OTHER_VK], &[OTHER_VK, VK, [2; 8]], true);
    let out = MONEROCHANCompressWithVKeyVerifier::verify(&w, true).ok().unwrap();
    assert_eq!(out.vk_root, w.merkle_val.root);
    let root_out = MONEROCHANCompressRootVerifierWithVKey::verify(&w, true).ok().unwrap();
    assert!(root_out.is_complete);
}

#[test]
fn unregistered_key_is_rejected() {
    let w = with_vkey(vec![VK, [42; 8]], &[VK, OTHER_VK], true);
    assert!(matches!(
        MONEROCHANCompressWithVKeyVerifier::verify(&w, true),
        Err(AggregationError::VkeyNotAuthorized)
    ));
    assert!(matches!(
        MONEROCHANCompressRootVerifierWithVKey::verify(&w, true),
        Err(AggregationError::VkeyNotAuthorized)
    ));
}

#[test]
fn dummy_witness_has_its_shape() {
    for (shapes, height) in [(vec![20u32, 21, 22], 4usize), (vec![7], 0), (vec![1, 1], 9)] {
        let shape = MONEROCHANCompressWithVkeyShape {
            compress_shape: CompressShape { proof_shapes: shapes.clone() },
            merkle_tree_height: height,
        };
        let w = MONEROCHANCompressWithVKeyWitnessValues::dummy(&shape);
        let back = w.shape();
        assert_eq!(back.compress_shape.proof_shapes, shapes);
        assert_eq!(back.merkle_tree_height, height);
        assert!(w.compress_val.vks_and_proofs.iter().all(|e| e.proof.is_dummy && e.vk_digest == [0; 8]));
        assert!(!w.compress_val.is_complete);
    }
}

#[test]
fn dummy_witness_is_never_folded() {
    let shape = MONEROCHANCompressWithVkeyShape {
        compress_shape: CompressShape { proof_shapes: vec![20, 20] },
        merkle_tree_height: 3,
    };
    let w = MONEROCHANCompressWithVKeyWitnessValues::dummy(&shape);
    assert!(MONEROCHANCompressWithVKeyVerifier::verify(&w, false).is_err());
    assert!(matches!(
        MONEROCHANCompressVerifier::verify(&w.compress_val, &[0; 8]),
        Err(AggregationError::EmptyBatch)
    ));
    assert!(matches!(
        MONEROCHANCompressRootVerifierWithVKey::verify(&w, false),
        Err(AggregationError::VkeyNotAuthorized)
    ));
}

#[test]
fn root_refuses_padding_mode() {
    // The key is not the registry leaf; only the padding mode would let it through.
    let (_, tree) = MerkleTree::commit(&vec![[0u32; 8]]);
    let w = MONEROCHANCompressWithVKeyWitnessValues {
        compress_val: MONEROCHANCompressWitnessValues {
            vks_and_proofs: vec![entry([1; 8], shard(0, true), false)],
            is_complete: true,
        },
        merkle_val: tree.witness_for(&vec![0]),
    };
    assert!(MONEROCHANCompressWithVKeyVerifier::verify(&w, false).is_ok());
    assert!(matches!(
        MONEROCHANCompressRootVerifierWithVKey::verify(&w, false),
        Err(AggregationError::VkeyNotAuthorized)
    ));
    assert!(matches!(
        MONEROCHANCompressRootVerifierWithVKey::verify(&w, true),
        Err(AggregationError::VkeyNotAuthorized)
    ));
}
