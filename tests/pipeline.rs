use monerochan_sdk::bundle::{MONEROCHANProof, MONEROCHANProofMode, ReduceProof, ShardProof};
use monerochan_sdk::digest::words_to_bytes;
use monerochan_sdk::options::{ExecuteOptions, ProveOptions};
use monerochan_sdk::pipeline::{
    backend_from_setting, batch_layout, deliver_bundle, next_stage, on_event, plan_stages, shard_order, tree_layers, ProverBackend,
    ShardOrderError, Stage, StageAction, StageEvent, StageOutput,
};
use monerochan_sdk::public_values::{ExecutionState, PublicValues};
use monerochan_sdk::subproof::{
    check_deferred_claims, ClaimCheckingSubproofVerifier, DeferredProofError, NoOpSubproofVerifier, SubproofVerifier,
};

#[test]
fn plans_follow_the_mode() {
    assert_eq!(plan_stages(MONEROCHANProofMode::Core, false), vec![Stage::Execute, Stage::CoreProve]);
    assert_eq!(
        plan_stages(MONEROCHANProofMode::Groth16, false),
        vec![Stage::Execute, Stage::CoreProve, Stage::Compress, Stage::Shrink, Stage::WrapOuterCurve, Stage::WrapGroth16]
    );
    assert_eq!(
        plan_stages(MONEROCHANProofMode::Plonk, false).last(),
        Some(&Stage::WrapPlonk)
    );
    assert_eq!(plan_stages(MONEROCHANProofMode::Compressed, true), vec![Stage::Execute]);
}

#[test]
fn stages_step_forward() {
    let mode = MONEROCHANProofMode::Compressed;
    assert_eq!(next_stage(mode, false, None), Some(Stage::Execute));
    assert_eq!(next_stage(mode, false, Some(Stage::Execute)), Some(Stage::CoreProve));
    assert_eq!(next_stage(mode, false, Some(Stage::CoreProve)), Some(Stage::Compress));
    assert_eq!(next_stage(mode, false, Some(Stage::Compress)), None);
    assert_eq!(next_stage(MONEROCHANProofMode::Plonk, false, Some(Stage::WrapOuterCurve)), Some(Stage::WrapPlonk));
    assert_eq!(next_stage(MONEROCHANProofMode::Plonk, true, Some(Stage::Execute)), None);
}

#[test]
fn events_drive_the_run() {
    let mode = MONEROCHANProofMode::Core;
    assert!(matches!(on_event(mode, false, StageEvent::Completed(Stage::Execute)), StageAction::Run(Stage::CoreProve)));
    assert!(matches!(
        on_event(mode, false, StageEvent::Completed(Stage::CoreProve)),
        StageAction::Deliver(MONEROCHANProofMode::Core)
    ));
    assert!(matches!(
        on_event(MONEROCHANProofMode::Groth16, true, StageEvent::Completed(Stage::Execute)),
        StageAction::Deliver(MONEROCHANProofMode::Groth16)
    ));
    match on_event(mode, false, StageEvent::Failed(Stage::CoreProve, "out of memory".to_string())) {
        StageAction::Abort(s, m) => {
            assert_eq!(s, Stage::CoreProve);
            assert_eq!(m, "out of memory");
        }
        _ => panic!("expected an abort"),
    }
}

#[test]
fn backend_settings() {
    assert_eq!(backend_from_setting(None), Some(ProverBackend::Cpu));
    assert_eq!(backend_from_setting(Some("mock")), Some(ProverBackend::Mock));
    assert_eq!(backend_from_setting(Some("cpu")), Some(ProverBackend::Cpu));
    assert_eq!(backend_from_setting(Some("cuda")), Some(ProverBackend::Cuda));
    assert_eq!(backend_from_setting(Some("network")), Some(ProverBackend::Network));
    assert_eq!(backend_from_setting(Some("gpu")), None);
    assert_eq!(backend_from_setting(Some("")), None);
}

#[test]
fn options_keep_what_is_not_set() {
    let o = ProveOptions::new(false).groth16().shard_size(1 << 20).cycle_limit(1000);
    assert_eq!(o.mode, MONEROCHANProofMode::Groth16);
    assert_eq!(o.shard_size, Some(1 << 20));
    assert_eq!(o.max_cycles, Some(1000));
    assert!(o.deferred_proof_verification);
    let o = o.compressed().deferred_proof_verification(false).shard_batch_size(4);
    assert_eq!(o.mode, MONEROCHANProofMode::Compressed);
    assert_eq!(o.shard_size, Some(1 << 20));
    assert_eq!(o.shard_batch_size, Some(4));
    assert!(!o.deferred_proof_verification);
    assert_eq!(o.plonk().core_mode().mode, MONEROCHANProofMode::Core);
    let e = ExecuteOptions::new().cycle_limit(7).calculate_gas(false);
    assert_eq!(e.max_cycles, Some(7));
    assert!(!e.calculate_gas);
    assert!(e.deferred_proof_verification);
    assert!(!e.deferred_proof_verification(false).deferred_proof_verification);
}

#[test]
fn words_serialise_little_endian() {
    let words = [0x04030201u32, 0, 0xffffffff, 0x12345678, 1, 2, 3, 0x80000000];
    let b = words_to_bytes(&words);
    assert_eq!(&b[0..4], &[1, 2, 3, 4]);
    assert_eq!(&b[8..12], &[0xff; 4]);
    assert_eq!(&b[12..16], &[0x78, 0x56, 0x34, 0x12]);
    assert_eq!(&b[28..32], &[0, 0, 0, 0x80]);
}

fn deferred(vk: [u32; 8], words: [u32; 8]) -> ReduceProof {
    let bytes = words_to_bytes(&words);
    let mut limbs = [0u32; 32];
    for (i, b) in bytes.iter().enumerate() {
        limbs[i] = *b as u32;
    }
    let s = ExecutionState { pc: 0, shard: 0, memory_digest: [0; 8], cycles: 0 };
    ReduceProof {
        vk_digest: vk,
        public_values: PublicValues { start: s, end: s, is_complete: true, committed_value_digest: limbs, vk_root: [0; 8] },
        stark_proof: vec![],
    }
}

#[test]
fn deferred_claims_are_checked() {
    let vk = [1, 2, 3, 4, 5, 6, 7, 8];
    let words = [0xdeadbeef, 1, 2, 3, 4, 5, 6, 7];
    let p = deferred(vk, words);
    assert!(check_deferred_claims(&p, &vk, &words).is_ok());
    assert!(ClaimCheckingSubproofVerifier.verify_deferred_proof(&p, vk, words).is_ok());
    assert!(matches!(check_deferred_claims(&p, &[0; 8], &words), Err(DeferredProofError::VkHashMismatch)));
    let mut other = words;
    other[0] = 0xdeadbeee;
    assert!(matches!(check_deferred_claims(&p, &vk, &other), Err(DeferredProofError::DigestMismatch)));
    assert!(NoOpSubproofVerifier.verify_deferred_proof(&p, [0; 8], other).is_ok());
}

#[test]
fn shards_are_put_back_in_order() {
    let order = shard_order(&vec![2, 0, 3, 1]).ok().unwrap();
    assert_eq!(order, vec![1, 3, 0, 2]);
    assert_eq!(shard_order(&vec![]).ok().unwrap(), Vec::<usize>::new());
    assert!(matches!(shard_order(&vec![0, 4, 1, 2]), Err(ShardOrderError::OutOfRange { position: 1 })));
    assert!(matches!(shard_order(&vec![1, 0, 1]), Err(ShardOrderError::Duplicate { shard: 1 })));
}

#[test]
fn batches_and_tree_layers() {
    assert_eq!(batch_layout(7, 2), (4, 1));
    assert_eq!(batch_layout(8, 4), (2, 0));
    assert_eq!(batch_layout(1, 3), (1, 2));
    assert_eq!(batch_layout(0, 3), (0, 0));
    assert_eq!(tree_layers(7, 2), vec![7, 4, 2, 1]);
    assert_eq!(tree_layers(1, 2), vec![1]);
    assert_eq!(tree_layers(10, 3), vec![10, 4, 2, 1]);
}

#[test]
fn delivered_bundles_carry_mode_and_version() {
    let vk = "9".to_string();
    let s = ExecutionState { pc: 0, shard: 0, memory_digest: [0; 8], cycles: 0 };
    let pv = PublicValues { start: s, end: s, is_complete: true, committed_value_digest: [0; 32], vk_root: [0; 8] };
    let shards = vec![ShardProof { public_values: pv, stark_proof: vec![1] }];
    let b = deliver_bundle(MONEROCHANProofMode::Core, false, Some(StageOutput::Shards(shards)), b"o".to_vec(), "v5", &vk)
        .unwrap();
    assert_eq!(b.proof.proof_mode(), MONEROCHANProofMode::Core);
    assert_eq!(b.monerochan_version, "v5");
    assert_eq!(b.public_values, b"o".to_vec());
    assert!(matches!(&b.proof, MONEROCHANProof::Core(v) if v.len() == 1 && v[0].stark_proof == vec![1]));
    let wrong = deliver_bundle(
        MONEROCHANProofMode::Compressed,
        false,
        Some(StageOutput::Shards(vec![])),
        vec![],
        "v5",
        &vk,
    );
    assert!(wrong.is_none());
    assert!(deliver_bundle(MONEROCHANProofMode::Plonk, false, None, vec![], "v5", &vk).is_none());
    let m = deliver_bundle(MONEROCHANProofMode::Groth16, true, None, vec![], "v5", &vk).unwrap();
    assert_eq!(m.proof.proof_mode(), MONEROCHANProofMode::Groth16);
    assert_eq!(m.monerochan_version, "v5");
}
