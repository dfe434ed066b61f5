use monerochan_sdk::bundle::{
    MONEROCHANProof, MONEROCHANProofMode, MONEROCHANProofWithPublicValues, ReduceProof, ShardProof,
};
use monerochan_sdk::digest::committed_value_digest_bytes;
use monerochan_sdk::mock::{create_mock_proof, mock_verify};
use monerochan_sdk::public_values::{ExecutionState, PublicValues};
use monerochan_sdk::verify::{check_commitment, verify_proof, MONEROCHANVerificationError, VerificationErrorKind};
use sha2::{Digest as _, Sha256};

const VERSION: &str = "v5.0.0";

fn state(shard: u32, pc: u32) -> ExecutionState {
    ExecutionState { pc, shard, memory_digest: [shard; 8], cycles: 500 * shard as u64 }
}

fn limbs(bytes: &[u8]) -> [u32; 32] {
    let mut l = [0u32; 32];
    for (i, b) in bytes.iter().enumerate() {
        l[i] = *b as u32;
    }
    l
}

fn sha256(data: &[u8]) -> Vec<u8> {
    Sha256::digest(data).to_vec()
}

fn two_shard_bundle(public_values: &[u8], commitment: &[u8]) -> MONEROCHANProofWithPublicValues {
    let pv = |i: u32, complete: bool| PublicValues {
        start: state(i, 0x2000 + 4 * i),
        end: state(i + 1, 0x2000 + 4 * (i + 1)),
        is_complete: complete,
        committed_value_digest: limbs(commitment),
        vk_root: [0; 8],
    };
    MONEROCHANProofWithPublicValues {
        proof: MONEROCHANProof::Core(vec![
            ShardProof { public_values: pv(0, false), stark_proof: vec![1, 2, 3] },
            ShardProof { public_values: pv(1, true), stark_proof: vec![4, 5] },
        ]),
        public_values: public_values.to_vec(),
        monerochan_version: VERSION.to_string(),
    }
}

fn compressed_bundle(public_values: &[u8], commitment: &[u8]) -> MONEROCHANProofWithPublicValues {
    MONEROCHANProofWithPublicValues {
        proof: MONEROCHANProof::Compressed(ReduceProof {
            vk_digest: [9; 8],
            public_values: PublicValues {
                start: state(0, 0x2000),
                end: state(2, 0x2008),
                is_complete: true,
                committed_value_digest: limbs(commitment),
                vk_root: [4; 8],
            },
            stark_proof: vec![7; 16],
        }),
        public_values: public_values.to_vec(),
        monerochan_version: VERSION.to_string(),
    }
}

fn kind(r: &Result<(), MONEROCHANVerificationError>) -> Option<VerificationErrorKind> {
    r.as_ref().err().map(|e| e.kind())
}

#[test]
fn digest_bytes_keep_the_low_byte_of_each_limb() {
    let mut l = [0u32; 32];
    l[0] = 0x1ab;
    l[31] = 7;
    let b = committed_value_digest_bytes(&l);
    assert_eq!(b.len(), 32);
    assert_eq!(b[0], 0xab);
    assert_eq!(b[31], 7);
}

#[test]
fn sha256_commitment_is_accepted() {
    let pv = b"hello, world".to_vec();
    let bundle = two_shard_bundle(&pv, &sha256(&pv));
    assert!(verify_proof(VERSION, &bundle, Ok(())).is_ok());
}

#[test]
fn blake3_commitment_is_accepted() {
    let pv = b"hello, world".to_vec();
    let digest = monerochan_primitives::io::blake3_hash(&pv);
    assert_ne!(digest, sha256(&pv));
    let bundle = two_shard_bundle(&pv, &digest);
    assert!(verify_proof(VERSION, &bundle, Ok(())).is_ok());
    assert!(check_commitment(&digest, &pv));
}

#[test]
fn unmatched_commitment_is_rejected() {
    let pv = b"hello, world".to_vec();
    let bundle = two_shard_bundle(&pv, &[0u8; 32]);
    let r = verify_proof(VERSION, &bundle, Ok(()));
    assert_eq!(kind(&r), Some(VerificationErrorKind::InvalidPublicValues));
    assert!(!check_commitment(&[0u8; 32], &pv));
    assert!(check_commitment(&sha256(&pv), &pv));
}

#[test]
fn other_version_is_rejected_first() {
    let pv = b"abc".to_vec();
    let mut bundle = two_shard_bundle(&pv, &sha256(&pv));
    bundle.monerochan_version = "v4.0.0".to_string();
    match verify_proof(VERSION, &bundle, Ok(())) {
        Err(MONEROCHANVerificationError::VersionMismatch(v)) => assert_eq!(v, "v4.0.0"),
        _ => panic!("expected a version mismatch"),
    }
    let mut bad = two_shard_bundle(&pv, &[0u8; 32]);
    bad.monerochan_version = "v4.0.0".to_string();
    let r = verify_proof(VERSION, &bad, Err("bad proof".to_string()));
    assert_eq!(kind(&r), Some(VerificationErrorKind::VersionMismatch));
}

#[test]
fn backend_rejection_is_filed_under_the_mode() {
    let pv = b"abc".to_vec();
    let bundle = two_shard_bundle(&pv, &sha256(&pv));
    match verify_proof(VERSION, &bundle, Err("stark rejected".to_string())) {
        Err(MONEROCHANVerificationError::Core(m)) => assert_eq!(m, "stark rejected"),
        _ => panic!("expected a core error"),
    }
    let c = compressed_bundle(&pv, &sha256(&pv));
    let r = verify_proof(VERSION, &c, Err("no".to_string()));
    assert_eq!(kind(&r), Some(VerificationErrorKind::Recursion));
}

#[test]
fn broken_shard_run_is_a_core_error() {
    let pv = b"abc".to_vec();
    let mut bundle = two_shard_bundle(&pv, &sha256(&pv));
    if let MONEROCHANProof::Core(shards) = &mut bundle.proof {
        shards[1].public_values.start.pc = 1;
    }
    let r = verify_proof(VERSION, &bundle, Ok(()));
    assert_eq!(kind(&r), Some(VerificationErrorKind::Core));
}

#[test]
fn core_and_compressed_agree_and_corruption_is_caught() {
    let pv = vec![1u8, 0, 0, 0, 2, 0, 0, 0];
    let commitment = sha256(&pv);
    let core = two_shard_bundle(&pv, &commitment);
    let compressed = compressed_bundle(&pv, &commitment);
    assert!(verify_proof(VERSION, &core, Ok(())).is_ok());
    assert!(verify_proof(VERSION, &compressed, Ok(())).is_ok());
    assert_eq!(core.public_values, compressed.public_values);
    let mut corrupted = commitment.clone();
    corrupted[5] ^= 0x01;
    let bad = two_shard_bundle(&pv, &corrupted);
    assert_eq!(kind(&verify_proof(VERSION, &bad, Ok(()))), Some(VerificationErrorKind::InvalidPublicValues));
    let bad_c = compressed_bundle(&pv, &corrupted);
    assert_eq!(kind(&verify_proof(VERSION, &bad_c, Ok(()))), Some(VerificationErrorKind::InvalidPublicValues));
}

#[test]
fn snark_modes_defer_to_the_backend() {
    let vk_input = "12345".to_string();
    let bundle = create_mock_proof(MONEROCHANProofMode::Plonk, b"pv".to_vec(), VERSION, &vk_input);
    assert!(verify_proof(VERSION, &bundle, Ok(())).is_ok());
    assert_eq!(kind(&verify_proof(VERSION, &bundle, Err("x".to_string()))), Some(VerificationErrorKind::Plonk));
    let g = create_mock_proof(MONEROCHANProofMode::Groth16, b"pv".to_vec(), VERSION, &vk_input);
    assert_eq!(kind(&verify_proof(VERSION, &g, Err("x".to_string()))), Some(VerificationErrorKind::Groth16));
}

#[test]
fn mock_proofs_pass_only_the_mock_verifier() {
    let vk_input = "987654321".to_string();
    for mode in [
        MONEROCHANProofMode::Core,
        MONEROCHANProofMode::Compressed,
        MONEROCHANProofMode::Plonk,
        MONEROCHANProofMode::Groth16,
    ] {
        let bundle = create_mock_proof(mode, b"outputs".to_vec(), VERSION, &vk_input);
        assert_eq!(bundle.proof.proof_mode(), mode);
        assert!(mock_verify(VERSION, &bundle, &vk_input).is_ok());
    }
    let core = create_mock_proof(MONEROCHANProofMode::Core, b"outputs".to_vec(), VERSION, &vk_input);
    assert_eq!(kind(&verify_proof(VERSION, &core, Ok(()))), Some(VerificationErrorKind::Core));
    let plonk = create_mock_proof(MONEROCHANProofMode::Plonk, b"outputs".to_vec(), VERSION, &vk_input);
    let r = mock_verify(VERSION, &plonk, &"1".to_string());
    assert_eq!(kind(&r), Some(VerificationErrorKind::Plonk));
}

#[test]
fn mock_snark_carries_the_public_values_input() {
    let vk_input = "55".to_string();
    let pv = b"outputs".to_vec();
    let bundle = create_mock_proof(MONEROCHANProofMode::Groth16, pv.clone(), VERSION, &vk_input);
    let expected = monerochan_primitives::io::MONEROCHANPublicValues::from(&pv).hash_bn254().to_string();
    match &bundle.proof {
        MONEROCHANProof::Groth16(p) => {
            assert_eq!(p.public_inputs[0], "55");
            assert_eq!(p.public_inputs[1], expected);
            assert_ne!(p.public_inputs[1], "");
        }
        _ => panic!("expected a Groth16 proof"),
    }
}

#[test]
fn mock_verifier_gates_on_version() {
    let vk_input = "1".to_string();
    for mode in [MONEROCHANProofMode::Core, MONEROCHANProofMode::Compressed, MONEROCHANProofMode::Plonk] {
        let bundle = create_mock_proof(mode, b"pv".to_vec(), "v4.0.0", &vk_input);
        match mock_verify(VERSION, &bundle, &vk_input) {
            Err(MONEROCHANVerificationError::VersionMismatch(v)) => assert_eq!(v, "v4.0.0"),
            _ => panic!("expected a version mismatch"),
        }
        assert!(mock_verify("v4.0.0", &bundle, &vk_input).is_ok());
    }
}
