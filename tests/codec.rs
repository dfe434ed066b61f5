use monerochan_sdk::bundle::{
    MONEROCHANProof, MONEROCHANProofMode, MONEROCHANProofWithPublicValues, ReduceProof, ShardProof, SnarkProof,
};
use monerochan_sdk::codec::{check_fits, deserialize, serialize};
use monerochan_sdk::mock::create_mock_proof;
use monerochan_sdk::public_values::{ExecutionState, PublicValues};
use monerochan_sdk::verify::verify_proof;
use sha2::{Digest as _, Sha256};

fn pv(i: u32, complete: bool, commitment: &[u8]) -> PublicValues {
    let mut limbs = [0u32; 32];
    for (k, b) in commitment.iter().enumerate() {
        limbs[k] = *b as u32;
    }
    PublicValues {
        start: ExecutionState { pc: 0x100 * i, shard: i, memory_digest: [i; 8], cycles: (1u64 << 40) + i as u64 },
        end: ExecutionState {
            pc: 0x100 * (i + 1),
            shard: i + 1,
            memory_digest: [i + 1; 8],
            cycles: (1u64 << 40) + i as u64 + 1,
        },
        is_complete: complete,
        committed_value_digest: limbs,
        vk_root: [7, 6, 5, 4, 3, 2, 1, 0],
    }
}

fn core_bundle() -> MONEROCHANProofWithPublicValues {
    let public_values = b"the outputs".to_vec();
    let c = Sha256::digest(&public_values).to_vec();
    MONEROCHANProofWithPublicValues {
        proof: MONEROCHANProof::Core(vec![
            ShardProof { public_values: pv(0, false, &c), stark_proof: vec![9, 8, 7] },
            ShardProof { public_values: pv(1, true, &c), stark_proof: vec![] },
        ]),
        public_values,
        monerochan_version: "v5.0.0".to_string(),
    }
}

fn same_pv(a: &PublicValues, b: &PublicValues) {
    assert_eq!(a.start.pc, b.start.pc);
    assert_eq!(a.start.shard, b.start.shard);
    assert_eq!(a.start.memory_digest, b.start.memory_digest);
    assert_eq!(a.start.cycles, b.start.cycles);
    assert_eq!(a.end.pc, b.end.pc);
    assert_eq!(a.end.cycles, b.end.cycles);
    assert_eq!(a.end.memory_digest, b.end.memory_digest);
    assert_eq!(a.is_complete, b.is_complete);
    assert_eq!(a.committed_value_digest, b.committed_value_digest);
    assert_eq!(a.vk_root, b.vk_root);
}

#[test]
fn core_bundle_round_trips() {
    let b = core_bundle();
    assert!(check_fits(&b));
    let bytes = serialize(&b);
    let d = deserialize(&bytes).unwrap();
    assert_eq!(d.public_values, b.public_values);
    assert_eq!(d.monerochan_version, b.monerochan_version);
    match (&d.proof, &b.proof) {
        (MONEROCHANProof::Core(x), MONEROCHANProof::Core(y)) => {
            assert_eq!(x.len(), y.len());
            for (p, q) in x.iter().zip(y.iter()) {
                same_pv(&p.public_values, &q.public_values);
                assert_eq!(p.stark_proof, q.stark_proof);
            }
        }
        _ => panic!("mode changed"),
    }
    assert!(verify_proof("v5.0.0", &b, Ok(())).is_ok());
    assert!(verify_proof("v5.0.0", &d, Ok(())).is_ok());
    assert_eq!(serialize(&d), bytes);
}

#[test]
fn compressed_and_snark_bundles_round_trip() {
    let c = Sha256::digest(b"x").to_vec();
    let compressed = MONEROCHANProofWithPublicValues {
        proof: MONEROCHANProof::Compressed(ReduceProof {
            vk_digest: [1, 2, 3, 4, 5, 6, 7, 8],
            public_values: pv(3, true, &c),
            stark_proof: vec![0xff; 40],
        }),
        public_values: b"x".to_vec(),
        monerochan_version: "v5.0.0".to_string(),
    };
    let bytes = serialize(&compressed);
    let d = deserialize(&bytes).unwrap();
    match &d.proof {
        MONEROCHANProof::Compressed(r) => {
            assert_eq!(r.vk_digest, [1, 2, 3, 4, 5, 6, 7, 8]);
            same_pv(&r.public_values, &pv(3, true, &c));
            assert_eq!(r.stark_proof, vec![0xff; 40]);
        }
        _ => panic!("mode changed"),
    }
    let snark = MONEROCHANProofWithPublicValues {
        proof: MONEROCHANProof::Groth16(SnarkProof {
            public_inputs: ["123".to_string(), "45é6".to_string()],
            encoded_proof: "abcdef".to_string(),
            raw_proof: String::new(),
            vkey_hash: [3u8; 32],
        }),
        public_values: vec![],
        monerochan_version: "v5".to_string(),
    };
    let d = deserialize(&serialize(&snark)).unwrap();
    match &d.proof {
        MONEROCHANProof::Groth16(p) => {
            assert_eq!(p.public_inputs[0], "123");
            assert_eq!(p.public_inputs[1], "45é6");
            assert_eq!(p.encoded_proof, "abcdef");
            assert_eq!(p.raw_proof, "");
            assert_eq!(p.vkey_hash, [3u8; 32]);
        }
        _ => panic!("mode changed"),
    }
    assert_eq!(d.monerochan_version, "v5");
}

#[test]
fn mock_bundles_round_trip() {
    let vk = "777".to_string();
    for mode in [MONEROCHANProofMode::Core, MONEROCHANProofMode::Compressed, MONEROCHANProofMode::Plonk] {
        let b = create_mock_proof(mode, b"pv".to_vec(), "v1", &vk);
        let d = deserialize(&serialize(&b)).unwrap();
        assert_eq!(d.proof.proof_mode(), mode);
        assert_eq!(d.public_values, b"pv".to_vec());
    }
}

#[test]
fn malformed_bytes_are_refused() {
    let bytes = serialize(&core_bundle());
    let mut longer = bytes.clone();
    longer.push(0);
    assert!(deserialize(&longer).is_none());
    assert!(deserialize(&bytes[..bytes.len() - 1]).is_none());
    assert!(deserialize(&[]).is_none());
    let mut bad_tag = bytes.clone();
    bad_tag[0] = 9;
    assert!(deserialize(&bad_tag).is_none());
    let mut bad_flag = bytes.clone();
    // The completion flag of the first shard is word 24 of its public values.
    bad_flag[1 + 4 + 24 * 4] = 2;
    assert!(deserialize(&bad_flag).is_none());
    let mut bad_utf8 = bytes.clone();
    let n = bad_utf8.len();
    bad_utf8[n - 1] = 0xff;
    assert!(deserialize(&bad_utf8).is_none());
}
