use vstd::prelude::*;

use crate::digest::Digest;
use crate::public_values::PublicValues;

verus! {

/// How far along the pipeline a proof has travelled; later modes are more compact.
#[derive(Clone, Copy, PartialEq, Eq, Structural, Debug)]
pub enum MONEROCHANProofMode {
    Core,
    Compressed,
    Plonk,
    Groth16,
}

impl MONEROCHANProofMode {
    /// The place of the mode in the order of compactness.
    pub open spec fn rank(self) -> nat {
        match self {
            MONEROCHANProofMode::Core => 0,
            MONEROCHANProofMode::Compressed => 1,
            MONEROCHANProofMode::Plonk => 2,
            MONEROCHANProofMode::Groth16 => 2,
        }
    }
}

/// The STARK proof of one shard, with the public values it proves.
pub struct ShardProof {
    pub public_values: PublicValues,
    /// The proof itself, opaque to this library.
    pub stark_proof: Vec<u8>,
}

/// A recursive proof that stands for a whole execution, with the digest of its verifying key.
pub struct ReduceProof {
    pub vk_digest: Digest,
    pub public_values: PublicValues,
    /// The proof itself, opaque to this library.
    pub stark_proof: Vec<u8>,
}

/// A pairing-based SNARK wrapping the final STARK proof.
pub struct SnarkProof {
    /// The verifying-key input and the public-values input of the outer circuit, in decimal.
    pub public_inputs: [String; 2],
    pub encoded_proof: String,
    pub raw_proof: String,
    pub vkey_hash: [u8; 32],
}

/// A proof tagged by its mode.
pub enum MONEROCHANProof {
    Core(Vec<ShardProof>),
    Compressed(ReduceProof),
    Plonk(SnarkProof),
    Groth16(SnarkProof),
}

impl MONEROCHANProof {
    pub open spec fn mode(&self) -> MONEROCHANProofMode {
        match self {
            MONEROCHANProof::Core(_) => MONEROCHANProofMode::Core,
            MONEROCHANProof::Compressed(_) => MONEROCHANProofMode::Compressed,
            MONEROCHANProof::Plonk(_) => MONEROCHANProofMode::Plonk,
            MONEROCHANProof::Groth16(_) => MONEROCHANProofMode::Groth16,
        }
    }

    /// The mode the proof is tagged with.
    pub fn proof_mode(&self) -> (r: MONEROCHANProofMode)
        ensures
            r == self.mode(),
    {
        match self {
            MONEROCHANProof::Core(_) => MONEROCHANProofMode::Core,
            MONEROCHANProof::Compressed(_) => MONEROCHANProofMode::Compressed,
            MONEROCHANProof::Plonk(_) => MONEROCHANProofMode::Plonk,
            MONEROCHANProof::Groth16(_) => MONEROCHANProofMode::Groth16,
        }
    }
}

/// The final artifact: a proof, the public values it commits to, and the version of the
/// pipeline that produced it.
pub struct MONEROCHANProofWithPublicValues {
    pub proof: MONEROCHANProof,
    pub public_values: Vec<u8>,
    pub monerochan_version: String,
}

} // verus!
