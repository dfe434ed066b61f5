use vstd::prelude::*;

use crate::bundle::ReduceProof;
use crate::digest::{digest_eq, words_le_byte, words_to_bytes, Digest};

verus! {

/// Checks a deferred proof when the guest program asks for its verification during
/// execution. Implementations decide how much to check; the aggregation step enforces the
/// proof cryptographically either way.
pub trait SubproofVerifier {
    fn verify_deferred_proof(
        &self,
        proof: &ReduceProof,
        vk_hash: [u32; 8],
        committed_value_digest: [u32; 8],
    ) -> Result<(), DeferredProofError>;
}

/// Why a deferred proof was turned down at execution time.
pub enum DeferredProofError {
    /// The proof was made under another verifying key than the one the program names.
    VkHashMismatch,
    /// The proof commits to other values than the program expects.
    DigestMismatch,
}

/// A verifier that accepts every deferred proof, for runs that trust them.
pub struct NoOpSubproofVerifier;

impl SubproofVerifier for NoOpSubproofVerifier {
    fn verify_deferred_proof(
        &self,
        proof: &ReduceProof,
        vk_hash: [u32; 8],
        committed_value_digest: [u32; 8],
    ) -> (r: Result<(), DeferredProofError>)
        ensures
            r is Ok,
    {
        Ok(())
    }
}

/// The proof's claims are the ones the program names: its verifying-key digest is `vk_hash`,
/// and each limb of its committed-value digest is the matching little-endian byte of the
/// program's digest words.
pub open spec fn claims_match(proof: ReduceProof, vk_hash: Digest, committed_value_digest: [u32; 8]) -> bool {
    &&& proof.vk_digest == vk_hash
    &&& forall|k: int|
        0 <= k < 32 ==> proof.public_values.committed_value_digest[k] == words_le_byte(
            committed_value_digest@,
            k,
        ) as u32
}

/// Checks the claims of a deferred proof: the verifying key first, then the committed values.
pub fn check_deferred_claims(
    proof: &ReduceProof,
    vk_hash: &Digest,
    committed_value_digest: &[u32; 8],
) -> (r: Result<(), DeferredProofError>)
    ensures
        r.is_ok() == claims_match(*proof, *vk_hash, *committed_value_digest),
        (r matches Err(DeferredProofError::VkHashMismatch)) <==> proof.vk_digest != *vk_hash,
{
    if !digest_eq(&proof.vk_digest, vk_hash) {
        return Err(DeferredProofError::VkHashMismatch);
    }
    let bytes = words_to_bytes(committed_value_digest);
    let mut k: usize = 0;
    while k < 32
        invariant
            k <= 32,
            proof.vk_digest == *vk_hash,
            forall|t: int| 0 <= t < 32 ==> bytes@[t] == words_le_byte(committed_value_digest@, t),
            forall|t: int|
                0 <= t < k ==> proof.public_values.committed_value_digest[t] == words_le_byte(
                    committed_value_digest@,
                    t,
                ) as u32,
        decreases 32 - k,
    {
        if proof.public_values.committed_value_digest[k] != bytes[k] as u32 {
            return Err(DeferredProofError::DigestMismatch);
        }
        k = k + 1;
    }
    Ok(())
}

/// A verifier that checks the claims of each deferred proof against what the program names.
pub struct ClaimCheckingSubproofVerifier;

impl SubproofVerifier for ClaimCheckingSubproofVerifier {
    fn verify_deferred_proof(
        &self,
        proof: &ReduceProof,
        vk_hash: [u32; 8],
        committed_value_digest: [u32; 8],
    ) -> (r: Result<(), DeferredProofError>)
        ensures
            r.is_ok() == claims_match(*proof, vk_hash, committed_value_digest),
            (r matches Err(DeferredProofError::VkHashMismatch)) <==> proof.vk_digest != vk_hash,
    {
        check_deferred_claims(proof, &vk_hash, &committed_value_digest)
    }
}

} // verus!
