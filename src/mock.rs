use vstd::prelude::*;

use crate::aggregate::{blank_public_values, is_blank};
use crate::bundle::{
    MONEROCHANProof, MONEROCHANProofMode, MONEROCHANProofWithPublicValues, ReduceProof, ShardProof,
    SnarkProof,
};
use crate::digest::zero_digest;
use crate::hashing::{bn254_input_of, bn254_public_values_input};
use crate::verify::{verdict, MONEROCHANVerificationError, VerificationErrorKind};

verus! {

/// A mock proof of `mode`: it has the shape of a real one and proves nothing.
pub open spec fn is_mock_of(
    bundle: MONEROCHANProofWithPublicValues,
    mode: MONEROCHANProofMode,
    public_values: Seq<u8>,
    version: Seq<char>,
    vk_input: Seq<char>,
) -> bool {
    &&& bundle.proof.mode() == mode
    &&& bundle.public_values@ == public_values
    &&& bundle.monerochan_version@ == version
    &&& match bundle.proof {
        MONEROCHANProof::Core(shards) => shards@.len() == 0,
        MONEROCHANProof::Compressed(p) => is_blank(p.public_values) && p.stark_proof@.len() == 0,
        MONEROCHANProof::Plonk(p) => mock_snark(p, public_values, vk_input),
        MONEROCHANProof::Groth16(p) => mock_snark(p, public_values, vk_input),
    }
}

/// A SNARK with the right public inputs and an empty proof.
pub open spec fn mock_snark(p: SnarkProof, public_values: Seq<u8>, vk_input: Seq<char>) -> bool {
    &&& p.public_inputs[0]@ == vk_input
    &&& p.public_inputs[1]@ == bn254_input_of(public_values)
    &&& p.encoded_proof@.len() == 0
    &&& p.raw_proof@.len() == 0
}

/// The SNARK's public inputs are the verifying-key input and the public-values input.
pub open spec fn inputs_match(p: SnarkProof, public_values: Seq<u8>, vk_input: Seq<char>) -> bool {
    &&& p.public_inputs[0]@ == vk_input
    &&& p.public_inputs[1]@ == bn254_input_of(public_values)
}

/// What the mock verifier says of a bundle: a bundle of another version is rejected first, as by
/// the real verifier; then SNARK modes must carry the right public inputs, and STARK modes pass.
pub open spec fn mock_verdict(
    bundle: MONEROCHANProofWithPublicValues,
    version: Seq<char>,
    vk_input: Seq<char>,
) -> Option<VerificationErrorKind> {
    if bundle.monerochan_version@ != version {
        Some(VerificationErrorKind::VersionMismatch)
    } else {
        match bundle.proof {
        MONEROCHANProof::Plonk(p) => if inputs_match(p, bundle.public_values@, vk_input) {
            None
        } else {
            Some(VerificationErrorKind::Plonk)
        },
        MONEROCHANProof::Groth16(p) => if inputs_match(p, bundle.public_values@, vk_input) {
            None
        } else {
            Some(VerificationErrorKind::Groth16)
        },
        _ => None,
        }
    }
}

fn mock_snark_proof(public_values: &Vec<u8>, vk_input: &String) -> (r: SnarkProof)
    ensures
        mock_snark(r, public_values@, vk_input@),
{
    let pv_input = bn254_public_values_input(public_values.as_slice());
    SnarkProof {
        public_inputs: [vk_input.clone(), pv_input],
        encoded_proof: String::new(),
        raw_proof: String::new(),
        vkey_hash: [0u8; 32],
    }
}

/// Makes a mock proof of `mode` over `public_values`: an empty list of shards, a blank
/// compressed proof, or a SNARK with the right public inputs and no proof. `vk_input` is the
/// verifying-key input of the outer circuits.
pub fn create_mock_proof(
    mode: MONEROCHANProofMode,
    public_values: Vec<u8>,
    version: &str,
    vk_input: &String,
) -> (r: MONEROCHANProofWithPublicValues)
    ensures
        is_mock_of(r, mode, public_values@, version@, vk_input@),
{
    let tagged = match mode {
        MONEROCHANProofMode::Core => MONEROCHANProof::Core(Vec::new()),
        MONEROCHANProofMode::Compressed => MONEROCHANProof::Compressed(
            ReduceProof { vk_digest: zero_digest(), public_values: blank_public_values(), stark_proof: Vec::new() },
        ),
        MONEROCHANProofMode::Plonk => MONEROCHANProof::Plonk(mock_snark_proof(&public_values, vk_input)),
        MONEROCHANProofMode::Groth16 => MONEROCHANProof::Groth16(
            mock_snark_proof(&public_values, vk_input),
        ),
    };
    MONEROCHANProofWithPublicValues {
        proof: tagged,
        public_values,
        monerochan_version: version.to_owned(),
    }
}

fn snark_inputs_match(p: &SnarkProof, public_values: &Vec<u8>, vk_input: &String) -> (r: bool)
    ensures
        r == inputs_match(*p, public_values@, vk_input@),
{
    let pv_input = bn254_public_values_input(public_values.as_slice());
    p.public_inputs[0] == *vk_input && p.public_inputs[1] == pv_input
}

/// Verifies a mock proof for the pipeline at `version`: the version is checked first, then a
/// SNARK must carry the verifying-key input `vk_input` and the public-values input of the bundle;
/// other modes pass.
pub fn mock_verify(
    version: &str,
    bundle: &MONEROCHANProofWithPublicValues,
    vk_input: &String,
) -> (r: Result<(), MONEROCHANVerificationError>)
    ensures
        r.is_ok() == mock_verdict(*bundle, version@, vk_input@).is_none(),
        r.is_err() ==> mock_verdict(*bundle, version@, vk_input@) == Some(r->Err_0.spec_kind()),
        bundle.monerochan_version@ != version@ ==> (r matches Err(
            MONEROCHANVerificationError::VersionMismatch(_),
        )),
        r matches Err(MONEROCHANVerificationError::VersionMismatch(v)) ==> v@
            == bundle.monerochan_version@,
{
    let current: String = version.to_owned();
    if bundle.monerochan_version != current {
        return Err(MONEROCHANVerificationError::VersionMismatch(bundle.monerochan_version.clone()));
    }
    let tagged = &bundle.proof;
    match tagged {
        MONEROCHANProof::Plonk(p) => {
            if snark_inputs_match(p, &bundle.public_values, vk_input) {
                Ok(())
            } else {
                Err(MONEROCHANVerificationError::Plonk("public inputs do not match".to_owned()))
            }
        },
        MONEROCHANProof::Groth16(p) => {
            if snark_inputs_match(p, &bundle.public_values, vk_input) {
                Ok(())
            } else {
                Err(MONEROCHANVerificationError::Groth16("public inputs do not match".to_owned()))
            }
        },
        _ => Ok(()),
    }
}

/// A mock proof passes the mock verifier of its own version made with the same verifying-key
/// input.
pub proof fn lemma_mock_proof_passes_mock_verifier(
    bundle: MONEROCHANProofWithPublicValues,
    mode: MONEROCHANProofMode,
    public_values: Seq<u8>,
    version: Seq<char>,
    vk_input: Seq<char>,
)
    requires
        is_mock_of(bundle, mode, public_values, version, vk_input),
    ensures
        mock_verdict(bundle, version, vk_input) is None,
{
}

/// The real verifier never accepts a mock proof of shards, whatever the backend answers.
pub proof fn lemma_mock_core_rejected(
    bundle: MONEROCHANProofWithPublicValues,
    public_values: Seq<u8>,
    version: Seq<char>,
    vk_input: Seq<char>,
    current: Seq<char>,
    backend_accepts: bool,
)
    requires
        is_mock_of(bundle, MONEROCHANProofMode::Core, public_values, version, vk_input),
    ensures
        verdict(current, bundle, backend_accepts) is Some,
{
}

/// The mock verifier gates on the version as the real one does: a bundle of another version is
/// rejected as such, whatever else it holds.
pub proof fn lemma_mock_version_gate(
    bundle: MONEROCHANProofWithPublicValues,
    version: Seq<char>,
    vk_input: Seq<char>,
)
    requires
        bundle.monerochan_version@ != version,
    ensures
        mock_verdict(bundle, version, vk_input) == Some(VerificationErrorKind::VersionMismatch),
{
}

} // verus!
