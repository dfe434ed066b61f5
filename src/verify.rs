use vstd::prelude::*;

use crate::bundle::{MONEROCHANProof, MONEROCHANProofWithPublicValues, ShardProof};
use crate::codec::{
    bundle_model, dec_bundle, enc_bundle, fits, lemma_bundle_round_trip, lemma_fits_valid,
    lemma_pv_words_injective, shard_model,
};
use crate::digest::{committed_value_digest_bytes, limb_bytes};
use crate::hashing::{blake3_hash, blake3_of, sha256_hash, sha256_of};
use crate::public_values::{
    check_shard_chain, cycles_in, fold_chain, is_chain, lemma_chain_cycles, links, PublicValues,
};

verus! {

/// Why a proof bundle was rejected.
pub enum MONEROCHANVerificationError {
    /// The committed-value digest matches neither hash of the public values.
    InvalidPublicValues,
    /// The bundle was made by another version of the pipeline; holds the bundle's version.
    VersionMismatch(String),
    /// The shard proofs were rejected.
    Core(String),
    /// The compressed proof was rejected.
    Recursion(String),
    /// The Plonk proof was rejected.
    Plonk(String),
    /// The Groth16 proof was rejected.
    Groth16(String),
    /// Any other failure.
    Other(String),
}

/// The kind of a verification error, without its message.
#[derive(Clone, Copy, PartialEq, Eq, Structural, Debug)]
pub enum VerificationErrorKind {
    InvalidPublicValues,
    VersionMismatch,
    Core,
    Recursion,
    Plonk,
    Groth16,
    Other,
}

impl MONEROCHANVerificationError {
    pub open spec fn spec_kind(&self) -> VerificationErrorKind {
        match self {
            MONEROCHANVerificationError::InvalidPublicValues => VerificationErrorKind::InvalidPublicValues,
            MONEROCHANVerificationError::VersionMismatch(_) => VerificationErrorKind::VersionMismatch,
            MONEROCHANVerificationError::Core(_) => VerificationErrorKind::Core,
            MONEROCHANVerificationError::Recursion(_) => VerificationErrorKind::Recursion,
            MONEROCHANVerificationError::Plonk(_) => VerificationErrorKind::Plonk,
            MONEROCHANVerificationError::Groth16(_) => VerificationErrorKind::Groth16,
            MONEROCHANVerificationError::Other(_) => VerificationErrorKind::Other,
        }
    }

    /// The kind of the error.
    pub fn kind(&self) -> (r: VerificationErrorKind)
        ensures
            r == self.spec_kind(),
    {
        match self {
            MONEROCHANVerificationError::InvalidPublicValues => VerificationErrorKind::InvalidPublicValues,
            MONEROCHANVerificationError::VersionMismatch(_) => VerificationErrorKind::VersionMismatch,
            MONEROCHANVerificationError::Core(_) => VerificationErrorKind::Core,
            MONEROCHANVerificationError::Recursion(_) => VerificationErrorKind::Recursion,
            MONEROCHANVerificationError::Plonk(_) => VerificationErrorKind::Plonk,
            MONEROCHANVerificationError::Groth16(_) => VerificationErrorKind::Groth16,
            MONEROCHANVerificationError::Other(_) => VerificationErrorKind::Other,
        }
    }
}

/// The public values of each shard proof, in order.
pub open spec fn shard_values(shards: Seq<ShardProof>) -> Seq<PublicValues> {
    Seq::new(shards.len(), |i: int| shards[i].public_values)
}

/// The commitment bytes agree with the SHA-256 or with the BLAKE3 digest of the public values.
pub open spec fn commitment_matches(commitment: Seq<u8>, public_values: Seq<u8>) -> bool {
    commitment == sha256_of(public_values) || commitment == blake3_of(public_values)
}

/// The verdict on a bundle for the pipeline at `version`, given whether the mode's
/// cryptographic verifier accepts the proof: `None` to accept, else the kind of error.
pub open spec fn verdict(
    version: Seq<char>,
    bundle: MONEROCHANProofWithPublicValues,
    backend_accepts: bool,
) -> Option<VerificationErrorKind> {
    if bundle.monerochan_version@ != version {
        Some(VerificationErrorKind::VersionMismatch)
    } else {
        match bundle.proof {
            MONEROCHANProof::Core(shards) => {
                if shards@.len() == 0 {
                    Some(VerificationErrorKind::Core)
                } else if !commitment_matches(
                    limb_bytes(shards@.last().public_values.committed_value_digest@),
                    bundle.public_values@,
                ) {
                    Some(VerificationErrorKind::InvalidPublicValues)
                } else if !is_chain(shard_values(shards@)) || !backend_accepts {
                    Some(VerificationErrorKind::Core)
                } else {
                    None
                }
            },
            MONEROCHANProof::Compressed(proof) => {
                if !commitment_matches(
                    limb_bytes(proof.public_values.committed_value_digest@),
                    bundle.public_values@,
                ) {
                    Some(VerificationErrorKind::InvalidPublicValues)
                } else if !backend_accepts {
                    Some(VerificationErrorKind::Recursion)
                } else {
                    None
                }
            },
            MONEROCHANProof::Plonk(_) => {
                if backend_accepts {
                    None
                } else {
                    Some(VerificationErrorKind::Plonk)
                }
            },
            MONEROCHANProof::Groth16(_) => {
                if backend_accepts {
                    None
                } else {
                    Some(VerificationErrorKind::Groth16)
                }
            },
        }
    }
}

/// Compares two byte strings.
pub fn bytes_eq(a: &[u8], b: &[u8]) -> (r: bool)
    ensures
        r == (a@ == b@),
{
    if a.len() != b.len() {
        return false;
    }
    let mut i: usize = 0;
    while i < a.len()
        invariant
            a@.len() == b@.len(),
            i <= a@.len(),
            forall|k: int| 0 <= k < i ==> a@[k] == b@[k],
        decreases a@.len() - i,
    {
        if a[i] != b[i] {
            return false;
        }
        i = i + 1;
    }
    assert(a@ =~= b@);
    true
}

/// Checks the commitment bytes against both digests of the public values.
pub fn check_commitment(commitment: &[u8], public_values: &[u8]) -> (r: bool)
    ensures
        r == commitment_matches(commitment@, public_values@),
{
    let sha = sha256_hash(public_values);
    if bytes_eq(commitment, sha.as_slice()) {
        return true;
    }
    let blake = blake3_hash(public_values);
    bytes_eq(commitment, blake.as_slice())
}

/// The kind under which a mode's cryptographic verifier files its rejections.
pub open spec fn backend_kind(tagged: MONEROCHANProof) -> VerificationErrorKind {
    match tagged {
        MONEROCHANProof::Core(_) => VerificationErrorKind::Core,
        MONEROCHANProof::Compressed(_) => VerificationErrorKind::Recursion,
        MONEROCHANProof::Plonk(_) => VerificationErrorKind::Plonk,
        MONEROCHANProof::Groth16(_) => VerificationErrorKind::Groth16,
    }
}

/// Takes the error a mode's cryptographic verifier reported and files it under that mode.
fn backend_error(tagged: &MONEROCHANProof, message: String) -> (r: MONEROCHANVerificationError)
    ensures
        r.spec_kind() == backend_kind(*tagged),
{
    match tagged {
        MONEROCHANProof::Core(_) => MONEROCHANVerificationError::Core(message),
        MONEROCHANProof::Compressed(_) => MONEROCHANVerificationError::Recursion(message),
        MONEROCHANProof::Plonk(_) => MONEROCHANVerificationError::Plonk(message),
        MONEROCHANProof::Groth16(_) => MONEROCHANVerificationError::Groth16(message),
    }
}

/// Verifies a bundle for the pipeline at `version`. The version is checked first. For STARK
/// modes, the committed-value digest of the last shard, or that of the compressed STARK, must
/// equal the SHA-256 or the BLAKE3 digest of the public values, and the shards must form one
/// run. Last comes `backend`, the answer of the mode's cryptographic verifier, which is filed
/// under the mode when it rejects.
pub fn verify_proof(
    version: &str,
    bundle: &MONEROCHANProofWithPublicValues,
    backend: Result<(), String>,
) -> (r: Result<(), MONEROCHANVerificationError>)
    ensures
        r.is_ok() == verdict(version@, *bundle, backend.is_ok()).is_none(),
        r.is_err() ==> verdict(version@, *bundle, backend.is_ok()) == Some(
            r->Err_0.spec_kind(),
        ),
        r matches Err(MONEROCHANVerificationError::VersionMismatch(v)) ==> v@
            == bundle.monerochan_version@,
{
    let current: String = version.to_owned();
    if bundle.monerochan_version != current {
        return Err(MONEROCHANVerificationError::VersionMismatch(bundle.monerochan_version.clone()));
    }
    let tagged = &bundle.proof;
    match tagged {
        MONEROCHANProof::Core(shards) => {
            if shards.len() == 0 {
                return Err(MONEROCHANVerificationError::Core("the proof holds no shard".to_owned()));
            }
            let digest = committed_value_digest_bytes(
                &shards[shards.len() - 1].public_values.committed_value_digest,
            );
            if !check_commitment(digest.as_slice(), bundle.public_values.as_slice()) {
                return Err(MONEROCHANVerificationError::InvalidPublicValues);
            }
            let mut values: Vec<PublicValues> = Vec::new();
            let mut i: usize = 0;
            while i < shards.len()
                invariant
                    i <= shards@.len(),
                    values@ =~= shard_values(shards@).take(i as int),
                decreases shards@.len() - i,
            {
                values.push(shards[i].public_values);
                i = i + 1;
            }
            assert(values@ =~= shard_values(shards@));
            if check_shard_chain(&values).is_err() {
                return Err(
                    MONEROCHANVerificationError::Core("the shards do not form one run".to_owned()),
                );
            }
        },
        MONEROCHANProof::Compressed(proof) => {
            let digest = committed_value_digest_bytes(&proof.public_values.committed_value_digest);
            if !check_commitment(digest.as_slice(), bundle.public_values.as_slice()) {
                return Err(MONEROCHANVerificationError::InvalidPublicValues);
            }
        },
        _ => {},
    }
    match backend {
        Ok(()) => Ok(()),
        Err(message) => Err(backend_error(&bundle.proof, message)),
    }
}

/// A bundle made by another version is rejected as such, whatever else it holds.
pub proof fn lemma_version_gate(
    version: Seq<char>,
    bundle: MONEROCHANProofWithPublicValues,
    backend_accepts: bool,
)
    requires
        bundle.monerochan_version@ != version,
    ensures
        verdict(version, bundle, backend_accepts) == Some(VerificationErrorKind::VersionMismatch),
{
}

/// The commitment of a STARK-mode bundle is accepted when it matches the SHA-256 digest of the
/// public values, or the BLAKE3 digest; when it matches neither, the bundle is rejected for its
/// public values, whatever the cryptographic verifier says.
pub proof fn lemma_dual_hash(
    version: Seq<char>,
    bundle: MONEROCHANProofWithPublicValues,
    backend_accepts: bool,
    commitment: Seq<u8>,
)
    requires
        bundle.monerochan_version@ == version,
        match bundle.proof {
            MONEROCHANProof::Core(shards) => shards@.len() > 0 && commitment == limb_bytes(
                shards@.last().public_values.committed_value_digest@,
            ),
            MONEROCHANProof::Compressed(p) => commitment == limb_bytes(
                p.public_values.committed_value_digest@,
            ),
            _ => false,
        },
    ensures
        commitment == sha256_of(bundle.public_values@) ==> verdict(version, bundle, backend_accepts)
            != Some(VerificationErrorKind::InvalidPublicValues),
        commitment == blake3_of(bundle.public_values@) ==> verdict(version, bundle, backend_accepts)
            != Some(VerificationErrorKind::InvalidPublicValues),
        commitment != sha256_of(bundle.public_values@) && commitment != blake3_of(
            bundle.public_values@,
        ) ==> verdict(version, bundle, backend_accepts) == Some(
            VerificationErrorKind::InvalidPublicValues,
        ),
{
}

/// Bundles that hold the same values get the same verdict.
pub proof fn lemma_same_values_same_verdict(
    b1: MONEROCHANProofWithPublicValues,
    b2: MONEROCHANProofWithPublicValues,
    version: Seq<char>,
    backend_accepts: bool,
)
    requires
        bundle_model(b1) == bundle_model(b2),
    ensures
        verdict(version, b1, backend_accepts) == verdict(version, b2, backend_accepts),
{
    match (b1.proof, b2.proof) {
        (MONEROCHANProof::Core(v1), MONEROCHANProof::Core(v2)) => {
            let m1 = Seq::new(v1@.len(), |i: int| shard_model(v1@[i]));
            let m2 = Seq::new(v2@.len(), |i: int| shard_model(v2@[i]));
            assert(m1 == m2);
            assert(v1@.len() == v2@.len());
            assert forall|i: int| 0 <= i < v1@.len() implies v1@[i].public_values
                == v2@[i].public_values by {
                assert(m1[i] == m2[i]);
                lemma_pv_words_injective(v1@[i].public_values, v2@[i].public_values);
            }
            assert(shard_values(v1@) =~= shard_values(v2@));
        },
        (MONEROCHANProof::Compressed(r1), MONEROCHANProof::Compressed(r2)) => {
            lemma_pv_words_injective(r1.public_values, r2.public_values);
        },
        _ => {},
    }
}

/// Writing a bundle and reading it back gives a bundle with the same values, field for field,
/// and the same verdict.
pub proof fn lemma_round_trip(
    b: MONEROCHANProofWithPublicValues,
    d: MONEROCHANProofWithPublicValues,
    version: Seq<char>,
    backend_accepts: bool,
)
    requires
        fits(b),
        dec_bundle(enc_bundle(bundle_model(b))) == Some(bundle_model(d)),
    ensures
        bundle_model(d) == bundle_model(b),
        d.public_values@ == b.public_values@,
        d.monerochan_version@ == b.monerochan_version@,
        verdict(version, d, backend_accepts) == verdict(version, b, backend_accepts),
{
    lemma_fits_valid(b);
    lemma_bundle_round_trip(bundle_model(b));
    lemma_same_values_same_verdict(d, b, version, backend_accepts);
}

/// Shards accepted as a core proof form one run: each ends where the next starts, only the
/// last may complete the program, the run taken whole is complete exactly when its last shard
/// is, and its cycles are those of its shards added up.
pub proof fn lemma_accepted_shards_form_one_run(
    version: Seq<char>,
    bundle: MONEROCHANProofWithPublicValues,
    backend_accepts: bool,
    vk_root: crate::digest::Digest,
)
    requires
        bundle.proof is Core,
        verdict(version, bundle, backend_accepts) is None,
    ensures
        ({
            let s = shard_values(bundle.proof->Core_0@);
            &&& s.len() > 0
            &&& forall|i: int|
                0 <= i < s.len() - 1 ==> s[i].end == s[i + 1].start && !s[i].is_complete
            &&& fold_chain(s, vk_root).is_complete == s.last().is_complete
            &&& cycles_in(s) == s.last().end.cycles - s[0].start.cycles
        }),
{
    let s = shard_values(bundle.proof->Core_0@);
    assert forall|i: int| 0 <= i < s.len() - 1 implies s[i].end == s[i + 1].start
        && !s[i].is_complete by {
        assert(links(s[i], s[i + 1]));
    }
    lemma_chain_cycles(s);
}

} // verus!
