use vstd::prelude::*;

use crate::digest::{is_zero_digest, zero_digest, Digest};
use crate::merkle::{MONEROCHANMerkleProofVerifier, MONEROCHANMerkleProofWitnessValues};
use crate::public_values::{
    cycles_in, fold_chain, is_chain, lemma_chain_cycles, links, state_eq, ExecutionState,
    PublicValues,
};

verus! {

/// A proof handed to an aggregation step, as the step sees it.
#[derive(Clone, Copy)]
pub struct InnerProof {
    pub public_values: PublicValues,
    /// The log2 of the proof's trace height: what fixes its place in the circuit's shape.
    pub log_trace_height: u32,
    /// A padding placeholder rather than a real proof.
    pub is_dummy: bool,
}

/// One entry of a batch: the digest of the verifying key and the proof checked against it.
#[derive(Clone, Copy)]
pub struct VkAndProof {
    pub vk_digest: Digest,
    pub proof: InnerProof,
}

/// The input of one aggregation step.
pub struct MONEROCHANCompressWitnessValues {
    pub vks_and_proofs: Vec<VkAndProof>,
    /// The claim that the batch ends the program.
    pub is_complete: bool,
}

/// The input of one aggregation step whose verifying keys are checked against a registry.
pub struct MONEROCHANCompressWithVKeyWitnessValues {
    pub compress_val: MONEROCHANCompressWitnessValues,
    pub merkle_val: MONEROCHANMerkleProofWitnessValues,
}

/// The public values of the real entries of a batch, in order; padding is left out.
pub open spec fn real_values(entries: Seq<VkAndProof>) -> Seq<PublicValues>
    decreases entries.len(),
{
    if entries.len() == 0 {
        Seq::empty()
    } else {
        let rest = real_values(entries.drop_last());
        if entries.last().proof.is_dummy {
            rest
        } else {
            rest.push(entries.last().proof.public_values)
        }
    }
}

/// The verifying-key digests of a batch, in order.
pub open spec fn vk_digests(entries: Seq<VkAndProof>) -> Seq<Digest> {
    Seq::new(entries.len(), |i: int| entries[i].vk_digest)
}

/// Why an aggregation step rejects its input.
pub enum AggregationError {
    /// No entry of the batch is a real proof.
    EmptyBatch,
    /// A real proof does not continue the run of the real proof before it.
    BrokenChain,
    /// The batch's completion claim differs from the completion flag of its last real proof.
    CompletenessMismatch,
    /// The root step was given a batch that does not end the program.
    NotComplete,
    /// A verifying key is not shown to be in the registry.
    VkeyNotAuthorized,
}

/// What one aggregation step yields on a batch, checked against `vk_root`.
pub open spec fn compress_outcome(w: MONEROCHANCompressWitnessValues, vk_root: Digest) -> Result<
    PublicValues,
    AggregationError,
> {
    let s = real_values(w.vks_and_proofs@);
    if s.len() == 0 {
        Err(AggregationError::EmptyBatch)
    } else if !is_chain(s) {
        Err(AggregationError::BrokenChain)
    } else if w.is_complete != s.last().is_complete {
        Err(AggregationError::CompletenessMismatch)
    } else {
        Ok(fold_chain(s, vk_root))
    }
}

/// What a step with registry checks yields: the keys first, then the batch against the root.
pub open spec fn with_vkey_outcome(w: MONEROCHANCompressWithVKeyWitnessValues, value_assertions: bool) -> Result<
    PublicValues,
    AggregationError,
> {
    if !MONEROCHANMerkleProofVerifier::accepts(
        vk_digests(w.compress_val.vks_and_proofs@),
        w.merkle_val,
        value_assertions,
    ) {
        Err(AggregationError::VkeyNotAuthorized)
    } else {
        compress_outcome(w.compress_val, w.merkle_val.root)
    }
}

proof fn lemma_real_values_step(entries: Seq<VkAndProof>, i: int)
    requires
        0 <= i < entries.len(),
    ensures
        real_values(entries.take(i + 1)) == if entries[i].proof.is_dummy {
            real_values(entries.take(i))
        } else {
            real_values(entries.take(i)).push(entries[i].proof.public_values)
        },
{
    assert(entries.take(i + 1).drop_last() =~= entries.take(i));
}

/// Folds the public values of a batch: the real proofs must form one run, and the output runs
/// from the first real proof's start to the last one's end, carrying `vk_root`. That each inner
/// proof holds under its verifying key is the business of the recursion proof system.
pub struct MONEROCHANCompressVerifier;

impl MONEROCHANCompressVerifier {
    /// Folds the real entries of `input` in order; padding entries take no part.
    pub fn verify(input: &MONEROCHANCompressWitnessValues, vk_root: &Digest) -> (r: Result<
        PublicValues,
        AggregationError,
    >)
        ensures
            r == compress_outcome(*input, *vk_root),
    {
        let entries = &input.vks_and_proofs;
        let ghost all = entries@;
        let mut first: Option<ExecutionState> = None;
        let mut last: Option<PublicValues> = None;
        let mut i: usize = 0;
        assert(all.take(0) =~= Seq::<VkAndProof>::empty());
        while i < entries.len()
            invariant
                all == entries@,
                all == input.vks_and_proofs@,
                i <= all.len(),
                ({
                    let s = real_values(all.take(i as int));
                    &&& s.len() == 0 <==> last is None
                    &&& first is None <==> last is None
                    &&& s.len() > 0 ==> first == Some(s[0].start) && last == Some(s.last())
                    &&& is_chain(s)
                }),
            decreases all.len() - i,
        {
            let e = entries[i];
            proof {
                lemma_real_values_step(all, i as int);
            }
            if !e.proof.is_dummy {
                let pv = e.proof.public_values;
                match last {
                    None => {
                        first = Some(pv.start);
                    },
                    Some(prev) => {
                        if !state_eq(&prev.end, &pv.start) || prev.is_complete {
                            proof {
                                let s = real_values(all.take(i as int));
                                let t = real_values(all.take(i + 1));
                                lemma_real_prefix(all, i + 1);
                                let k = s.len() - 1;
                                assert(t =~= s.push(pv));
                                assert(t.len() == k + 2);
                                assert(t[k] == prev && t[k + 1] == pv);
                                let whole = real_values(all);
                                assert(whole[k] == t[k] && whole[k + 1] == t[k + 1]);
                                assert(!links(whole[k], whole[k + 1]));
                                assert(!is_chain(whole));
                                assert(all.take(all.len() as int) =~= all);
                            }
                            return Err(AggregationError::BrokenChain);
                        }
                    },
                }
                last = Some(pv);
            }
            proof {
                let s = real_values(all.take(i as int));
                let t = real_values(all.take(i + 1));
                if !e.proof.is_dummy && s.len() > 0 {
                    assert forall|k: int| 0 <= k < t.len() - 1 implies #[trigger] links(t[k], t[k + 1]) by {
                        if k < s.len() - 1 {
                            assert(links(s[k], s[k + 1]));
                        }
                    }
                }
            }
            i = i + 1;
        }
        assert(all.take(all.len() as int) =~= all);
        match last {
            None => Err(AggregationError::EmptyBatch),
            Some(pv) => {
                if input.is_complete != pv.is_complete {
                    Err(AggregationError::CompletenessMismatch)
                } else {
                    let start = match first {
                        Some(st) => st,
                        None => pv.start,
                    };
                    Ok(
                        PublicValues {
                            start,
                            end: pv.end,
                            is_complete: pv.is_complete,
                            committed_value_digest: pv.committed_value_digest,
                            vk_root: *vk_root,
                        },
                    )
                }
            },
        }
    }
}

/// The real values of a prefix of a batch are a prefix of the batch's real values.
proof fn lemma_real_prefix(entries: Seq<VkAndProof>, j: int)
    requires
        0 <= j <= entries.len(),
    ensures
        real_values(entries.take(j)).len() <= real_values(entries).len(),
        forall|k: int|
            0 <= k < real_values(entries.take(j)).len() ==> real_values(entries.take(j))[k]
                == real_values(entries)[k],
    decreases entries.len(),
{
    if j == entries.len() {
        assert(entries.take(j) =~= entries);
    } else {
        let d = entries.drop_last();
        assert(entries.take(j) =~= d.take(j));
        lemma_real_prefix(d, j);
    }
}

/// Adds registry checks to an aggregation step: every verifying key of the batch must be
/// opened in the registry, and the registry root is carried into the output.
pub struct MONEROCHANCompressWithVKeyVerifier;

impl MONEROCHANCompressWithVKeyVerifier {
    /// Checks the batch's keys against the registry witness, then folds the batch under the
    /// registry root.
    pub fn verify(input: &MONEROCHANCompressWithVKeyWitnessValues, value_assertions: bool) -> (r:
        Result<PublicValues, AggregationError>)
        ensures
            r == with_vkey_outcome(*input, value_assertions),
    {
        let entries = &input.compress_val.vks_and_proofs;
        let mut digests: Vec<Digest> = Vec::new();
        let mut i: usize = 0;
        while i < entries.len()
            invariant
                i <= entries@.len(),
                entries@ == input.compress_val.vks_and_proofs@,
                digests@ =~= vk_digests(entries@).take(i as int),
            decreases entries@.len() - i,
        {
            digests.push(entries[i].vk_digest);
            i = i + 1;
        }
        assert(digests@ =~= vk_digests(entries@));
        match MONEROCHANMerkleProofVerifier::verify(&digests, &input.merkle_val, value_assertions) {
            Err(_) => Err(AggregationError::VkeyNotAuthorized),
            Ok(()) => MONEROCHANCompressVerifier::verify(&input.compress_val, &input.merkle_val.root),
        }
    }
}

/// What the root step yields without registry checks.
pub open spec fn root_outcome(w: MONEROCHANCompressWitnessValues, vk_root: Digest) -> Result<
    PublicValues,
    AggregationError,
> {
    if !w.is_complete {
        Err(AggregationError::NotComplete)
    } else {
        compress_outcome(w, vk_root)
    }
}

/// What the root step yields with registry checks. Its output stands for a whole execution, so
/// the padding mode, which binds no key to the registry, is refused there.
pub open spec fn root_with_vkey_outcome(w: MONEROCHANCompressWithVKeyWitnessValues, value_assertions: bool) -> Result<
    PublicValues,
    AggregationError,
> {
    if !value_assertions {
        Err(AggregationError::VkeyNotAuthorized)
    } else if !w.compress_val.is_complete {
        Err(AggregationError::NotComplete)
    } else {
        with_vkey_outcome(w, value_assertions)
    }
}

/// The last step of the aggregation tree: an aggregation step that also demands that the batch
/// ends the program.
pub struct MONEROCHANCompressRootVerifier;

impl MONEROCHANCompressRootVerifier {
    /// Rejects a batch that does not claim to end the program, then folds it.
    pub fn verify(input: &MONEROCHANCompressWitnessValues, vk_root: &Digest) -> (r: Result<
        PublicValues,
        AggregationError,
    >)
        ensures
            r == root_outcome(*input, *vk_root),
    {
        if !input.is_complete {
            return Err(AggregationError::NotComplete);
        }
        MONEROCHANCompressVerifier::verify(input, vk_root)
    }
}

/// The root step with registry checks.
pub struct MONEROCHANCompressRootVerifierWithVKey;

impl MONEROCHANCompressRootVerifierWithVKey {
    /// Refuses the padding mode and a batch that does not claim to end the program, then checks
    /// its keys, comparing each leaf with the key actually used, and folds it.
    pub fn verify(input: &MONEROCHANCompressWithVKeyWitnessValues, value_assertions: bool) -> (r:
        Result<PublicValues, AggregationError>)
        ensures
            r == root_with_vkey_outcome(*input, value_assertions),
            !value_assertions ==> r is Err,
    {
        if !value_assertions {
            return Err(AggregationError::VkeyNotAuthorized);
        }
        if !input.compress_val.is_complete {
            return Err(AggregationError::NotComplete);
        }
        MONEROCHANCompressWithVKeyVerifier::verify(input, value_assertions)
    }
}

/// The shape of an aggregation step: the trace shape of each proof slot.
pub struct CompressShape {
    pub proof_shapes: Vec<u32>,
}

/// The shape of an aggregation step with registry checks: the proof slots and the height of the
/// registry tree.
pub struct MONEROCHANCompressWithVkeyShape {
    pub compress_shape: CompressShape,
    pub merkle_tree_height: usize,
}

impl MONEROCHANCompressWithVkeyShape {
    pub open spec fn view(&self) -> (Seq<u32>, nat) {
        (self.compress_shape.proof_shapes@, self.merkle_tree_height as nat)
    }
}

/// Public values that claim nothing: zero states, not complete.
pub open spec fn is_blank(pv: PublicValues) -> bool {
    &&& pv.start.pc == 0 && pv.start.shard == 0 && pv.start.cycles == 0
    &&& is_zero_digest(pv.start.memory_digest)
    &&& pv.end == pv.start
    &&& !pv.is_complete
    &&& forall|k: int| 0 <= k < 32 ==> pv.committed_value_digest[k] == 0
    &&& is_zero_digest(pv.vk_root)
}

pub(crate) fn blank_public_values() -> (r: PublicValues)
    ensures
        is_blank(r),
{
    let state = ExecutionState { pc: 0, shard: 0, memory_digest: zero_digest(), cycles: 0 };
    PublicValues {
        start: state,
        end: state,
        is_complete: false,
        committed_value_digest: [0u32; 32],
        vk_root: zero_digest(),
    }
}

impl MONEROCHANCompressWitnessValues {
    /// The trace shape of each entry.
    pub open spec fn shape_view(&self) -> Seq<u32> {
        Seq::new(self.vks_and_proofs@.len(), |i: int| self.vks_and_proofs@[i].proof.log_trace_height)
    }

    /// A padding batch of the given shape: every entry a placeholder with a zero key digest and
    /// blank public values, and no completion claim.
    pub open spec fn is_dummy_of(&self, shape: Seq<u32>) -> bool {
        &&& self.vks_and_proofs@.len() == shape.len()
        &&& !self.is_complete
        &&& forall|i: int|
            0 <= i < shape.len() ==> {
                let e = #[trigger] self.vks_and_proofs@[i];
                &&& e.proof.is_dummy
                &&& e.proof.log_trace_height == shape[i]
                &&& is_zero_digest(e.vk_digest)
                &&& is_blank(e.proof.public_values)
            }
    }

    pub fn shape(&self) -> (r: CompressShape)
        ensures
            r.proof_shapes@ == self.shape_view(),
    {
        let mut proof_shapes: Vec<u32> = Vec::new();
        let mut i: usize = 0;
        while i < self.vks_and_proofs.len()
            invariant
                i <= self.vks_and_proofs@.len(),
                proof_shapes@ =~= self.shape_view().take(i as int),
            decreases self.vks_and_proofs@.len() - i,
        {
            proof_shapes.push(self.vks_and_proofs[i].proof.log_trace_height);
            i = i + 1;
        }
        assert(proof_shapes@ =~= self.shape_view());
        CompressShape { proof_shapes }
    }

    pub fn dummy(shape: &CompressShape) -> (r: Self)
        ensures
            r.is_dummy_of(shape.proof_shapes@),
    {
        let mut vks_and_proofs: Vec<VkAndProof> = Vec::new();
        let mut i: usize = 0;
        while i < shape.proof_shapes.len()
            invariant
                i <= shape.proof_shapes@.len(),
                vks_and_proofs@.len() == i,
                forall|u: int|
                    0 <= u < i ==> {
                        let e = #[trigger] vks_and_proofs@[u];
                        &&& e.proof.is_dummy
                        &&& e.proof.log_trace_height == shape.proof_shapes@[u]
                        &&& is_zero_digest(e.vk_digest)
                        &&& is_blank(e.proof.public_values)
                    },
            decreases shape.proof_shapes@.len() - i,
        {
            let proof = InnerProof {
                public_values: blank_public_values(),
                log_trace_height: shape.proof_shapes[i],
                is_dummy: true,
            };
            vks_and_proofs.push(VkAndProof { vk_digest: zero_digest(), proof });
            i = i + 1;
        }
        MONEROCHANCompressWitnessValues { vks_and_proofs, is_complete: false }
    }
}

impl MONEROCHANCompressWithVKeyWitnessValues {
    /// The proof slots and the length of the first registry opening.
    pub open spec fn shape_view(&self) -> (Seq<u32>, nat) {
        (self.compress_val.shape_view(), self.merkle_val.vk_merkle_proofs@[0].path@.len())
    }

    /// A padding witness of the given shape: a padding batch, and for each slot an opening at
    /// index 0 with `height` zero siblings, a zero value and a zero root.
    pub open spec fn is_dummy_of(&self, shape: Seq<u32>, height: nat) -> bool {
        &&& self.compress_val.is_dummy_of(shape)
        &&& self.merkle_val.has_len(shape.len())
        &&& is_zero_digest(self.merkle_val.root)
        &&& forall|i: int|
            0 <= i < shape.len() ==> {
                &&& (#[trigger] self.merkle_val.vk_merkle_proofs@[i]).index == 0
                &&& self.merkle_val.vk_merkle_proofs@[i].path@.len() == height
                &&& forall|t: int|
                    0 <= t < height ==> is_zero_digest(
                        #[trigger] self.merkle_val.vk_merkle_proofs@[i].path@[t],
                    )
                &&& is_zero_digest(self.merkle_val.values@[i])
            }
    }

    /// The shape of the witness; the registry height is read from its first opening.
    pub fn shape(&self) -> (r: MONEROCHANCompressWithVkeyShape)
        requires
            self.merkle_val.vk_merkle_proofs@.len() > 0,
        ensures
            r.view() == self.shape_view(),
    {
        let merkle_tree_height = self.merkle_val.vk_merkle_proofs[0].path.len();
        MONEROCHANCompressWithVkeyShape { compress_shape: self.compress_val.shape(), merkle_tree_height }
    }

    pub fn dummy(shape: &MONEROCHANCompressWithVkeyShape) -> (r: Self)
        ensures
            r.is_dummy_of(shape.compress_shape.proof_shapes@, shape.merkle_tree_height as nat),
    {
        let compress_val = MONEROCHANCompressWitnessValues::dummy(&shape.compress_shape);
        let num_proofs = compress_val.vks_and_proofs.len();
        let merkle_val = MONEROCHANMerkleProofWitnessValues::dummy(
            num_proofs,
            shape.merkle_tree_height,
        );
        MONEROCHANCompressWithVKeyWitnessValues { compress_val, merkle_val }
    }
}

/// A padding witness has exactly the shape it was made for.
pub proof fn lemma_dummy_has_shape(
    shape: Seq<u32>,
    height: nat,
    w: MONEROCHANCompressWithVKeyWitnessValues,
)
    requires
        shape.len() > 0,
        w.is_dummy_of(shape, height),
    ensures
        w.shape_view() == (shape, height),
{
    assert(w.compress_val.shape_view() =~= shape);
    assert(w.merkle_val.vk_merkle_proofs@[0].path@.len() == height);
}

/// Padding never reaches the output: a batch of placeholders folds into nothing, and two
/// batches whose real proofs agree give the same result whatever their padding holds.
pub proof fn lemma_padding_excluded(
    w1: MONEROCHANCompressWitnessValues,
    w2: MONEROCHANCompressWitnessValues,
    vk_root: Digest,
)
    requires
        real_values(w1.vks_and_proofs@) == real_values(w2.vks_and_proofs@),
        w1.is_complete == w2.is_complete,
    ensures
        compress_outcome(w1, vk_root) == compress_outcome(w2, vk_root),
        (forall|i: int| 0 <= i < w1.vks_and_proofs@.len() ==> (#[trigger] w1.vks_and_proofs@[i]).proof.is_dummy)
            ==> compress_outcome(w1, vk_root) == Err::<PublicValues, AggregationError>(AggregationError::EmptyBatch),
{
    if forall|i: int| 0 <= i < w1.vks_and_proofs@.len() ==> (#[trigger] w1.vks_and_proofs@[i]).proof.is_dummy {
        lemma_all_dummy_no_reals(w1.vks_and_proofs@);
    }
}

proof fn lemma_all_dummy_no_reals(entries: Seq<VkAndProof>)
    requires
        forall|i: int| 0 <= i < entries.len() ==> (#[trigger] entries[i]).proof.is_dummy,
    ensures
        real_values(entries).len() == 0,
    decreases entries.len(),
{
    if entries.len() > 0 {
        let d = entries.drop_last();
        assert forall|i: int| 0 <= i < d.len() implies (#[trigger] d[i]).proof.is_dummy by {
            assert(d[i] == entries[i]);
        }
        lemma_all_dummy_no_reals(d);
        assert(entries.last() == entries[entries.len() - 1]);
    }
}

/// A batch that passes the root step, in whichever mode it was asked, is complete, and every one
/// of its verifying keys is a leaf of the registry whose root the output carries.
pub proof fn lemma_root_keys_authorized(
    w: MONEROCHANCompressWithVKeyWitnessValues,
    value_assertions: bool,
)
    requires
        root_with_vkey_outcome(w, value_assertions) is Ok,
    ensures
        value_assertions,
        ({
            let out = root_with_vkey_outcome(w, value_assertions)->Ok_0;
            let entries = w.compress_val.vks_and_proofs@;
            &&& out.is_complete
            &&& out.vk_root == w.merkle_val.root
            &&& w.merkle_val.has_len(entries.len())
            &&& forall|i: int|
                0 <= i < entries.len() ==> {
                    &&& (#[trigger] w.merkle_val.values@[i]) == entries[i].vk_digest
                    &&& w.merkle_val.vk_merkle_proofs@[i].root_for(w.merkle_val.values@[i])
                        == w.merkle_val.root
                }
        }),
{
    let entries = w.compress_val.vks_and_proofs@;
    let digests = vk_digests(entries);
    assert forall|i: int| 0 <= i < entries.len() implies {
        &&& (#[trigger] w.merkle_val.values@[i]) == entries[i].vk_digest
        &&& w.merkle_val.vk_merkle_proofs@[i].root_for(w.merkle_val.values@[i]) == w.merkle_val.root
    } by {
        assert(w.merkle_val.entry_holds(digests, i, true));
    }
}

/// An accepted batch accounts for the cycles of its real proofs: the output's cycle span is
/// the sum of theirs, and it is complete exactly when the last real proof is.
pub proof fn lemma_fold_accumulates_cycles(w: MONEROCHANCompressWitnessValues, vk_root: Digest)
    requires
        compress_outcome(w, vk_root) is Ok,
    ensures
        ({
            let out = compress_outcome(w, vk_root)->Ok_0;
            let s = real_values(w.vks_and_proofs@);
            &&& cycles_in(s) == out.end.cycles - out.start.cycles
            &&& out.is_complete == s.last().is_complete
            &&& out.vk_root == vk_root
        }),
{
    lemma_chain_cycles(real_values(w.vks_and_proofs@));
}

} // verus!
