use vstd::prelude::*;
use vstd::set_lib::{lemma_int_range, lemma_subset_equality, set_int_range};

use crate::bundle::{
    MONEROCHANProof, MONEROCHANProofMode, MONEROCHANProofWithPublicValues, ReduceProof, ShardProof,
    SnarkProof,
};
use crate::mock::{create_mock_proof, is_mock_of};

verus! {

/// A stage of the proving pipeline.
#[derive(Clone, Copy, PartialEq, Eq, Structural, Debug)]
pub enum Stage {
    /// Run the program and cut its trace into shards.
    Execute,
    /// Prove each shard.
    CoreProve,
    /// Aggregate the shard proofs and the deferred proofs into one proof.
    Compress,
    /// Compress once more into a proof of fixed, small shape.
    Shrink,
    /// Re-prove the verification over the curve of the outer SNARK.
    WrapOuterCurve,
    /// Produce the Plonk proof.
    WrapPlonk,
    /// Produce the Groth16 proof.
    WrapGroth16,
}

impl Stage {
    /// The position of the stage along the pipeline.
    pub open spec fn order(self) -> nat {
        match self {
            Stage::Execute => 0,
            Stage::CoreProve => 1,
            Stage::Compress => 2,
            Stage::Shrink => 3,
            Stage::WrapOuterCurve => 4,
            Stage::WrapPlonk => 5,
            Stage::WrapGroth16 => 5,
        }
    }
}

/// The stages run for `mode`: a mock run only executes, a real run goes as far as the mode
/// asks.
pub open spec fn stage_plan(mode: MONEROCHANProofMode, mock: bool) -> Seq<Stage> {
    if mock {
        seq![Stage::Execute]
    } else {
        match mode {
            MONEROCHANProofMode::Core => seq![Stage::Execute, Stage::CoreProve],
            MONEROCHANProofMode::Compressed => seq![
                Stage::Execute,
                Stage::CoreProve,
                Stage::Compress,
            ],
            MONEROCHANProofMode::Plonk => seq![
                Stage::Execute,
                Stage::CoreProve,
                Stage::Compress,
                Stage::Shrink,
                Stage::WrapOuterCurve,
                Stage::WrapPlonk,
            ],
            MONEROCHANProofMode::Groth16 => seq![
                Stage::Execute,
                Stage::CoreProve,
                Stage::Compress,
                Stage::Shrink,
                Stage::WrapOuterCurve,
                Stage::WrapGroth16,
            ],
        }
    }
}

/// The stage after `done` in the plan for `mode`; `None` for the first stage. Returns `None`
/// when `done` ends the plan.
pub fn next_stage(mode: MONEROCHANProofMode, mock: bool, done: Option<Stage>) -> (r: Option<Stage>)
    ensures
        ({
            let plan = stage_plan(mode, mock);
            match done {
                None => r == Some(plan[0]),
                Some(s) => forall|i: int|
                    0 <= i < plan.len() && #[trigger] plan[i] == s ==> if i + 1 < plan.len() {
                        r == Some(plan[i + 1])
                    } else {
                        r is None
                    },
            }
        }),
{
    let s = match done {
        None => {
            return Some(Stage::Execute);
        },
        Some(s) => s,
    };
    if mock {
        return None;
    }
    match s {
        Stage::Execute => Some(Stage::CoreProve),
        Stage::CoreProve => match mode {
            MONEROCHANProofMode::Core => None,
            _ => Some(Stage::Compress),
        },
        Stage::Compress => match mode {
            MONEROCHANProofMode::Core => None,
            MONEROCHANProofMode::Compressed => None,
            _ => Some(Stage::Shrink),
        },
        Stage::Shrink => match mode {
            MONEROCHANProofMode::Core => None,
            MONEROCHANProofMode::Compressed => None,
            _ => Some(Stage::WrapOuterCurve),
        },
        Stage::WrapOuterCurve => match mode {
            MONEROCHANProofMode::Plonk => Some(Stage::WrapPlonk),
            MONEROCHANProofMode::Groth16 => Some(Stage::WrapGroth16),
            _ => None,
        },
        _ => None,
    }
}

/// The full plan for `mode`, in order.
pub fn plan_stages(mode: MONEROCHANProofMode, mock: bool) -> (r: Vec<Stage>)
    ensures
        r@ == stage_plan(mode, mock),
{
    let mut r: Vec<Stage> = Vec::new();
    r.push(Stage::Execute);
    if !mock {
        r.push(Stage::CoreProve);
        match mode {
            MONEROCHANProofMode::Core => {},
            MONEROCHANProofMode::Compressed => {
                r.push(Stage::Compress);
            },
            MONEROCHANProofMode::Plonk => {
                r.push(Stage::Compress);
                r.push(Stage::Shrink);
                r.push(Stage::WrapOuterCurve);
                r.push(Stage::WrapPlonk);
            },
            MONEROCHANProofMode::Groth16 => {
                r.push(Stage::Compress);
                r.push(Stage::Shrink);
                r.push(Stage::WrapOuterCurve);
                r.push(Stage::WrapGroth16);
            },
        }
    }
    assert(r@ =~= stage_plan(mode, mock));
    r
}

/// The stage that ends a real run of `mode`.
pub open spec fn terminal_stage(mode: MONEROCHANProofMode) -> Stage {
    match mode {
        MONEROCHANProofMode::Core => Stage::CoreProve,
        MONEROCHANProofMode::Compressed => Stage::Compress,
        MONEROCHANProofMode::Plonk => Stage::WrapPlonk,
        MONEROCHANProofMode::Groth16 => Stage::WrapGroth16,
    }
}

/// Every plan starts by executing and only moves forward; a real run ends at its mode's
/// terminal stage, and a more compact mode's plan extends a less compact one's.
pub proof fn lemma_plan_moves_forward(mode: MONEROCHANProofMode, mock: bool, other: MONEROCHANProofMode)
    ensures
        stage_plan(mode, mock)[0] == Stage::Execute,
        forall|i: int|
            0 <= i < stage_plan(mode, mock).len() - 1 ==> (#[trigger] stage_plan(mode, mock)[i]).order()
                < stage_plan(mode, mock)[i + 1].order(),
        !mock ==> stage_plan(mode, mock).last() == terminal_stage(mode),
        !mock && other.rank() <= mode.rank() && (other.rank() < 2 || other == mode) ==> stage_plan(
            other,
            false,
        ).is_prefix_of(stage_plan(mode, false)),
{
    let p = stage_plan(mode, mock);
    assert forall|i: int| 0 <= i < p.len() - 1 implies (#[trigger] p[i]).order() < p[i + 1].order() by {
        if !mock {
            match mode {
                MONEROCHANProofMode::Core => {},
                MONEROCHANProofMode::Compressed => {},
                MONEROCHANProofMode::Plonk => {},
                MONEROCHANProofMode::Groth16 => {},
            }
        }
    }
    if !mock && other.rank() <= mode.rank() && (other.rank() < 2 || other == mode) {
        let a = stage_plan(other, false);
        let b = stage_plan(mode, false);
        assert(a =~= b.take(a.len() as int));
    }
}

/// Which prover does the work.
#[derive(Clone, Copy, PartialEq, Eq, Structural, Debug)]
pub enum ProverBackend {
    Mock,
    Cpu,
    Cuda,
    Network,
}

/// Reads a backend setting; no setting means `cpu`. Returns `None` for a name that is not one
/// of `mock`, `cpu`, `cuda` and `network`.
pub fn backend_from_setting(setting: Option<&str>) -> (r: Option<ProverBackend>)
    ensures
        setting is None ==> r == Some(ProverBackend::Cpu),
        setting is Some ==> {
            let v = setting->Some_0@;
            &&& (r == Some(ProverBackend::Mock)) <==> v == "mock"@
            &&& (r == Some(ProverBackend::Cpu)) <==> v == "cpu"@
            &&& (r == Some(ProverBackend::Cuda)) <==> v == "cuda"@
            &&& (r == Some(ProverBackend::Network)) <==> v == "network"@
            &&& (r is None) <==> (v != "mock"@ && v != "cpu"@ && v != "cuda"@ && v != "network"@)
        },
{
    proof {
        reveal_strlit("mock");
        reveal_strlit("cpu");
        reveal_strlit("cuda");
        reveal_strlit("network");
        assert("mock"@[0] == 'm' && "mock"@[1] == 'o' && "mock"@.len() == 4);
        assert("cpu"@[0] == 'c' && "cpu"@[1] == 'p' && "cpu"@.len() == 3);
        assert("cuda"@[0] == 'c' && "cuda"@[1] == 'u' && "cuda"@.len() == 4);
        assert("network"@.len() == 7);
        assert("mock"@ != "cpu"@ && "mock"@ != "cuda"@ && "mock"@ != "network"@);
        assert("cpu"@ != "cuda"@ && "cpu"@ != "network"@ && "cuda"@ != "network"@);
    }
    match setting {
        None => Some(ProverBackend::Cpu),
        Some(name) => {
            let name: String = name.to_owned();
            if name == "mock".to_owned() {
                Some(ProverBackend::Mock)
            } else if name == "cpu".to_owned() {
                Some(ProverBackend::Cpu)
            } else if name == "cuda".to_owned() {
                Some(ProverBackend::Cuda)
            } else if name == "network".to_owned() {
                Some(ProverBackend::Network)
            } else {
                None
            }
        },
    }
}

/// What a run of the pipeline reports after a stage.
pub enum StageEvent {
    /// The stage finished and its output is kept.
    Completed(Stage),
    /// The stage failed with this message.
    Failed(Stage, String),
}

/// What the pipeline does next.
pub enum StageAction {
    /// Run this stage on the last output.
    Run(Stage),
    /// Wrap the last output into a bundle of this mode and return it.
    Deliver(MONEROCHANProofMode),
    /// Stop at this stage; the outputs of the stages before it stay with the caller.
    Abort(Stage, String),
}

/// Decides the next step of a run of `mode` after `event`. A finished stage leads to the next
/// stage of the plan, or, at the end of the plan, to delivering a bundle of `mode` (a mock one
/// for a mock run). A failure stops the run where it happened.
pub fn on_event(mode: MONEROCHANProofMode, mock: bool, event: StageEvent) -> (r: StageAction)
    ensures
        ({
            let plan = stage_plan(mode, mock);
            match event {
                StageEvent::Failed(s, m) => r == StageAction::Abort(s, m),
                StageEvent::Completed(s) => forall|i: int|
                    0 <= i < plan.len() && #[trigger] plan[i] == s ==> if i + 1 < plan.len() {
                        r == StageAction::Run(plan[i + 1])
                    } else {
                        r == StageAction::Deliver(mode)
                    },
            }
        }),
{
    match event {
        StageEvent::Failed(s, m) => StageAction::Abort(s, m),
        StageEvent::Completed(s) => match next_stage(mode, mock, Some(s)) {
            Some(n) => StageAction::Run(n),
            None => StageAction::Deliver(mode),
        },
    }
}

/// Every shard index names a position of the list.
pub open spec fn indices_in_range(ix: Seq<u32>) -> bool {
    forall|j: int| 0 <= j < ix.len() ==> ix[j] < ix.len()
}

/// No two proofs claim the same shard.
pub open spec fn indices_distinct(ix: Seq<u32>) -> bool {
    forall|a: int, b: int| 0 <= a < ix.len() && 0 <= b < ix.len() && a != b ==> ix[a] != ix[b]
}

/// Why finished shard proofs cannot be put back in shard order.
pub enum ShardOrderError {
    /// The proof at this position claims a shard past the end of the run.
    OutOfRange { position: usize },
    /// Two proofs claim this shard.
    Duplicate { shard: u32 },
}

/// Puts shard proofs back in shard order whatever order they finished in: `indices[j]` is the
/// shard that the `j`-th finished proof claims, and the result lists, for each shard in turn,
/// the position of its proof.
pub fn shard_order(indices: &Vec<u32>) -> (r: Result<Vec<usize>, ShardOrderError>)
    ensures
        r.is_ok() == (indices_in_range(indices@) && indices_distinct(indices@)),
        r matches Ok(order) ==> order@.len() == indices@.len() && forall|i: int|
            0 <= i < order@.len() ==> order@[i] < indices@.len() && indices@[order@[i] as int] == i,
        r matches Err(ShardOrderError::OutOfRange { position }) ==> position < indices@.len()
            && indices@[position as int] >= indices@.len(),
        r matches Err(ShardOrderError::Duplicate { shard }) ==> exists|a: int, b: int|
            0 <= a < b < indices@.len() && indices@[a] == shard && indices@[b] == shard,
{
    let n = indices.len();
    let mut slots: Vec<usize> = Vec::new();
    let mut i: usize = 0;
    while i < n
        invariant
            i <= n,
            slots@.len() == i,
            forall|k: int| 0 <= k < i ==> slots@[k] == n,
        decreases n - i,
    {
        slots.push(n);
        i = i + 1;
    }
    let ghost mut filled: Set<int> = Set::empty();
    let mut j: usize = 0;
    while j < n
        invariant
            n == indices@.len(),
            j <= n,
            slots@.len() == n,
            filled.finite(),
            filled.len() == j,
            filled.subset_of(set_int_range(0, n as int)),
            forall|k: int| 0 <= k < n ==> (filled.contains(k) <==> slots@[k] != n),
            forall|k: int|
                0 <= k < n && slots@[k] != n ==> slots@[k] < j && indices@[slots@[k] as int] == k,
            forall|t: int| 0 <= t < j ==> indices@[t] < n && slots@[indices@[t] as int] == t,
        decreases n - j,
    {
        let k = indices[j] as usize;
        if k >= n {
            return Err(ShardOrderError::OutOfRange { position: j });
        }
        if slots[k] != n {
            let ghost a = slots@[k as int];
            assert(indices@[a as int] == indices@[j as int]);
            return Err(ShardOrderError::Duplicate { shard: indices[j] });
        }
        slots.set(k, j);
        proof {
            filled = filled.insert(k as int);
        }
        j = j + 1;
    }
    proof {
        lemma_int_range(0, n as int);
        lemma_subset_equality(filled, set_int_range(0, n as int));
        assert forall|k: int| 0 <= k < n implies slots@[k] != n by {
            assert(set_int_range(0, n as int).contains(k));
        }
        assert forall|a: int, b: int|
            0 <= a < n && 0 <= b < n && a != b implies indices@[a] != indices@[b] by {
            if indices@[a] == indices@[b] {
                assert(slots@[indices@[a] as int] == a);
                assert(slots@[indices@[b] as int] == b);
            }
        }
    }
    Ok(slots)
}

/// The number of batches of `width` that hold `n` proofs: the ceiling of `n / width`.
pub open spec fn batches_for(n: int, width: int) -> int {
    (n + width - 1) / width
}

/// Lays out one layer of the aggregation tree: how many aggregation calls `n` proofs need with
/// batches of `width`, and how many padding entries fill the last batch.
pub fn batch_layout(n: usize, width: usize) -> (r: (usize, usize))
    requires
        width >= 1,
    ensures
        r.0 == batches_for(n as int, width as int),
        r.0 * width == n + r.1,
        r.1 < width,
{
    let full = n / width;
    let rest = n % width;
    if rest == 0 {
        assert(full * width == n) by (nonlinear_arith)
            requires
                full == n / width,
                rest == n % width,
                rest == 0,
                width >= 1,
        ;
        assert(batches_for(n as int, width as int) == full) by (nonlinear_arith)
            requires
                full == n / width,
                n % width == 0,
                width >= 1,
        ;
        (full, 0)
    } else {
        assert((full + 1) * width == n + (width - rest)) by (nonlinear_arith)
            requires
                full == n / width,
                rest == n % width,
                width >= 1,
        ;
        assert(batches_for(n as int, width as int) == full + 1) by (nonlinear_arith)
            requires
                full == n / width,
                rest == n % width,
                rest > 0,
                width >= 1,
        ;
        assert(full < n) by (nonlinear_arith)
            requires
                full == n / width,
                rest == n % width,
                rest > 0,
                width >= 1,
        ;
        (full + 1, width - rest)
    }
}

/// The sizes of the layers of an aggregation tree over `n` proofs with batches of `width`:
/// each layer has one proof per batch of the layer below, down to a single proof.
pub fn tree_layers(n: usize, width: usize) -> (r: Vec<usize>)
    requires
        n >= 1,
        width >= 2,
    ensures
        r@.len() >= 1,
        r@[0] == n,
        r@.last() == 1,
        forall|i: int| 0 <= i < r@.len() - 1 ==> #[trigger] r@[i + 1] == batches_for(r@[i] as int, width as int)
            && r@[i] > 1,
{
    let mut r: Vec<usize> = Vec::new();
    r.push(n);
    let mut cur: usize = n;
    while cur > 1
        invariant
            width >= 2,
            cur >= 1,
            r@.len() >= 1,
            r@[0] == n,
            r@.last() == cur,
            forall|i: int| 0 <= i < r@.len() - 1 ==> #[trigger] r@[i + 1] == batches_for(r@[i] as int, width as int)
                && r@[i] > 1,
        decreases cur,
    {
        let (next, _) = batch_layout(cur, width);
        assert(next < cur && next >= 1) by (nonlinear_arith)
            requires
                next == (cur + width - 1) / (width as int),
                cur > 1,
                width >= 2,
        ;
        let ghost before = r@;
        r.push(next);
        assert(r@[before.len() - 1] == cur);
        cur = next;
    }
    r
}

/// What the last stage of a real run hands over.
pub enum StageOutput {
    /// The shard proofs, after core proving.
    Shards(Vec<ShardProof>),
    /// The single recursive proof, after compression.
    Reduced(ReduceProof),
    /// The outer SNARK, after wrapping.
    Wrapped(SnarkProof),
}

/// The output is what a run of `mode` ends with.
pub open spec fn output_fits_mode(output: StageOutput, mode: MONEROCHANProofMode) -> bool {
    match output {
        StageOutput::Shards(_) => mode == MONEROCHANProofMode::Core,
        StageOutput::Reduced(_) => mode == MONEROCHANProofMode::Compressed,
        StageOutput::Wrapped(_) => mode == MONEROCHANProofMode::Plonk || mode
            == MONEROCHANProofMode::Groth16,
    }
}

/// The proof carries the output unchanged.
pub open spec fn carries_output(tagged: MONEROCHANProof, output: StageOutput) -> bool {
    match (tagged, output) {
        (MONEROCHANProof::Core(a), StageOutput::Shards(b)) => a == b,
        (MONEROCHANProof::Compressed(a), StageOutput::Reduced(b)) => a == b,
        (MONEROCHANProof::Plonk(a), StageOutput::Wrapped(b)) => a == b,
        (MONEROCHANProof::Groth16(a), StageOutput::Wrapped(b)) => a == b,
        _ => false,
    }
}

/// Builds the bundle that a run of `mode` delivers, at the pipeline's `version`. A mock run
/// delivers a mock proof of `mode`; a real run wraps the last stage's output, which must be what
/// `mode` ends with, and delivers nothing otherwise.
pub fn deliver_bundle(
    mode: MONEROCHANProofMode,
    mock: bool,
    output: Option<StageOutput>,
    public_values: Vec<u8>,
    version: &str,
    vk_input: &String,
) -> (r: Option<MONEROCHANProofWithPublicValues>)
    ensures
        mock ==> r is Some && is_mock_of(r->Some_0, mode, public_values@, version@, vk_input@),
        !mock ==> (r is Some <==> (output is Some && output_fits_mode(output->Some_0, mode))),
        !mock && r is Some ==> carries_output(r->Some_0.proof, output->Some_0),
        r matches Some(b) ==> b.proof.mode() == mode && b.monerochan_version@ == version@
            && b.public_values@ == public_values@,
{
    if mock {
        return Some(create_mock_proof(mode, public_values, version, vk_input));
    }
    let out = match output {
        Some(o) => o,
        None => {
            return None;
        },
    };
    let tagged = match (mode, out) {
        (MONEROCHANProofMode::Core, StageOutput::Shards(v)) => MONEROCHANProof::Core(v),
        (MONEROCHANProofMode::Compressed, StageOutput::Reduced(p)) => MONEROCHANProof::Compressed(p),
        (MONEROCHANProofMode::Plonk, StageOutput::Wrapped(p)) => MONEROCHANProof::Plonk(p),
        (MONEROCHANProofMode::Groth16, StageOutput::Wrapped(p)) => MONEROCHANProof::Groth16(p),
        _ => {
            return None;
        },
    };
    Some(
        MONEROCHANProofWithPublicValues {
            proof: tagged,
            public_values,
            monerochan_version: version.to_owned(),
        },
    )
}

} // verus!
