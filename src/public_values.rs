use vstd::prelude::*;

use crate::digest::{digest_eq, Digest};

verus! {

/// The machine state at a shard boundary.
#[derive(Clone, Copy)]
pub struct ExecutionState {
    /// The program counter.
    pub pc: u32,
    /// The index of the shard that starts at this state.
    pub shard: u32,
    /// The memory-consistency digest.
    pub memory_digest: Digest,
    /// Cycles executed since the program started.
    pub cycles: u64,
}

/// The public values of a shard proof, or of a proof that aggregates a run of shards.
#[derive(Clone, Copy)]
pub struct PublicValues {
    pub start: ExecutionState,
    pub end: ExecutionState,
    /// The run ends with the program's halt.
    pub is_complete: bool,
    /// The digest of the values the program committed, one byte in each of its 32 limbs.
    pub committed_value_digest: [u32; 32],
    /// The root of the verifying-key registry the proof was checked against.
    pub vk_root: Digest,
}

/// Compares two states field by field.
pub fn state_eq(a: &ExecutionState, b: &ExecutionState) -> (r: bool)
    ensures
        r == (*a == *b),
{
    a.pc == b.pc && a.shard == b.shard && a.cycles == b.cycles && digest_eq(
        &a.memory_digest,
        &b.memory_digest,
    )
}

/// `b` continues the run that `a` ends: it starts in the state where `a` stops, and `a` did not
/// finish the program.
pub open spec fn links(a: PublicValues, b: PublicValues) -> bool {
    &&& a.end == b.start
    &&& !a.is_complete
}

/// Every neighbouring pair of `s` links up.
pub open spec fn is_chain(s: Seq<PublicValues>) -> bool {
    forall|i: int| 0 <= i < s.len() - 1 ==> #[trigger] links(s[i], s[i + 1])
}

/// The pairs before position `n` link up.
pub open spec fn links_before(s: Seq<PublicValues>, n: int) -> bool {
    forall|i: int| 0 <= i < n ==> #[trigger] links(s[i], s[i + 1])
}

/// The chain first breaks between positions `i` and `i + 1`.
pub open spec fn breaks_at(s: Seq<PublicValues>, i: int) -> bool {
    &&& 0 <= i < s.len() - 1
    &&& links_before(s, i)
    &&& !links(s[i], s[i + 1])
}

/// The public values of a chain taken as one run: it starts where the first starts, and ends,
/// completes and commits as the last does.
pub open spec fn fold_chain(s: Seq<PublicValues>, vk_root: Digest) -> PublicValues {
    PublicValues {
        start: s[0].start,
        end: s.last().end,
        is_complete: s.last().is_complete,
        committed_value_digest: s.last().committed_value_digest,
        vk_root,
    }
}

/// The cycles that the runs of `s` account for, each counted from its own start to its end.
pub open spec fn cycles_in(s: Seq<PublicValues>) -> int
    decreases s.len(),
{
    if s.len() == 0 {
        0
    } else {
        cycles_in(s.drop_last()) + (s.last().end.cycles - s.last().start.cycles)
    }
}

/// Along a chain the cycle counts add up: the whole run accounts for the cycles of its parts.
pub proof fn lemma_chain_cycles(s: Seq<PublicValues>)
    requires
        s.len() > 0,
        is_chain(s),
    ensures
        cycles_in(s) == s.last().end.cycles - s[0].start.cycles,
    decreases s.len(),
{
    if s.len() > 1 {
        let t = s.drop_last();
        assert(is_chain(t)) by {
            assert forall|i: int| 0 <= i < t.len() - 1 implies #[trigger] links(t[i], t[i + 1]) by {
                assert(links(s[i], s[i + 1]));
            }
        }
        lemma_chain_cycles(t);
        let k = s.len() - 2;
        assert(links(s[k], s[k + 1]));
        assert(t.last() == s[k]);
        assert(t[0] == s[0]);
    } else {
        assert(cycles_in(s.drop_last()) == 0);
    }
}

/// Why a sequence of shard public values is not one run.
pub enum ChainError {
    /// There is no shard.
    Empty,
    /// Shard `index + 1` does not continue shard `index`.
    BrokenChain { index: usize },
}

/// Checks that shards form one run: each starts where the previous one stopped, and only the
/// last may complete the program.
pub fn check_shard_chain(shards: &Vec<PublicValues>) -> (r: Result<(), ChainError>)
    ensures
        r is Ok <==> shards@.len() > 0 && is_chain(shards@),
        (r matches Err(ChainError::Empty)) <==> shards@.len() == 0,
        r matches Err(ChainError::BrokenChain { index }) ==> breaks_at(shards@, index as int),
{
    if shards.len() == 0 {
        return Err(ChainError::Empty);
    }
    let mut i: usize = 0;
    while i < shards.len() - 1
        invariant
            shards@.len() > 0,
            i < shards@.len(),
            links_before(shards@, i as int),
        decreases shards@.len() - i,
    {
        let a = &shards[i];
        let b = &shards[i + 1];
        if !state_eq(&a.end, &b.start) || a.is_complete {
            assert(!links(shards@[i as int], shards@[i + 1]));
            return Err(ChainError::BrokenChain { index: i });
        }
        assert(links(shards@[i as int], shards@[i + 1]));
        i = i + 1;
    }
    assert(is_chain(shards@)) by {
        assert forall|k: int| 0 <= k < shards@.len() - 1 implies #[trigger] links(
            shards@[k],
            shards@[k + 1],
        ) by {
            assert(links_before(shards@, i as int));
        }
    }
    Ok(())
}

} // verus!
