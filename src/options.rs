use vstd::prelude::*;

use crate::bundle::MONEROCHANProofMode;
use crate::merkle::pow2;

verus! {

/// Options of an execution. `None` leaves a limit at the machine's default.
pub struct ExecuteOptions {
    pub max_cycles: Option<u64>,
    pub deferred_proof_verification: bool,
    pub calculate_gas: bool,
}

impl ExecuteOptions {
    /// No cycle limit; deferred proofs are checked and gas is counted.
    pub fn new() -> (r: Self)
        ensures
            r.max_cycles is None,
            r.deferred_proof_verification,
            r.calculate_gas,
    {
        ExecuteOptions { max_cycles: None, deferred_proof_verification: true, calculate_gas: true }
    }

    /// Stops execution after `max_cycles` cycles.
    pub fn cycle_limit(self, max_cycles: u64) -> (r: Self)
        ensures
            r.max_cycles == Some(max_cycles),
            r.deferred_proof_verification == self.deferred_proof_verification,
            r.calculate_gas == self.calculate_gas,
    {
        ExecuteOptions { max_cycles: Some(max_cycles), ..self }
    }

    /// Whether deferred proofs are checked while executing.
    pub fn deferred_proof_verification(self, value: bool) -> (r: Self)
        ensures
            r.max_cycles == self.max_cycles,
            r.deferred_proof_verification == value,
            r.calculate_gas == self.calculate_gas,
    {
        ExecuteOptions { deferred_proof_verification: value, ..self }
    }

    /// Whether gas is counted while executing.
    pub fn calculate_gas(self, value: bool) -> (r: Self)
        ensures
            r.max_cycles == self.max_cycles,
            r.deferred_proof_verification == self.deferred_proof_verification,
            r.calculate_gas == value,
    {
        ExecuteOptions { calculate_gas: value, ..self }
    }
}

/// Options of a proving run. `None` leaves a size at the machine's default.
pub struct ProveOptions {
    pub mode: MONEROCHANProofMode,
    pub shard_size: Option<usize>,
    pub shard_batch_size: Option<usize>,
    pub max_cycles: Option<u64>,
    pub deferred_proof_verification: bool,
    pub mock: bool,
}

/// `v` is a power of two.
pub open spec fn is_power_of_two(v: nat) -> bool {
    exists|k: nat| pow2(k) == v
}

impl ProveOptions {
    /// Core mode, machine defaults, deferred proofs checked.
    pub fn new(mock: bool) -> (r: Self)
        ensures
            r.mode == MONEROCHANProofMode::Core,
            r.shard_size is None,
            r.shard_batch_size is None,
            r.max_cycles is None,
            r.deferred_proof_verification,
            r.mock == mock,
    {
        ProveOptions {
            mode: MONEROCHANProofMode::Core,
            shard_size: None,
            shard_batch_size: None,
            max_cycles: None,
            deferred_proof_verification: true,
            mock,
        }
    }

    /// Everything of `self` but the mode.
    pub open spec fn same_but_mode(self, other: Self) -> bool {
        &&& self.shard_size == other.shard_size
        &&& self.shard_batch_size == other.shard_batch_size
        &&& self.max_cycles == other.max_cycles
        &&& self.deferred_proof_verification == other.deferred_proof_verification
        &&& self.mock == other.mock
    }

    pub fn mode(self, mode: MONEROCHANProofMode) -> (r: Self)
        ensures
            r.mode == mode,
            r.same_but_mode(self),
    {
        ProveOptions { mode, ..self }
    }

    pub fn core_mode(self) -> (r: Self)
        ensures
            r.mode == MONEROCHANProofMode::Core,
            r.same_but_mode(self),
    {
        self.mode(MONEROCHANProofMode::Core)
    }

    pub fn compressed(self) -> (r: Self)
        ensures
            r.mode == MONEROCHANProofMode::Compressed,
            r.same_but_mode(self),
    {
        self.mode(MONEROCHANProofMode::Compressed)
    }

    pub fn plonk(self) -> (r: Self)
        ensures
            r.mode == MONEROCHANProofMode::Plonk,
            r.same_but_mode(self),
    {
        self.mode(MONEROCHANProofMode::Plonk)
    }

    pub fn groth16(self) -> (r: Self)
        ensures
            r.mode == MONEROCHANProofMode::Groth16,
            r.same_but_mode(self),
    {
        self.mode(MONEROCHANProofMode::Groth16)
    }

    /// Sets the number of cycles per shard, which must be a power of two.
    pub fn shard_size(self, value: usize) -> (r: Self)
        requires
            is_power_of_two(value as nat),
        ensures
            r.shard_size == Some(value),
            r.mode == self.mode,
            r.shard_batch_size == self.shard_batch_size,
            r.max_cycles == self.max_cycles,
            r.deferred_proof_verification == self.deferred_proof_verification,
            r.mock == self.mock,
    {
        ProveOptions { shard_size: Some(value), ..self }
    }

    /// Sets how many shards are proved together.
    pub fn shard_batch_size(self, value: usize) -> (r: Self)
        ensures
            r.shard_batch_size == Some(value),
            r.mode == self.mode,
            r.shard_size == self.shard_size,
            r.max_cycles == self.max_cycles,
            r.deferred_proof_verification == self.deferred_proof_verification,
            r.mock == self.mock,
    {
        ProveOptions { shard_batch_size: Some(value), ..self }
    }

    /// Stops execution after `max_cycles` cycles.
    pub fn cycle_limit(self, max_cycles: u64) -> (r: Self)
        ensures
            r.max_cycles == Some(max_cycles),
            r.mode == self.mode,
            r.shard_size == self.shard_size,
            r.shard_batch_size == self.shard_batch_size,
            r.deferred_proof_verification == self.deferred_proof_verification,
            r.mock == self.mock,
    {
        ProveOptions { max_cycles: Some(max_cycles), ..self }
    }

    /// Whether deferred proofs are checked while executing.
    pub fn deferred_proof_verification(self, value: bool) -> (r: Self)
        ensures
            r.deferred_proof_verification == value,
            r.mode == self.mode,
            r.shard_size == self.shard_size,
            r.shard_batch_size == self.shard_batch_size,
            r.max_cycles == self.max_cycles,
            r.mock == self.mock,
    {
        ProveOptions { deferred_proof_verification: value, ..self }
    }
}

} // verus!
