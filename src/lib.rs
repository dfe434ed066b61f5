//! Proof composition and verification for a zero-knowledge RISC-V proving pipeline.
//!
//! Shard proofs of one execution must form a single run of the machine; aggregation steps fold
//! batches of proofs into one, checking each verifying key against a Merkle registry; padding
//! witnesses keep every step's shape fixed; and the final bundle is verified by version, by its
//! committed-value digest against two hashes of its public values, and by the proof system of
//! its mode. The proof systems themselves, and the prover that runs the stages, stay outside:
//! the library decides, they compute.

pub mod aggregate;
pub mod bundle;
pub mod codec;
pub mod digest;
pub mod hashing;
pub mod merkle;
pub mod mock;
pub mod options;
pub mod pipeline;
pub mod public_values;
pub mod subproof;
pub mod verify;
