//! The prover: batch and worker sizing, process pools, the proving engine's
//! decisions and the proof pipeline.
pub mod adaptive_batch;
pub mod adaptive_concurrency;
pub mod benchmark;
pub mod engine;
pub mod memory_pool;
pub mod persistent_pool;
pub mod process_pool;
pub mod pipeline;
pub mod types;
pub mod proof_verifier;
