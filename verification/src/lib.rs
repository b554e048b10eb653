//! Resource-aware scheduling core of a zero-knowledge prover client: memory
//! guards, adaptive batch and worker sizing, process and connection pools, and
//! the text and byte formats that the prover exchanges with its subprocesses.
pub mod memory_guard;
pub mod network;
pub mod prover;
pub mod session;
pub mod system;
pub mod text;
