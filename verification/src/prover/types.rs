//! Errors of the prover.
use vstd::prelude::*;

verus! {

/// Declares `postcard::Error` so that it can be carried in an error.
#[verifier::external_type_specification]
#[verifier::external_body]
pub struct ExPostcardError(postcard::Error);

/// Why proving failed.
#[derive(Debug)]
pub enum ProverError {
    /// The zkVM prover failed, or the task was refused before proving.
    Stwo(String),
    /// Inputs or proofs could not be (de)serialized.
    Serialization(postcard::Error),
    /// The task is not one that this prover can run.
    MalformedTask(String),
    /// The guest program did not finish successfully.
    GuestProgram(String),
    /// The proving subprocess failed.
    Subprocess(String),
    /// Reading or writing failed.
    Io(String),
}

} // verus!
