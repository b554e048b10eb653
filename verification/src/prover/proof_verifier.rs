//! Checking how a guest program ended.
use vstd::prelude::*;
use vstd::string::StringExecFns;
use crate::prover::types::ProverError;
use crate::text::{spec_decimal, push_decimal};

verus! {

/// The exit code of a guest program that finished successfully.
pub const EXIT_SUCCESS: u32 = 0;

/// Validates generated proofs.
pub struct ProofVerifier;

impl ProofVerifier {
    /// Checks the exit code read from a proof's view: a failure to read it and
    /// any code other than success are guest-program errors.
    pub fn check_exit_code(exit_code: Result<u32, String>) -> (r: Result<(), ProverError>)
        ensures
            match exit_code {
                Err(e) => r matches Err(ProverError::GuestProgram(m))
                    && m@ == "Failed to deserialize exit code: "@ + e@,
                Ok(code) => if code == EXIT_SUCCESS {
                    r is Ok
                } else {
                    r matches Err(ProverError::GuestProgram(m))
                        && m@ == "Prover exited with non-zero exit code: "@ + spec_decimal(code as nat)
                },
            },
    {
        match exit_code {
            Err(e) => {
                let mut m = String::from_str("Failed to deserialize exit code: ");
                m.append(e.as_str());
                Err(ProverError::GuestProgram(m))
            },
            Ok(code) => {
                if code != EXIT_SUCCESS {
                    let mut m = String::from_str("Prover exited with non-zero exit code: ");
                    push_decimal(&mut m, code as u64);
                    return Err(ProverError::GuestProgram(m));
                }
                Ok(())
            },
        }
    }
}

} // verus!
