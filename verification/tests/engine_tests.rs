use nexus_network::prover::engine::{memory_profile, MemoryProfile, ProvingEngine};
use nexus_network::prover::proof_verifier::ProofVerifier;
use nexus_network::prover::types::ProverError;

#[test]
fn profile_by_available_memory() {
    assert!(matches!(memory_profile(949), MemoryProfile::ExtremeLowMemory));
    assert!(matches!(memory_profile(950), MemoryProfile::UltraLowMemory));
    assert!(matches!(memory_profile(1199), MemoryProfile::UltraLowMemory));
    assert!(matches!(memory_profile(1200), MemoryProfile::Performance));
}

#[test]
fn settings_per_profile() {
    let p = ProvingEngine::apply_performance_optimizations();
    assert_eq!(p.env[0], ("MALLOC_ARENA_MAX", "1"));
    assert_eq!(p.env[2], ("RUST_MIN_STACK", "524288"));
    assert_eq!(p.rss_limit, None);
    let u = ProvingEngine::apply_ultra_low_memory_optimizations();
    assert_eq!(u.rss_limit, Some((200 * 1024 * 1024, 250 * 1024 * 1024)));
    assert_eq!(u.address_space_limit, None);
    let e = ProvingEngine::apply_extreme_low_memory_optimizations();
    assert_eq!(e.env.len(), 6);
    assert_eq!(e.env[5], ("RUST_NEW_RUNTIME", "1"));
    assert_eq!(e.address_space_limit, Some((300 * 1024 * 1024, 350 * 1024 * 1024)));
    let chosen = ProvingEngine::settings_for_available_memory(500);
    assert_eq!(chosen.env.len(), 6);
}

#[test]
fn inputs_are_little_endian() {
    let bytes = ProvingEngine::encode_inputs(&(1, 0x0102_0304, u32::MAX));
    assert_eq!(bytes, vec![1, 0, 0, 0, 4, 3, 2, 1, 255, 255, 255, 255]);
    let mut expected = Vec::new();
    expected.extend_from_slice(&7u32.to_le_bytes());
    expected.extend_from_slice(&70000u32.to_le_bytes());
    expected.extend_from_slice(&0u32.to_le_bytes());
    assert_eq!(ProvingEngine::encode_inputs(&(7, 70000, 0)), expected);
}

#[test]
fn subprocess_failures() {
    let oom = ProvingEngine::classify_subprocess_failure(Some(137), "", "exit status: 137");
    assert!(oom.likely_oom);
    assert!(matches!(oom.error, ProverError::Subprocess(ref m) if m == "Prover subprocess failed with status: exit status: 137"));
    let internal = ProvingEngine::classify_subprocess_failure(Some(3), "boom", "exit status: 3");
    assert!(!internal.likely_oom);
    assert!(matches!(internal.error, ProverError::Subprocess(ref m) if m == "Error while proving within subprocess, captured error: [boom]"));
    let pipe = ProvingEngine::classify_subprocess_failure(Some(141), "", "exit status: 141");
    assert!(matches!(pipe.error, ProverError::Subprocess(ref m) if m == "Subprocess terminated by SIGPIPE (broken pipe) - likely during shutdown"));
    let signal = ProvingEngine::classify_subprocess_failure(None, "", "signal: 9 (SIGKILL)");
    assert!(!signal.likely_oom);
    assert!(matches!(signal.error, ProverError::Subprocess(ref m) if m == "Prover subprocess failed with status: signal: 9 (SIGKILL)"));
}

#[test]
fn exit_codes() {
    assert!(ProofVerifier::check_exit_code(Ok(0)).is_ok());
    assert!(matches!(ProofVerifier::check_exit_code(Ok(42)), Err(ProverError::GuestProgram(ref m)) if m == "Prover exited with non-zero exit code: 42"));
    assert!(matches!(ProofVerifier::check_exit_code(Err("bad".to_string())), Err(ProverError::GuestProgram(ref m)) if m == "Failed to deserialize exit code: bad"));
}
