use nexus_network::prover::pipeline::{PreTaskReport, ProvingPipeline, TaskRejection, TaskType};
use nexus_network::prover::types::ProverError;
use nexus_network::system::GIB;

#[test]
fn proof_hash_is_keccak_hex() {
    assert_eq!(
        ProvingPipeline::generate_proof_hash(&[]),
        "c5d2460186f7233c927e7db2dcc703c0e500b653ca82273b7bfad8045d85a470"
    );
    let h = ProvingPipeline::generate_proof_hash(b"proof");
    assert_eq!(h.len(), 64);
    assert!(h.chars().all(|c| c.is_ascii_hexdigit() && !c.is_ascii_uppercase()));
    assert_ne!(h, ProvingPipeline::generate_proof_hash(b"proog"));
}

#[test]
fn hashes_are_joined_for_hash_tasks() {
    let hashes = vec!["ab".to_string(), "cd".to_string(), "ef".to_string()];
    assert_eq!(ProvingPipeline::combine_proof_hashes(TaskType::AllProofHashes, &hashes), "abcdef");
    assert_eq!(ProvingPipeline::combine_proof_hashes(TaskType::ProofHash, &hashes), "abcdef");
    assert_eq!(ProvingPipeline::combine_proof_hashes(TaskType::ProofHash, &[]), "");
}

#[test]
fn other_tasks_hash_the_joined_hashes() {
    let hashes = vec!["ab".to_string(), "cd".to_string()];
    let combined = ProvingPipeline::combine_proof_hashes(TaskType::ProofRequired, &hashes);
    assert_eq!(combined, ProvingPipeline::generate_proof_hash(b"abcd"));
    assert_eq!(ProvingPipeline::combine_proof_hashes(TaskType::ProofRequired, &[]), "");
}

#[test]
fn program_and_inputs_checks() {
    assert!(ProvingPipeline::check_program("fib_input_initial").is_ok());
    assert!(matches!(ProvingPipeline::check_program("other"), Err(ProverError::MalformedTask(ref m)) if m == "Unsupported program ID: other"));
    assert!(ProvingPipeline::check_inputs(3).is_ok());
    assert!(matches!(ProvingPipeline::check_inputs(0), Err(ProverError::MalformedTask(ref m)) if m == "No inputs provided for task"));
}

fn status(kb: usize) -> String {
    format!("Name:\tnexus\nVmRSS:\t{} kB\n", kb)
}

#[test]
fn pre_task_check_outcomes() {
    // Large machines and unreadable status are not checked.
    assert!(matches!(ProvingPipeline::pre_task_memory_check(4 * GIB, Some(&status(10_000_000)), 1), Ok(None)));
    assert!(matches!(ProvingPipeline::pre_task_memory_check(GIB, None, 1), Ok(None)));
    assert!(matches!(ProvingPipeline::pre_task_memory_check(GIB, Some("no rss here"), 1), Ok(None)));
    // 1 GiB: threshold 800 MB.
    assert!(matches!(
        ProvingPipeline::pre_task_memory_check(GIB, Some(&status(900 * 1024)), 1),
        Err(TaskRejection::MemoryTooHigh { memory_mb: 900, threshold_mb: 800 })
    ));
    // 1 GiB: 500 + 180 MB exceeds 65% of 1024 MB (665 MB).
    assert!(matches!(
        ProvingPipeline::pre_task_memory_check(GIB, Some(&status(500 * 1024)), 1),
        Err(TaskRejection::InsufficientMemory { estimated_mb: 680, limit_mb: 665, threshold_percent: 65 })
    ));
    // 2 GiB: 1150 MB in use with a large task.
    assert!(matches!(
        ProvingPipeline::pre_task_memory_check(2 * GIB, Some(&status(1150 * 1024)), 11),
        Err(TaskRejection::LargeTaskOnLowMemory { inputs: 11, memory_mb: 1150 })
    ));
    let ok = ProvingPipeline::pre_task_memory_check(2 * GIB, Some(&status(100 * 1024)), 3);
    match ok {
        Ok(Some(PreTaskReport { memory_mb, inputs, memory_per_proof_mb, system_limit_mb })) => {
            assert_eq!(memory_mb, 100);
            assert_eq!(inputs, 3);
            assert_eq!(memory_per_proof_mb, 325);
            assert_eq!(system_limit_mb, 1945);
        },
        _ => panic!("expected the check to pass"),
    }
}

#[test]
fn task_proofs_are_hashed_in_order() {
    let proofs = vec![Vec::new(), b"proof".to_vec()];
    let (combined, hashes) = ProvingPipeline::hash_proofs(TaskType::AllProofHashes, &proofs);
    assert_eq!(hashes.len(), 2);
    assert_eq!(hashes[0], "c5d2460186f7233c927e7db2dcc703c0e500b653ca82273b7bfad8045d85a470");
    assert_eq!(hashes[1], ProvingPipeline::generate_proof_hash(b"proof"));
    assert_eq!(combined, format!("{}{}", hashes[0], hashes[1]));
    let (required, _) = ProvingPipeline::hash_proofs(TaskType::ProofRequired, &proofs);
    assert_eq!(required, ProvingPipeline::generate_proof_hash(combined.as_bytes()));
    let (none, no_hashes) = ProvingPipeline::hash_proofs(TaskType::ProofHash, &[]);
    assert_eq!(none, "");
    assert!(no_hashes.is_empty());
}
