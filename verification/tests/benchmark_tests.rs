use nexus_network::prover::benchmark::{
    average_proof_time, batch_ranges, benchmark_status, benchmark_task_id, comprehensive_benchmark, fixed_batch_size,
    quick_benchmark, task_id_from_uuid, BenchmarkStatus, ProverBenchmark,
};

const SEC: u64 = 1_000_000_000;

#[test]
fn builder_and_configurations() {
    let b = ProverBenchmark::new(10).with_concurrent_batches(3).with_persistent_pool(false);
    assert_eq!(b.num_proofs(), 10);
    assert_eq!(b.concurrent_batches(), 3);
    assert!(!b.uses_persistent_pool());
    assert!(b.uses_adaptive_batching());
    let configs = b.comparative_configurations();
    let flags: Vec<(bool, bool)> = configs.iter().map(|c| (c.uses_persistent_pool(), c.uses_adaptive_batching())).collect();
    assert_eq!(flags, vec![(false, false), (true, false), (false, true), (true, true)]);
    let q = quick_benchmark();
    assert_eq!((q.num_proofs(), q.concurrent_batches()), (20, 4));
    let c = comprehensive_benchmark();
    assert_eq!((c.num_proofs(), c.concurrent_batches()), (50, 6));
}

#[test]
fn test_inputs_text() {
    let inputs = ProverBenchmark::new(100).generate_test_inputs();
    assert_eq!(inputs.len(), 100);
    assert_eq!(inputs[0], b"0,1,2".to_vec());
    assert_eq!(inputs[9], b"9,10,11".to_vec());
    assert_eq!(inputs[98], b"98,99,0".to_vec());
    assert_eq!(inputs[99], b"99,0,1".to_vec());
}

#[test]
fn batch_planning() {
    assert_eq!(fixed_batch_size(20, 4), 5);
    assert_eq!(fixed_batch_size(10, 4), 4);
    assert_eq!(batch_ranges(10, 4), vec![(0, 4), (4, 8), (8, 10)]);
    assert_eq!(batch_ranges(8, 4), vec![(0, 4), (4, 8)]);
    assert!(batch_ranges(0, 4).is_empty());
}

#[test]
fn timing_and_status() {
    assert_eq!(average_proof_time(10 * SEC, 4), 2_500_000_000);
    // Duration division divides whole seconds and nanoseconds separately.
    assert_eq!(average_proof_time(SEC + 2, 3), 333_333_333);
    assert!(matches!(benchmark_status(20, 10 * SEC), BenchmarkStatus::Excellent));
    assert!(matches!(benchmark_status(20, 20 * SEC), BenchmarkStatus::Good));
    assert!(matches!(benchmark_status(20, 40 * SEC), BenchmarkStatus::Fair));
    assert!(matches!(benchmark_status(20, 100 * SEC), BenchmarkStatus::NeedsImprovement));
    assert_eq!(BenchmarkStatus::Excellent.status_line(), "Status: EXCELLENT (>1 proof/second)");
    assert_eq!(BenchmarkStatus::NeedsImprovement.status_line(), "Status: NEEDS IMPROVEMENT (<0.2 proofs/second)");
}

#[test]
fn task_ids_are_fresh() {
    let a = benchmark_task_id().unwrap();
    let b = benchmark_task_id().unwrap();
    assert!(a.starts_with("benchmark_task_"));
    assert_eq!(a.len(), 51);
    assert_ne!(a, b);
}

#[test]
fn task_ids_carry_a_v4_uuid() {
    assert_eq!(
        task_id_from_uuid("67e55044-10b1-426f-9247-bb680e5fe0c8"),
        "benchmark_task_67e55044-10b1-426f-9247-bb680e5fe0c8"
    );
    let id = benchmark_task_id().unwrap();
    let u: Vec<char> = id["benchmark_task_".len()..].chars().collect();
    assert_eq!(u.len(), 36);
    for (i, c) in u.iter().enumerate() {
        if [8, 13, 18, 23].contains(&i) {
            assert_eq!(*c, '-');
        } else {
            assert!(c.is_ascii_digit() || ('a'..='f').contains(c));
        }
    }
    assert_eq!(u[14], '4');
    assert!(['8', '9', 'a', 'b'].contains(&u[19]));
}
