use nexus_network::prover::adaptive_batch::{should_use_global_batcher, AdaptiveBatcher, BatchMetrics};
use nexus_network::system::GIB;

const SEC: u64 = 1_000_000_000;

#[test]
fn metrics_average_and_last() {
    let mut m = BatchMetrics::new();
    m.record_proof_time(100);
    m.record_proof_time(300);
    assert_eq!(m.total_proofs, 2);
    assert_eq!(m.total_time, 400);
    assert_eq!(m.get_average_proof_time(), 200);
    assert_eq!(m.get_last_proof_time(), 300);
    m.record_batch();
    assert_eq!(m.total_batches, 1);
}

#[test]
fn bounds_depend_on_memory() {
    let tiny = AdaptiveBatcher::with_bounds(4, 20, GIB, 0);
    assert_eq!(tiny.get_optimal_batch_size(), 1);
    let low = AdaptiveBatcher::with_bounds(4, 20, GIB + GIB * 3 / 4, 0);
    assert_eq!(low.get_optimal_batch_size(), 1);
    let normal = AdaptiveBatcher::new(8 * GIB, 0);
    assert_eq!(normal.get_optimal_batch_size(), 4);
    let big_min = AdaptiveBatcher::with_bounds(6, 20, 8 * GIB, 0);
    assert_eq!(big_min.get_optimal_batch_size(), 6);
}

#[test]
fn memory_adjusted_sizes() {
    let b = AdaptiveBatcher::with_bounds(10, 20, 8 * GIB, 0);
    assert_eq!(b.get_memory_adjusted_batch_size(1, 64 * GIB), 1);
    assert_eq!(b.get_memory_adjusted_batch_size(100, 64 * GIB), 15);
    assert_eq!(b.get_memory_adjusted_batch_size(100, 16 * GIB), 12);
    assert_eq!(b.get_memory_adjusted_batch_size(100, 8 * GIB), 10);
    assert_eq!(b.get_memory_adjusted_batch_size(100, 4 * GIB), 8);
    assert_eq!(b.get_memory_adjusted_batch_size(100, 2 * GIB), 6);
    assert_eq!(b.get_memory_adjusted_batch_size(100, GIB + GIB / 2), 6);
    assert_eq!(b.get_memory_adjusted_batch_size(100, GIB), 6);
    assert_eq!(b.get_memory_adjusted_batch_size(5, 64 * GIB), 5);
    assert_eq!(b.get_memory_adjusted_batch_size(0, 64 * GIB), 0);
}

#[test]
fn fast_batches_grow_the_size_after_the_interval() {
    let mut b = AdaptiveBatcher::with_bounds(4, 20, 8 * GIB, 0);
    // Within thirty seconds nothing is adjusted.
    b.record_batch_performance(10, 10 * SEC, 10, 10 * SEC, 8 * GIB);
    assert_eq!(b.get_optimal_batch_size(), 4);
    // One second per proof is under 0.7 of the two-second target: 10 -> 13.
    b.record_batch_performance(10, 10 * SEC, 10, 40 * SEC, 8 * GIB);
    let m = b.get_metrics();
    assert_eq!(m.current_batch_size, 13);
    assert_eq!(m.consecutive_good_batches, 1);
    assert_eq!(m.total_batches, 2);
    assert_eq!(m.total_proofs, 20);
    assert_eq!(m.average_proof_time, SEC);
}

#[test]
fn slow_and_failed_batches_shrink_the_size() {
    let mut b = AdaptiveBatcher::with_bounds(4, 20, 8 * GIB, 0);
    // Four seconds per proof is over 1.5 times the target: 10 -> 8.
    b.record_batch_performance(10, 40 * SEC, 10, 40 * SEC, 8 * GIB);
    let m = b.get_metrics();
    assert_eq!(m.current_batch_size, 8);
    assert_eq!(m.consecutive_bad_batches, 1);
    // A batch with no proof halves the size, not below the minimum.
    b.record_batch_performance(8, 40 * SEC, 0, 80 * SEC, 8 * GIB);
    let m = b.get_metrics();
    assert_eq!(m.current_batch_size, 4);
    assert_eq!(m.consecutive_bad_batches, 2);
    assert_eq!(m.consecutive_good_batches, 0);
}

#[test]
fn three_slow_batches_halve_the_size() {
    let mut b = AdaptiveBatcher::with_bounds(2, 40, 8 * GIB, 0);
    let mut now = 0;
    for _ in 0..3 {
        now += 31 * SEC;
        // 2.6 s per proof: slightly slow, size 20 -> 18 then bounded.
        b.record_batch_performance(20, 52 * SEC, 20, now, 8 * GIB);
    }
    let m = b.get_metrics();
    assert_eq!(m.consecutive_bad_batches, 0);
    assert_eq!(m.current_batch_size, 9);
}

#[test]
fn global_batcher_only_above_two_gib() {
    assert!(!should_use_global_batcher(2 * GIB));
    assert!(should_use_global_batcher(2 * GIB + 1));
}

#[test]
fn streak_correction_starts_a_new_interval() {
    let mut b = AdaptiveBatcher::with_bounds(2, 40, 8 * GIB, 0);
    let mut now = 0;
    for _ in 0..3 {
        now += 31 * SEC;
        b.record_batch_performance(20, 52 * SEC, 20, now, 8 * GIB);
    }
    assert_eq!(b.get_metrics().current_batch_size, 9);
    // Seven seconds after the halving, even very fast proofs change nothing.
    b.record_batch_performance(20, 5 * SEC, 20, now + 7 * SEC, 8 * GIB);
    let m = b.get_metrics();
    assert_eq!(m.current_batch_size, 9);
    assert_eq!((m.consecutive_good_batches, m.consecutive_bad_batches), (0, 0));
    // Thirty seconds after it, they grow the size: 20 * 1.3 = 26.
    b.record_batch_performance(20, 5 * SEC, 20, now + 30 * SEC, 8 * GIB);
    assert_eq!(b.get_metrics().current_batch_size, 26);
}
