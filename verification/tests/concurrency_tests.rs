use nexus_network::prover::adaptive_concurrency::{
    get_optimal_worker_count, manager_for_system, record_proof_completion, update_system_metrics, AdaptiveConcurrencyManager,
};
use nexus_network::system::GIB;

const SEC: u64 = 1_000_000_000;

#[test]
fn base_workers_before_cooldown() {
    let m = AdaptiveConcurrencyManager::new(8, 16, 0);
    assert_eq!(m.get_optimal_workers(29 * SEC), 8);
}

#[test]
fn scaling_after_cooldown() {
    let mut m = AdaptiveConcurrencyManager::new(8, 16, 0);
    // No load and no proofs: 8 * 1.5 = 12, * 1.2 = 14, * 0.9 = 12.
    assert_eq!(m.get_optimal_workers(30 * SEC), 12);
    // Heavy load, fast proofs: 8 * 0.7 = 5, * 0.8 = 4, * 1.1 = 4.
    m.update_metrics(9500, 9000, 600, 31 * SEC);
    assert_eq!(m.get_optimal_workers(40 * SEC), 4);
    // Bounded below by a quarter of the base.
    let mut low = AdaptiveConcurrencyManager::new(2, 4, 0);
    low.update_metrics(9500, 9000, 0, 0);
    assert_eq!(low.get_optimal_workers(40 * SEC), 1);
}

#[test]
fn completion_rate_smoothing_and_trend() {
    let mut m = AdaptiveConcurrencyManager::new(4, 8, 0);
    m.record_proof_completion(2 * SEC);
    // 0.3 of half a proof per second.
    let _ = get_optimal_worker_count(&m, 0);
    assert_eq!(m.get_performance_trend(), (0, 1));
    for rate in [100, 100, 100, 200, 200, 200] {
        m.update_metrics(5000, 5000, rate, 0);
    }
    // (600 - 300) / 300.
    assert_eq!(m.get_performance_trend(), (300, 300));
    for _ in 0..20 {
        m.update_metrics(5000, 5000, 50, 0);
    }
    assert_eq!(m.get_performance_trend(), (0, 150));
    record_proof_completion(&mut m, 0);
    update_system_metrics(&mut m, 1, 2, 3, 4);
}

#[test]
fn system_manager() {
    let m = manager_for_system(32 * GIB, 4, 0);
    assert_eq!(m.get_optimal_workers(0), 16);
    let small = manager_for_system(GIB, 1, 0);
    assert_eq!(small.get_optimal_workers(0), 1);
}

#[test]
fn monitor_load_keeps_rate_and_history() {
    let mut m = AdaptiveConcurrencyManager::new(8, 16, 0);
    m.update_metrics(5000, 5000, 700, 0);
    m.record_system_load(9500, 9000, 31 * SEC);
    // The rate of 0.7 proofs per second stays: 8 * 0.7 = 5, * 0.8 = 4, * 1.1 = 4.
    assert_eq!(m.get_optimal_workers(40 * SEC), 4);
    assert_eq!(m.get_performance_trend(), (0, 1));
}
