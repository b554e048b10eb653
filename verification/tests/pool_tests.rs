use nexus_network::prover::memory_pool::{BatchArena, MemoryPool, SerializationBuffer};
use nexus_network::prover::persistent_pool::{
    calculate_safe_pool_size, check_process_alive, get_global_pool_stats, global_pre_warm_count, pre_warm_for_cores, PersistentProcessPool,
    PersistentProverProcess, Returned,
};
use nexus_network::prover::process_pool::{check_prewarmed_status, initial_pre_warm_count, no_process_error, PreWarmedProcess, ProcessPool};
use nexus_network::prover::types::ProverError;
use nexus_network::system::GIB;

const SEC: u64 = 1_000_000_000;

#[test]
fn memory_pool_is_bounded_fifo() {
    let mut pool: MemoryPool<u32> = MemoryPool::new(2);
    assert_eq!(pool.acquire(), None);
    pool.release(1);
    pool.release(2);
    pool.release(3);
    assert_eq!(pool.acquire(), Some(1));
    assert_eq!(pool.acquire(), Some(2));
    assert_eq!(pool.acquire(), None);
}

#[test]
fn arena_and_serialization_buffer() {
    let mut arena = BatchArena::new();
    arena.store_proof(vec![1, 2]);
    arena.store_proof(vec![3]);
    arena.get_buffer().push(9);
    assert_eq!(arena.take_proofs(), vec![vec![1, 2], vec![3]]);
    assert!(arena.take_proofs().is_empty());
    let mut buf = SerializationBuffer::default();
    buf.get_mut().extend_from_slice(&[1, 2, 3]);
    assert_eq!(buf.as_slice(), &[1, 2, 3]);
    buf.get_mut().push(4);
    assert_eq!(buf.as_slice(), &[4]);
}

#[test]
fn process_health() {
    let mut p = PersistentProverProcess::new("h", 0);
    assert!(p.is_healthy(299 * SEC));
    assert!(!p.is_healthy(300 * SEC));
    p.record_proof(290 * SEC);
    assert!(p.is_healthy(580 * SEC));
    assert!(!p.is_healthy(600 * SEC));
    let s = p.get_stats(450 * SEC);
    assert_eq!((s.proof_count, s.age_seconds, s.idle_seconds, s.is_healthy), (1, 450, 160, true));
    let mut worn = PersistentProverProcess::new("w", 0);
    worn.proof_count = 1000;
    assert!(!worn.is_healthy(1));
}

#[test]
fn persistent_pool_hands_out_first_healthy() {
    let mut pool: PersistentProcessPool<u32> = PersistentProcessPool::new(5);
    assert_eq!(pool.pre_warm_count(8), 5);
    pool.add_prewarmed(PersistentProverProcess::new(1, 0));
    pool.add_prewarmed(PersistentProverProcess::new(2, 400 * SEC));
    let (p, retired) = pool.get_process(500 * SEC);
    assert_eq!(p.map(|p| p.handle), Some(2));
    assert_eq!(retired.len(), 1);
    assert_eq!(retired[0].handle, 1);
    let s = pool.get_stats();
    assert_eq!((s.total_processes_created, s.processes_reused, s.processes_expired, s.active_processes), (2, 1, 1, 1));
    let (none, retired) = pool.get_process(500 * SEC);
    assert!(none.is_none());
    assert!(retired.is_empty());
    pool.register_new_process();
    assert_eq!(pool.get_stats().total_processes_created, 3);
}

#[test]
fn persistent_pool_returns_and_cleanup() {
    let mut pool: PersistentProcessPool<u32> = PersistentProcessPool::new(5);
    let mut p = PersistentProverProcess::new(7, 0);
    p.record_proof(SEC);
    p.record_proof(2 * SEC);
    assert!(matches!(pool.return_process(p, 3 * SEC), Returned::Pooled));
    assert_eq!(pool.get_stats().total_proofs_generated, 2);
    let stale = PersistentProverProcess::new(8, 0);
    assert!(matches!(pool.return_process(stale, 400 * SEC), Returned::Retired(_)));
    assert_eq!(pool.get_stats().processes_expired, 1);
    let details = pool.get_detailed_stats(10 * SEC);
    assert_eq!(details.pool_size, 1);
    assert_eq!(details.max_size, 5);
    assert_eq!(details.process_details[0].proof_count, 2);
    let removed = pool.cleanup_expired(400 * SEC);
    assert_eq!(removed.len(), 1);
    assert_eq!(pool.get_detailed_stats(400 * SEC).pool_size, 0);
    assert_eq!(pool.get_stats().processes_expired, 2);
    for i in 0..20 {
        assert!(matches!(pool.return_process(PersistentProverProcess::new(i, 0), 0), Returned::Pooled));
    }
    assert!(matches!(pool.return_process(PersistentProverProcess::new(99, 0), 0), Returned::Dropped(_)));
}

#[test]
fn pool_sizes_by_memory() {
    assert_eq!(calculate_safe_pool_size(GIB, 1), 1);
    assert_eq!(calculate_safe_pool_size(GIB, 2), 2);
    assert_eq!(calculate_safe_pool_size(4 * GIB, 4), 4);
    assert_eq!(calculate_safe_pool_size(8 * GIB, 8), 8);
    assert_eq!(calculate_safe_pool_size(16 * GIB, 16), 16);
    // One per GiB at most, two always allowed, sixteen at most, one at least.
    assert_eq!(calculate_safe_pool_size(3 * GIB, 8), 3);
    assert_eq!(calculate_safe_pool_size(GIB, 8), 2);
    assert_eq!(calculate_safe_pool_size(64 * GIB, 64), 16);
    assert_eq!(calculate_safe_pool_size(64 * GIB, 0), 1);
    assert_eq!(global_pre_warm_count(GIB), 0);
    assert_eq!(global_pre_warm_count(3 * GIB), 1);
    let n = global_pre_warm_count(16 * GIB);
    assert!((1..=5).contains(&n));
    assert_eq!(pre_warm_for_cores(1), 1);
    assert_eq!(pre_warm_for_cores(8), 4);
    assert_eq!(pre_warm_for_cores(64), 5);
    assert_eq!(initial_pre_warm_count(16 * GIB), 4);
    assert_eq!(initial_pre_warm_count(8 * GIB), 2);
    assert_eq!(initial_pre_warm_count(GIB), 1);
}

#[test]
fn process_status_checks() {
    assert!(check_process_alive(None).is_ok());
    assert!(matches!(check_process_alive(Some((true, "exit status: 0".to_string()))), Err(ProverError::Subprocess(ref m)) if m == "Process ended unexpectedly"));
    assert!(matches!(check_process_alive(Some((false, "exit status: 1".to_string()))), Err(ProverError::Subprocess(ref m)) if m == "Process died: exit status: 1"));
    assert!(check_prewarmed_status(Some((true, "x".to_string()))).is_ok());
    assert!(matches!(check_prewarmed_status(Some((false, "exit status: 2".to_string()))), Err(ProverError::Subprocess(ref m)) if m == "Pre-warmed process failed: exit status: 2"));
    assert!(matches!(no_process_error(), ProverError::Subprocess(ref m) if m == "No process available"));
}

#[test]
fn prewarmed_pool_expiry_and_requests() {
    let mut pool: ProcessPool<u32> = ProcessPool::new(2, 300 * SEC);
    assert!(pool.add_process(PreWarmedProcess::new(1, 0)).is_none());
    assert!(pool.add_process(PreWarmedProcess::new(2, 100 * SEC)).is_none());
    assert_eq!(pool.add_process(PreWarmedProcess::new(3, 0)).map(|p| p.handle), Some(3));
    let (expired, front) = pool.take_process(350 * SEC);
    assert_eq!(expired.len(), 1);
    assert_eq!(expired[0].handle, 1);
    let mut p = front.unwrap();
    assert_eq!(p.handle, 2);
    let request = p.execute_proof(&(1, 300, 0), 360 * SEC).unwrap();
    assert_eq!(request, vec![1, 0xAC, 0x02, 0]);
    assert_eq!(p.last_used, 360 * SEC);
    assert!(pool.return_process(p, true).is_none());
    assert_eq!(pool.return_process(PreWarmedProcess::new(4, 0), false).map(|p| p.handle), Some(4));
    assert_eq!(pool.pre_warm_count(10), 2);
}

#[test]
fn returned_process_is_handed_out_again() {
    let mut pool: PersistentProcessPool<u32> = PersistentProcessPool::new(2);
    let p = PersistentProverProcess::new(5, 0);
    assert!(matches!(pool.return_process(p, 10 * SEC), Returned::Pooled));
    let (again, retired) = pool.get_process(20 * SEC);
    assert_eq!(again.map(|p| p.handle), Some(5));
    assert!(retired.is_empty());
    assert_eq!(get_global_pool_stats(&pool).processes_reused, 1);
}
