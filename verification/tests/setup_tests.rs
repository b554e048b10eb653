use nexus_network::session::setup::{clamp_threads_by_memory, low_memory_mode, parse_node_id, requested_worker_count, requirement_fits, session_worker_count, subprocess_memory_mb, subprocess_multiplier, warn_memory_configuration};
use nexus_network::system::GIB;

#[test]
fn clamp_keeps_request_when_memory_suffices() {
    assert_eq!(clamp_threads_by_memory(4, false, GIB, 1), 4);
    assert_eq!(clamp_threads_by_memory(8, true, 16 * GIB, 8), 8);
}

#[test]
fn clamp_falls_back_to_memory_per_thread() {
    // 1 GiB, 64 cores: the subprocess strategy needs 20 + 64 * 25 MiB > 0.6 GiB;
    // 0.6 GiB / 200 MiB = 3 threads.
    assert_eq!(clamp_threads_by_memory(16, false, GIB, 64), 3);
    // 2 GiB, aggressive, 64 cores: 50 + 64 * 2 * 60 MiB > 1.8 GiB; 1.8 GiB / 512 MiB = 3.
    assert_eq!(clamp_threads_by_memory(16, true, 2 * GIB, 64), 3);
    // Never below one thread.
    assert_eq!(clamp_threads_by_memory(16, false, 100, 64), 1);
    assert_eq!(clamp_threads_by_memory(0, false, 100, 64), 0);
}

#[test]
fn session_workers() {
    // 8 cores: 90% rounded up is 8 (standard), 95% also 8.
    assert_eq!(session_worker_count(8, None, false, false, 16 * GIB), 8);
    assert_eq!(session_worker_count(20, None, false, false, 16 * GIB), 18);
    assert_eq!(session_worker_count(20, None, false, true, 64 * GIB), 19);
    assert_eq!(session_worker_count(8, Some(100), false, false, 16 * GIB), 8);
    assert_eq!(session_worker_count(8, Some(0), false, false, 16 * GIB), 1);
    assert_eq!(session_worker_count(64, Some(16), true, false, GIB), 3);
}

#[test]
fn reported_parameters() {
    assert_eq!(subprocess_multiplier(16 * GIB, true), 6);
    assert_eq!(subprocess_multiplier(16 * GIB, false), 3);
    assert_eq!(subprocess_multiplier(GIB, true), 1);
    assert_eq!(subprocess_memory_mb(GIB, true), 35);
    assert_eq!(subprocess_memory_mb(4 * GIB, false), 40);
    assert!(low_memory_mode(GIB));
    assert!(!low_memory_mode(GIB + 1));
    warn_memory_configuration(Some(4));
}

#[test]
fn requirement_fits_for_real_machines_only() {
    assert!(requirement_fits(8 * GIB, 16, true));
    assert!(requirement_fits(GIB, 1, false));
    // 6 * 60 MiB per core on 2^63 cores does not fit in 64 bits.
    assert!(!requirement_fits(16 * GIB, 1usize << 63, true));
}

#[test]
fn requested_workers_are_clamped_to_the_cores() {
    // 90% of 8 cores, rounded up, is 8; 95% of 20 cores is 19.
    assert_eq!(requested_worker_count(8, None, false), 8);
    assert_eq!(requested_worker_count(20, None, true), 19);
    assert_eq!(requested_worker_count(20, Some(0), true), 1);
    assert_eq!(requested_worker_count(20, Some(100), false), 18);
    assert_eq!(requested_worker_count(0, None, false), 1);
}

#[test]
fn node_ids_parse_as_u64() {
    assert_eq!(parse_node_id("12345"), Some(12345));
    assert_eq!(parse_node_id("+7"), Some(7));
    assert_eq!(parse_node_id("18446744073709551615"), Some(u64::MAX));
    assert_eq!(parse_node_id("18446744073709551616"), None);
    assert_eq!(parse_node_id(""), None);
    assert_eq!(parse_node_id("+"), None);
    assert_eq!(parse_node_id("-1"), None);
    assert_eq!(parse_node_id(" 1"), None);
}

#[test]
fn clamp_is_monotone_in_the_request() {
    let a = clamp_threads_by_memory(2, false, GIB, 64);
    let b = clamp_threads_by_memory(8, false, GIB, 64);
    assert!(a <= b);
    assert_eq!(clamp_threads_by_memory(0, true, GIB, 64), 0);
}
