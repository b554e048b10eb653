use nexus_network::memory_guard::{MemoryGuard, MemoryStatus};
use nexus_network::system::GIB;

#[test]
fn test_memory_guard_creation() {
    let guard = MemoryGuard::new(GIB, GIB + GIB / 2, 0);
    assert_eq!(guard.warning_threshold(), GIB);
    assert_eq!(guard.critical_threshold(), GIB + GIB / 2);
}

#[test]
fn test_memory_status() {
    let status = MemoryStatus::Normal;
    assert!(!status.is_critical());
    assert!(!status.is_concerning());

    let warning = MemoryStatus::Warning {
        current: GIB + GIB / 5,
        threshold: GIB,
    };
    assert!(!warning.is_critical());
    assert!(warning.is_concerning());

    let critical = MemoryStatus::Critical {
        current: GIB + GIB * 4 / 5,
        threshold: GIB + GIB / 2,
    };
    assert!(critical.is_critical());
    assert!(critical.is_concerning());
}

#[test]
fn thresholds_follow_machine_size() {
    let small = MemoryGuard::for_current_system(GIB, 0);
    assert_eq!(small.warning_threshold(), GIB * 70 / 100);
    assert_eq!(small.critical_threshold(), GIB * 85 / 100);
    let medium = MemoryGuard::for_current_system(3 * GIB, 0);
    assert_eq!(medium.warning_threshold(), 3 * GIB * 75 / 100);
    assert_eq!(medium.critical_threshold(), 3 * GIB * 90 / 100);
    let large = MemoryGuard::for_current_system(16 * GIB, 0);
    assert_eq!(large.warning_threshold(), 16 * GIB * 80 / 100);
    assert_eq!(large.critical_threshold(), 16 * GIB * 95 / 100);
}

#[test]
fn check_memory_levels_and_disable() {
    let mut guard = MemoryGuard::new(100, 200, 0);
    assert!(matches!(guard.check_memory(99), MemoryStatus::Normal));
    assert!(matches!(guard.check_memory(100), MemoryStatus::Warning { current: 100, threshold: 100 }));
    assert!(matches!(guard.check_memory(200), MemoryStatus::Critical { current: 200, threshold: 200 }));
    guard.disable();
    assert!(matches!(guard.check_memory(500), MemoryStatus::Normal));
    guard.enable();
    assert!(matches!(guard.check_memory(500), MemoryStatus::Critical { .. }));
}

#[test]
fn throttled_check_waits_for_interval() {
    let mut guard = MemoryGuard::new(100, 200, 1_000);
    assert!(guard.check_memory_throttled(500, 1_400, 300).is_none());
    let s = guard.check_memory_throttled(500, 1_500, 300);
    assert!(matches!(s, Some(MemoryStatus::Critical { .. })));
    assert!(guard.check_memory_throttled(500, 1_900, 300).is_none());
    assert!(matches!(guard.check_memory_throttled(500, 2_000, 150), Some(MemoryStatus::Warning { .. })));
}

#[test]
fn descriptions_render_gigabytes() {
    assert_eq!(MemoryStatus::Normal.description(), "Memory usage OK");
    let w = MemoryStatus::Warning { current: GIB + GIB / 5, threshold: GIB };
    assert_eq!(w.description(), "Memory warning: 1.2GB used (threshold: 1.0GB)");
    let c = MemoryStatus::Critical { current: GIB * 9 / 5, threshold: GIB + GIB / 2 };
    assert_eq!(c.description(), "Memory critical: 1.8GB used (threshold: 1.5GB)");
    // 1.25 GiB lies exactly between two tenths and rounds to the even one.
    let tie = MemoryStatus::Warning { current: GIB + GIB / 4, threshold: 12 * GIB };
    assert_eq!(tie.description(), "Memory warning: 1.2GB used (threshold: 12.0GB)");
}
