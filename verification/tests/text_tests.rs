use nexus_network::text::{available_memory_mb, decimal_string, is_whitespace, resident_memory_kb, same_text, trimmed_line_with};

const MEMINFO: &str = "MemTotal:        2009216 kB\nMemFree:          123456 kB\nMemAvailable:    1536000 kB\nBuffers:           1024 kB\n";

#[test]
fn meminfo_available_in_mib() {
    assert_eq!(available_memory_mb(Some(MEMINFO)), 1500);
}

#[test]
fn meminfo_fallbacks() {
    assert_eq!(available_memory_mb(None), 512);
    assert_eq!(available_memory_mb(Some("MemTotal: 1 kB\n")), 512);
    // A keyed line without a number is passed over for a later one.
    assert_eq!(available_memory_mb(Some("MemAvailable: lots\nMemAvailable: 4096 kB\n")), 4);
    assert_eq!(available_memory_mb(Some("MemAvailable:\t+2048 kB\r\n")), 2);
    assert_eq!(available_memory_mb(Some("MemAvailable: -2048 kB\n")), 512);
    assert_eq!(available_memory_mb(Some("MemAvailable: 99999999999999999999999 kB")), 512);
}

#[test]
fn status_resident_size() {
    let status = "Name:\tnexus\nVmPeak:\t  300000 kB\nVmRSS:\t  204800 kB\nThreads:\t4\n";
    assert_eq!(resident_memory_kb(status), Some(204800));
    // Only the first VmRSS line counts.
    assert_eq!(resident_memory_kb("VmRSS: x kB\nVmRSS: 5 kB\n"), None);
    assert_eq!(resident_memory_kb("VmSize: 5 kB\n"), None);
    assert_eq!(resident_memory_kb(""), None);
}

#[test]
fn helpers() {
    assert_eq!(decimal_string(0), "0");
    assert_eq!(decimal_string(1234567890), "1234567890");
    assert!(is_whitespace('\u{3000}'));
    assert!(!is_whitespace('x'));
    assert!(same_text("abc", "abc"));
    assert!(!same_text("abc", "abd"));
}

#[test]
fn keyed_line_trimmed() {
    let status = "Name:\tnexus\nVmRSS:\t  204800 kB \r\nVmRSS:\t1 kB\n";
    assert_eq!(trimmed_line_with(status, "VmRSS:").as_deref(), Some("VmRSS:\t  204800 kB"));
    assert_eq!(trimmed_line_with(status, "Name:").as_deref(), Some("Name:\tnexus"));
    assert_eq!(trimmed_line_with(status, "VmHWM:"), None);
    assert_eq!(trimmed_line_with("", "VmRSS:"), None);
}
