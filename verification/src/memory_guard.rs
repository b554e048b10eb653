//! Memory monitoring for low-memory machines: thresholds on the prover's
//! resident memory, checked at most as often as the caller asks.
//!
//! Memory amounts are in bytes; the "GB" of the messages is GiB.
use vstd::prelude::*;
use vstd::string::StringExecFns;
use crate::system::{GIB, spec_elapsed, elapsed};
use crate::text::{spec_decimal, push_decimal};

verus! {

/// Memory usage status.
#[derive(Debug)]
pub enum MemoryStatus {
    /// Memory usage is within acceptable limits.
    Normal,
    /// Memory usage passed the warning threshold.
    Warning { current: u64, threshold: u64 },
    /// Memory usage passed the critical threshold.
    Critical { current: u64, threshold: u64 },
}

/// Watches the prover's memory against two thresholds (in bytes).
pub struct MemoryGuard {
    enabled: bool,
    last_check: u64,
    warning_threshold: u64,
    critical_threshold: u64,
}

/// Warning and critical thresholds for a machine of `total` bytes: 70% and
/// 85% below 2 GiB, 75% and 90% below 4 GiB, else 80% and 95% (rounded down).
pub open spec fn spec_system_thresholds(total: u64) -> (u64, u64) {
    if total < 2 * GIB {
        ((total * 70 / 100) as u64, (total * 85 / 100) as u64)
    } else if total < 4 * GIB {
        ((total * 75 / 100) as u64, (total * 90 / 100) as u64)
    } else {
        ((total * 80 / 100) as u64, (total * 95 / 100) as u64)
    }
}

/// The status for a process using `used` bytes: critical from the critical
/// threshold on, warning from the warning threshold on, else fine.
pub open spec fn spec_status(enabled: bool, warning: u64, critical: u64, used: u64) -> MemoryStatus {
    if !enabled {
        MemoryStatus::Normal
    } else if used >= critical {
        MemoryStatus::Critical { current: used, threshold: critical }
    } else if used >= warning {
        MemoryStatus::Warning { current: used, threshold: warning }
    } else {
        MemoryStatus::Normal
    }
}

impl MemoryGuard {
    /// Whether monitoring is on.
    pub closed spec fn is_enabled(&self) -> bool {
        self.enabled
    }

    /// When memory was last checked.
    pub closed spec fn last_check_time(&self) -> u64 {
        self.last_check
    }

    /// The warning threshold in bytes.
    pub closed spec fn warning(&self) -> u64 {
        self.warning_threshold
    }

    /// The critical threshold in bytes.
    pub closed spec fn critical(&self) -> u64 {
        self.critical_threshold
    }

    /// A guard with the given thresholds, switched on, created at `now`.
    pub fn new(warning_threshold: u64, critical_threshold: u64, now: u64) -> (r: Self)
        ensures
            r.is_enabled(),
            r.last_check_time() == now,
            r.warning() == warning_threshold,
            r.critical() == critical_threshold,
    {
        MemoryGuard { enabled: true, last_check: now, warning_threshold, critical_threshold }
    }

    /// A guard for a machine with `total_memory` bytes (see
    /// `spec_system_thresholds`).
    pub fn for_current_system(total_memory: u64, now: u64) -> (r: Self)
        ensures
            r.is_enabled(),
            r.last_check_time() == now,
            (r.warning(), r.critical()) == spec_system_thresholds(total_memory),
    {
        let t = total_memory as u128;
        let (w, c): (u128, u128) = if total_memory < 2 * GIB {
            (t * 70 / 100, t * 85 / 100)
        } else if total_memory < 4 * GIB {
            (t * 75 / 100, t * 90 / 100)
        } else {
            (t * 80 / 100, t * 95 / 100)
        };
        Self::new(w as u64, c as u64, now)
    }

    /// The warning threshold in bytes.
    pub fn warning_threshold(&self) -> (r: u64)
        ensures
            r == self.warning(),
    {
        self.warning_threshold
    }

    /// The critical threshold in bytes.
    pub fn critical_threshold(&self) -> (r: u64)
        ensures
            r == self.critical(),
    {
        self.critical_threshold
    }

    /// The status for a process that uses `process_memory` bytes.
    pub fn check_memory(&self, process_memory: u64) -> (r: MemoryStatus)
        ensures
            r == spec_status(self.is_enabled(), self.warning(), self.critical(), process_memory),
    {
        if !self.enabled {
            return MemoryStatus::Normal;
        }
        if process_memory >= self.critical_threshold {
            MemoryStatus::Critical { current: process_memory, threshold: self.critical_threshold }
        } else if process_memory >= self.warning_threshold {
            MemoryStatus::Warning { current: process_memory, threshold: self.warning_threshold }
        } else {
            MemoryStatus::Normal
        }
    }

    /// The status at `now`, unless the last check was less than
    /// `min_interval` ago; a check records `now` as the time of the last check.
    pub fn check_memory_throttled(&mut self, min_interval: u64, now: u64, process_memory: u64) -> (r: Option<MemoryStatus>)
        ensures
            final(self).is_enabled() == old(self).is_enabled(),
            final(self).warning() == old(self).warning(),
            final(self).critical() == old(self).critical(),
            spec_elapsed(now, old(self).last_check_time()) < min_interval ==> {
                &&& r is None
                &&& final(self).last_check_time() == old(self).last_check_time()
            },
            spec_elapsed(now, old(self).last_check_time()) >= min_interval ==> {
                &&& r == Some(spec_status(old(self).is_enabled(), old(self).warning(), old(self).critical(), process_memory))
                &&& final(self).last_check_time() == now
            },
    {
        if elapsed(now, self.last_check) < min_interval {
            return None;
        }
        self.last_check = now;
        Some(self.check_memory(process_memory))
    }

    /// Switches monitoring off: every check then reports that memory is fine.
    pub fn disable(&mut self)
        ensures
            !final(self).is_enabled(),
            final(self).last_check_time() == old(self).last_check_time(),
            final(self).warning() == old(self).warning(),
            final(self).critical() == old(self).critical(),
    {
        self.enabled = false;
    }

    /// Switches monitoring on.
    pub fn enable(&mut self)
        ensures
            final(self).is_enabled(),
            final(self).last_check_time() == old(self).last_check_time(),
            final(self).warning() == old(self).warning(),
            final(self).critical() == old(self).critical(),
    {
        self.enabled = true;
    }
}

/// `bytes` in tenths of a GiB, rounded to the nearest tenth with ties to the
/// even tenth, as `{:.1}` formats the exact quotient.
pub open spec fn spec_gib_tenths(bytes: u64) -> nat {
    let q = (bytes as nat * 10) / (GIB as nat);
    let r = (bytes as nat * 10) % (GIB as nat);
    if 2 * r > GIB { q + 1 } else if 2 * r == GIB && q % 2 == 1 { q + 1 } else { q }
}

/// `bytes` in GiB with one decimal.
pub open spec fn spec_gib_text(bytes: u64) -> Seq<char> {
    spec_decimal(spec_gib_tenths(bytes) / 10) + "."@ + spec_decimal(spec_gib_tenths(bytes) % 10)
}

/// Appends `bytes` in GiB with one decimal to `s`.
fn push_gib(s: &mut String, bytes: u64)
    ensures
        final(s)@ == old(s)@ + spec_gib_text(bytes),
{
    let scaled: u128 = (bytes as u128) * 10;
    let g: u128 = GIB as u128;
    let q: u128 = scaled / g;
    let r: u128 = scaled % g;
    let tenths: u128 = if 2 * r > g { q + 1 } else if 2 * r == g && q % 2 == 1 { q + 1 } else { q };
    assert(tenths == spec_gib_tenths(bytes));
    assert(tenths <= u64::MAX) by {
        assert(q <= (bytes as int * 10) / (GIB as int));
    }
    push_decimal(s, (tenths / 10) as u64);
    s.append(".");
    push_decimal(s, (tenths % 10) as u64);
    assert(final(s)@ =~= old(s)@ + spec_gib_text(bytes));
}

impl MemoryStatus {
    /// Whether memory use is critical.
    pub fn is_critical(&self) -> (r: bool)
        ensures
            r == (*self is Critical),
    {
        matches!(self, MemoryStatus::Critical { .. })
    }

    /// Whether memory use is at warning level or worse.
    pub fn is_concerning(&self) -> (r: bool)
        ensures
            r == (*self is Warning || *self is Critical),
    {
        matches!(self, MemoryStatus::Warning { .. } | MemoryStatus::Critical { .. })
    }

    /// A human-readable description of the status.
    pub fn description(&self) -> (r: String)
        ensures
            r@ == match *self {
                MemoryStatus::Normal => "Memory usage OK"@,
                MemoryStatus::Warning { current, threshold } =>
                    "Memory warning: "@ + spec_gib_text(current) + "GB used (threshold: "@ + spec_gib_text(threshold) + "GB)"@,
                MemoryStatus::Critical { current, threshold } =>
                    "Memory critical: "@ + spec_gib_text(current) + "GB used (threshold: "@ + spec_gib_text(threshold) + "GB)"@,
            },
    {
        match self {
            MemoryStatus::Normal => String::from_str("Memory usage OK"),
            MemoryStatus::Warning { current, threshold } => {
                let mut s = String::from_str("Memory warning: ");
                push_gib(&mut s, *current);
                s.append("GB used (threshold: ");
                push_gib(&mut s, *threshold);
                s.append("GB)");
                s
            },
            MemoryStatus::Critical { current, threshold } => {
                let mut s = String::from_str("Memory critical: ");
                push_gib(&mut s, *current);
                s.append("GB used (threshold: ");
                push_gib(&mut s, *threshold);
                s.append("GB)");
                s
            },
        }
    }
}

/// A critical status is always a concerning one.
pub proof fn lemma_critical_is_concerning(s: MemoryStatus)
    ensures
        s is Critical ==> (s is Warning || s is Critical),
{
}

/// The status climbs with memory use: whatever a smaller use reports as
/// concerning, a larger use reports as concerning too, and critical stays
/// critical.
pub proof fn lemma_status_monotone(enabled: bool, warning: u64, critical: u64, a: u64, b: u64)
    requires
        a <= b,
    ensures
        spec_status(enabled, warning, critical, a) is Critical ==> spec_status(enabled, warning, critical, b) is Critical,
        !(spec_status(enabled, warning, critical, a) is Normal) ==> !(spec_status(enabled, warning, critical, b) is Normal),
{
}

} // verus!
