//! Units and thresholds that describe the machine the prover runs on.
//!
//! Memory amounts are carried in bytes as `u64` throughout the library, and
//! instants and durations in nanoseconds as `u64`, measured by the caller from
//! one fixed starting instant.
use vstd::prelude::*;

verus! {

/// One gibibyte (the "GB" of the memory thresholds) in bytes.
pub const GIB: u64 = 1073741824;

/// One mebibyte in bytes.
pub const MIB: u64 = 1048576;

/// Nanoseconds per second.
pub const NANOS_PER_SEC: u64 = 1000000000;

/// Nanoseconds per millisecond.
pub const NANOS_PER_MILLI: u64 = 1000000;

/// Time that passed from `earlier` to `now`, or zero when `now` is not later
/// (an instant's `elapsed` never goes below zero).
pub open spec fn spec_elapsed(now: u64, earlier: u64) -> u64 {
    if now >= earlier { (now - earlier) as u64 } else { 0 }
}

/// Time that passed from `earlier` to `now`, saturating at zero.
pub fn elapsed(now: u64, earlier: u64) -> (r: u64)
    ensures
        r == spec_elapsed(now, earlier),
{
    now.saturating_sub(earlier)
}

/// What `Duration / n` gives for a duration of `total` nanoseconds: whole
/// seconds and the leftover nanoseconds are divided separately, and the
/// remainder of the seconds is carried into nanoseconds.
pub open spec fn spec_duration_div(total: u64, n: u64) -> u64
    recommends
        n > 0,
{
    let secs = total / NANOS_PER_SEC;
    let nanos = total % NANOS_PER_SEC;
    ((secs / n) * NANOS_PER_SEC + nanos / n + ((secs % n) * NANOS_PER_SEC) / (n as int)) as u64
}

/// Divides a duration given in nanoseconds by `n` in the way `Duration / u32` does.
pub fn duration_div(total: u64, n: u32) -> (r: u64)
    requires
        n > 0,
    ensures
        r == spec_duration_div(total, n as u64),
        r <= total / (n as u64),
{
    let secs: u64 = total / NANOS_PER_SEC;
    let nanos: u64 = total % NANOS_PER_SEC;
    let n64: u64 = n as u64;
    let q: u64 = secs / n64;
    let c: u64 = secs % n64;
    proof {
        assert(c < n64);
        assert(c * NANOS_PER_SEC < n64 * NANOS_PER_SEC) by (nonlinear_arith)
            requires c < n64;
        lemma_div_parts(total, secs, nanos, q, c, n64);
    }
    let carry: u64 = (c * NANOS_PER_SEC) / n64;
    q * NANOS_PER_SEC + nanos / n64 + carry
}

/// The parts of `Duration / n` never add up to more than the exact quotient.
proof fn lemma_div_parts(total: u64, secs: u64, nanos: u64, q: u64, c: u64, n: u64)
    requires
        n >= 1,
        secs == total / NANOS_PER_SEC,
        nanos == total % NANOS_PER_SEC,
        q == secs / n,
        c == secs % n,
    ensures
        q * NANOS_PER_SEC + nanos / n + (c * NANOS_PER_SEC) / (n as int) <= total / n,
{
    let ns = NANOS_PER_SEC as int;
    let a = nanos as int;
    let b = c as int * ns;
    vstd::arithmetic::div_mod::lemma_fundamental_div_mod(total as int, ns);
    vstd::arithmetic::div_mod::lemma_fundamental_div_mod(secs as int, n as int);
    assert(total as int == secs as int * ns + a) by (nonlinear_arith)
        requires total as int == ns * (total as int / ns) + total as int % ns, secs as int == total as int / ns, a == total as int % ns;
    assert(secs as int == q as int * n as int + c as int) by (nonlinear_arith)
        requires secs as int == n as int * (secs as int / n as int) + secs as int % n as int, q as int == secs as int / n as int, c as int == secs as int % n as int;
    assert(total as int == (q as int * ns) * n as int + (a + b)) by (nonlinear_arith)
        requires total as int == secs as int * ns + a, secs as int == q as int * n as int + c as int, b == c as int * ns;
    assert((a / n as int) + (b / n as int) <= (a + b) / n as int) by (nonlinear_arith)
        requires n >= 1, a >= 0, b >= 0;
    assert(((q as int * ns) * n as int + (a + b)) / n as int == q as int * ns + (a + b) / n as int) by (nonlinear_arith)
        requires n >= 1, a + b >= 0, q >= 0;
}

} // verus!
