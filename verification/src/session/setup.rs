//! Worker count for a proving session, bounded by the cores and the memory of
//! the machine.
use vstd::prelude::*;
use crate::system::{GIB, MIB};
use crate::text::{parse_u64, spec_parse_u64};

verus! {

/// Memory that one worker needs when the subprocess strategy does not fit:
/// two GiB on machines above 2 GiB.
pub const PROJECTED_MEMORY_REQUIREMENT: u64 = 2147483648;

/// Memory kept for the main process: 20 MiB on machines of at most 1 GiB,
/// 50 MiB otherwise.
pub open spec fn spec_base_process_memory(total_memory: u64) -> int {
    if total_memory <= GIB { 20 * MIB } else { 50 * MIB }
}

/// Memory that one proving subprocess is expected to use: 35 or 25 MiB on
/// machines of at most 1 GiB (aggressive or standard), 60 or 40 MiB otherwise.
pub open spec fn spec_subprocess_memory(total_memory: u64, aggressive: bool) -> int {
    if aggressive {
        if total_memory <= GIB { 35 * MIB } else { 60 * MIB }
    } else {
        if total_memory <= GIB { 25 * MIB } else { 40 * MIB }
    }
}

/// How many subprocesses per core the machine carries: in aggressive mode 6
/// from 16 GiB, 4 from 8 GiB, 3 from 4 GiB, 2 from 2 GiB, else 1; in standard
/// mode 3 from 8 GiB, 2 from 4 GiB, else 1.
pub open spec fn spec_subprocess_multiplier(total_memory: u64, aggressive: bool) -> int {
    if aggressive {
        if total_memory >= 16 * GIB { 6 }
        else if total_memory >= 8 * GIB { 4 }
        else if total_memory >= 4 * GIB { 3 }
        else if total_memory >= 2 * GIB { 2 }
        else { 1 }
    } else {
        if total_memory >= 8 * GIB { 3 }
        else if total_memory >= 4 * GIB { 2 }
        else { 1 }
    }
}

/// Memory that may be used for proving: 60% of the machine's memory at 1 GiB
/// or less, else 90% in aggressive mode and 85% in standard mode (rounded down).
pub open spec fn spec_available_memory(total_memory: u64, aggressive: bool) -> int {
    if total_memory <= GIB {
        total_memory * 6 / 10
    } else if aggressive {
        total_memory * 9 / 10
    } else {
        total_memory * 85 / 100
    }
}

/// Memory granted to each thread when the subprocess strategy does not fit:
/// 200 MiB at 1 GiB or less, 512 MiB at 2 GiB or less, else two GiB.
pub open spec fn spec_memory_per_thread(total_memory: u64) -> int {
    if total_memory <= GIB { 200 * MIB }
    else if total_memory <= 2 * GIB { 512 * MIB }
    else { PROJECTED_MEMORY_REQUIREMENT as int }
}

/// Memory that the whole subprocess strategy needs on `total_cores` cores.
pub open spec fn spec_required_memory(total_memory: u64, total_cores: usize, aggressive: bool) -> int {
    spec_base_process_memory(total_memory)
        + total_cores * spec_subprocess_multiplier(total_memory, aggressive) * spec_subprocess_memory(total_memory, aggressive)
}

/// The thread count that memory allows: `requested` when the subprocess
/// strategy fits into the available memory, else as many threads as the
/// available memory holds at the per-thread requirement; then at least one and
/// never more than requested.
pub open spec fn spec_clamp_threads_by_memory(requested: usize, aggressive: bool, total_memory: u64, total_cores: usize) -> usize {
    let available = spec_available_memory(total_memory, aggressive);
    let by_memory: usize = if spec_required_memory(total_memory, total_cores, aggressive) <= available {
        requested
    } else {
        ((available / spec_memory_per_thread(total_memory)) as u64) as usize
    };
    let at_least_one: usize = if by_memory > 1 { by_memory } else { 1 };
    if requested < at_least_one { requested } else { at_least_one }
}

/// How many subprocesses per core the machine carries (see
/// `spec_subprocess_multiplier`).
pub fn subprocess_multiplier(total_memory: u64, aggressive: bool) -> (r: usize)
    ensures
        r == spec_subprocess_multiplier(total_memory, aggressive),
{
    if aggressive {
        if total_memory >= 16 * GIB { 6 }
        else if total_memory >= 8 * GIB { 4 }
        else if total_memory >= 4 * GIB { 3 }
        else if total_memory >= 2 * GIB { 2 }
        else { 1 }
    } else {
        if total_memory >= 8 * GIB { 3 }
        else if total_memory >= 4 * GIB { 2 }
        else { 1 }
    }
}

/// Memory, in MiB, that one proving subprocess is expected to use.
pub fn subprocess_memory_mb(total_memory: u64, aggressive: bool) -> (r: u64)
    ensures
        r * MIB == spec_subprocess_memory(total_memory, aggressive),
{
    if aggressive {
        if total_memory <= GIB { 35 } else { 60 }
    } else {
        if total_memory <= GIB { 25 } else { 40 }
    }
}

/// Bytes that the subprocess strategy needs fit in a `usize`.
pub open spec fn spec_requirement_fits(total_memory: u64, total_cores: usize, aggressive: bool) -> bool {
    spec_required_memory(total_memory, total_cores, aggressive) <= usize::MAX
}

/// Whether the bytes that the subprocess strategy needs on `total_cores`
/// cores fit in a `usize` (see `spec_requirement_fits`).
pub fn requirement_fits(total_memory: u64, total_cores: usize, aggressive: bool) -> (r: bool)
    ensures
        r == spec_requirement_fits(total_memory, total_cores, aggressive),
{
    let base: u128 = if total_memory <= GIB { 20 * (MIB as u128) } else { 50 * (MIB as u128) };
    let per_subprocess: u128 = if aggressive {
        if total_memory <= GIB { 35 * (MIB as u128) } else { 60 * (MIB as u128) }
    } else {
        if total_memory <= GIB { 25 * (MIB as u128) } else { 40 * (MIB as u128) }
    };
    let multiplier: u128 = subprocess_multiplier(total_memory, aggressive) as u128;
    assert(multiplier * per_subprocess <= 6 * 60 * MIB) by (nonlinear_arith)
        requires multiplier <= 6, per_subprocess <= 60 * MIB;
    let per_core: u128 = multiplier * per_subprocess;
    let cores: u128 = total_cores as u128;
    assert(cores * per_core <= 0x1_0000_0000_0000_0000u128 * 0x2000_0000u128) by (nonlinear_arith)
        requires per_core <= 0x2000_0000u128, cores <= 0x1_0000_0000_0000_0000u128;
    let required: u128 = base + cores * per_core;
    assert(required == spec_required_memory(total_memory, total_cores, aggressive)) by (nonlinear_arith)
        requires
            multiplier == spec_subprocess_multiplier(total_memory, aggressive),
            per_subprocess == spec_subprocess_memory(total_memory, aggressive),
            per_core == multiplier * per_subprocess,
            base == spec_base_process_memory(total_memory),
            required == base + total_cores * per_core;
    required <= usize::MAX as u128
}

/// Clamps `requested_threads` to what a machine with `total_memory` bytes and
/// `total_cores` cores can carry.
pub fn clamp_threads_by_memory(requested_threads: usize, aggressive: bool, total_memory: u64, total_cores: usize) -> (r: usize)
    requires
        spec_requirement_fits(total_memory, total_cores, aggressive),
    ensures
        r == spec_clamp_threads_by_memory(requested_threads, aggressive, total_memory, total_cores),
        r <= requested_threads,
        requested_threads >= 1 ==> r >= 1,
{
    let base_process_memory: usize = if total_memory <= GIB { 20 * 1048576 } else { 50 * 1048576 };
    let memory_per_subprocess: usize = (subprocess_memory_mb(total_memory, aggressive) as usize) * 1048576;
    let multiplier: usize = subprocess_multiplier(total_memory, aggressive);
    proof {
        let m = multiplier as int;
        let p = memory_per_subprocess as int;
        let c = total_cores as int;
        assert(c * m * p >= 0) by (nonlinear_arith) requires c >= 0, m >= 0, p >= 0;
        assert(c * m <= c * m * p) by (nonlinear_arith) requires c >= 0, m >= 0, p >= 1;
    }
    let max_subprocesses: usize = total_cores * multiplier;
    let total_subprocess_memory: usize = max_subprocesses * memory_per_subprocess;
    let total_required_memory: u64 = (base_process_memory + total_subprocess_memory) as u64;
    let available_memory: u64 = if total_memory <= GIB {
        ((total_memory as u128) * 6 / 10) as u64
    } else if aggressive {
        ((total_memory as u128) * 9 / 10) as u64
    } else {
        ((total_memory as u128) * 85 / 100) as u64
    };
    let max_threads_by_memory: usize = if total_required_memory <= available_memory {
        requested_threads
    } else {
        let memory_per_thread: u64 = if total_memory <= GIB {
            200 * MIB
        } else if total_memory <= 2 * GIB {
            512 * MIB
        } else {
            PROJECTED_MEMORY_REQUIREMENT
        };
        (available_memory / memory_per_thread) as usize
    };
    let at_least_one: usize = if max_threads_by_memory > 1 { max_threads_by_memory } else { 1 };
    if requested_threads < at_least_one { requested_threads } else { at_least_one }
}

/// The most workers a session starts: 95% (aggressive) or 90% (standard) of
/// the cores, rounded up, and at least one.
pub open spec fn spec_max_workers(total_cores: usize, aggressive: bool) -> int {
    let pct = if aggressive { 95int } else { 90int };
    let up = (total_cores * pct + 99) / 100;
    if up > 1 { up } else { 1 }
}

/// The thread count asked for: the requested count, or the maximum when none
/// was requested, clamped to `1..=max`.
pub open spec fn spec_requested_workers(total_cores: usize, max_threads: Option<u32>, aggressive: bool) -> int {
    let max = spec_max_workers(total_cores, aggressive);
    let wanted: int = match max_threads { Some(t) => t as int, None => max };
    if wanted < 1 { 1 } else if wanted > max { max } else { wanted }
}

/// The number of workers of a session: the thread count asked for, clamped
/// by memory when threads were requested, memory checking is on or the mode
/// is aggressive.
pub open spec fn spec_session_worker_count(
    total_cores: usize,
    max_threads: Option<u32>,
    check_mem: bool,
    aggressive: bool,
    total_memory: u64,
) -> usize {
    let requested = spec_requested_workers(total_cores, max_threads, aggressive);
    if max_threads is Some || check_mem || aggressive {
        spec_clamp_threads_by_memory(requested as usize, aggressive, total_memory, total_cores)
    } else {
        requested as usize
    }
}

/// The thread count asked for on a machine with `total_cores` cores (see
/// `spec_requested_workers`).
pub fn requested_worker_count(total_cores: usize, max_threads: Option<u32>, aggressive: bool) -> (r: usize)
    requires
        total_cores <= u32::MAX,
    ensures
        r == spec_requested_workers(total_cores, max_threads, aggressive),
        1 <= r <= spec_max_workers(total_cores, aggressive),
        max_threads is Some && 1 <= max_threads->0 <= spec_max_workers(total_cores, aggressive) ==> r == max_threads->0,
{
    let pct: u64 = if aggressive { 95 } else { 90 };
    let up: u64 = ((total_cores as u64) * pct + 99) / 100;
    let max_workers: u32 = (if up > 1 { up } else { 1 }) as u32;
    proof {
        assert(up <= total_cores) by (nonlinear_arith)
            requires up == (total_cores as int * pct + 99) / 100, pct <= 95;
    }
    let wanted: u32 = match max_threads {
        Some(t) => t,
        None => max_workers,
    };
    let clamped: u32 = if wanted < 1 { 1 } else if wanted > max_workers { max_workers } else { wanted };
    clamped as usize
}

/// The number of proving workers for a session on a machine with
/// `total_cores` cores and `total_memory` bytes.
pub fn session_worker_count(
    total_cores: usize,
    max_threads: Option<u32>,
    check_mem: bool,
    aggressive: bool,
    total_memory: u64,
) -> (r: usize)
    requires
        total_cores <= u32::MAX,
        spec_requirement_fits(total_memory, total_cores, aggressive),
    ensures
        r == spec_session_worker_count(total_cores, max_threads, check_mem, aggressive, total_memory),
        1 <= r <= spec_max_workers(total_cores, aggressive),
{
    let num_workers = requested_worker_count(total_cores, max_threads, aggressive);
    if max_threads.is_some() || check_mem || aggressive {
        let by_memory = clamp_threads_by_memory(num_workers, aggressive, total_memory, total_cores);
        if by_memory < num_workers { by_memory } else { num_workers }
    } else {
        num_workers
    }
}

/// The node's id from its configured text, as `u64::from_str` reads it
/// (`None` when the text is not a number that fits in a `u64`).
pub fn parse_node_id(node_id: &str) -> (r: Option<u64>)
    ensures
        r == spec_parse_u64(node_id@),
{
    parse_u64(node_id)
}

/// Whether the low-memory mode of the prover is switched on: machines with at
/// most 1 GiB of memory.
pub fn low_memory_mode(total_memory: u64) -> (r: bool)
    ensures
        r == (total_memory <= GIB),
{
    total_memory <= GIB
}

/// Warns when the available memory looks too small for the configured threads.
/// The thread clamp already accounts for memory, so nothing is reported.
pub fn warn_memory_configuration(_max_threads: Option<u32>) {
}

/// The memory clamp never raises the thread count, and never lowers a
/// positive request to zero.
pub proof fn lemma_clamp_between_one_and_requested(requested: usize, aggressive: bool, total_memory: u64, total_cores: usize)
    requires
        requested >= 1,
    ensures
        1 <= spec_clamp_threads_by_memory(requested, aggressive, total_memory, total_cores) <= requested,
{
}

/// When the whole subprocess strategy fits in the available memory, the clamp
/// leaves the requested thread count as it is.
pub proof fn lemma_clamp_keeps_request_when_memory_suffices(requested: usize, aggressive: bool, total_memory: u64, total_cores: usize)
    requires
        requested >= 1,
        spec_required_memory(total_memory, total_cores, aggressive) <= spec_available_memory(total_memory, aggressive),
    ensures
        spec_clamp_threads_by_memory(requested, aggressive, total_memory, total_cores) == requested,
{
}

/// A thread count that the cores allow is taken as asked: for a request of
/// `t` threads with `1 <= t` and `t` at most the maximum worker count, the
/// count asked for is `t`, and the session never runs more than `t` workers.
pub proof fn lemma_request_is_honoured(total_cores: usize, t: u32, check_mem: bool, aggressive: bool, total_memory: u64)
    requires
        1 <= t,
        t <= spec_max_workers(total_cores, aggressive),
    ensures
        spec_requested_workers(total_cores, Some(t), aggressive) == t,
        1 <= spec_session_worker_count(total_cores, Some(t), check_mem, aggressive, total_memory) <= t,
{
}

/// Without a request, a session asks for the maximum worker count; a request
/// beyond it, or of no threads, is moved to the nearest allowed count.
pub proof fn lemma_request_clamped(total_cores: usize, t: u32, aggressive: bool)
    ensures
        spec_requested_workers(total_cores, None, aggressive) == spec_max_workers(total_cores, aggressive),
        t > spec_max_workers(total_cores, aggressive) ==> spec_requested_workers(total_cores, Some(t), aggressive) == spec_max_workers(total_cores, aggressive),
        t == 0 ==> spec_requested_workers(total_cores, Some(t), aggressive) == 1,
{
}

/// The memory clamp never lowers a larger request below a smaller one's
/// result, and leaves a request of no threads at none.
pub proof fn lemma_clamp_monotone(a: usize, b: usize, aggressive: bool, total_memory: u64, total_cores: usize)
    requires
        a <= b,
    ensures
        spec_clamp_threads_by_memory(a, aggressive, total_memory, total_cores)
            <= spec_clamp_threads_by_memory(b, aggressive, total_memory, total_cores),
        spec_clamp_threads_by_memory(0, aggressive, total_memory, total_cores) == 0,
{
}

} // verus!
