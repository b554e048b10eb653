//! Adaptive batch sizing: the batch size follows the measured time per proof,
//! scaled by how much memory the machine has.
use vstd::prelude::*;
use crate::system::{GIB, NANOS_PER_MILLI, NANOS_PER_SEC, spec_elapsed, elapsed, duration_div, spec_duration_div};

verus! {

/// Largest batch bound that the sizing arithmetic accepts (the range of `i32`).
pub const MAX_BATCH_BOUND: usize = 2147483647;

/// Target time per proof: two seconds.
pub const TARGET_PROOF_TIME: u64 = 2000000000;

/// Least time between two adjustments of the batch size: thirty seconds.
pub const ADJUSTMENT_INTERVAL: u64 = 30000000000;

/// Running totals of proof generation times (all times in nanoseconds).
#[derive(Debug)]
pub struct BatchMetrics {
    pub total_proofs: usize,
    pub total_batches: usize,
    pub total_time: u64,
    pub last_proof_time: u64,
    pub average_proof_time: u64,
}

/// The metrics after one proof that took `t` nanoseconds. The counters wrap
/// around on overflow, and the average is the total time over the proof count.
pub open spec fn spec_record_proof_time(m: BatchMetrics, t: u64) -> BatchMetrics {
    let total_proofs = m.total_proofs.wrapping_add(1);
    let total_time = m.total_time.wrapping_add(t);
    BatchMetrics {
        total_proofs,
        total_batches: m.total_batches,
        total_time,
        last_proof_time: t,
        average_proof_time: if total_proofs > 0 {
            total_time / (total_proofs as u64)
        } else {
            m.average_proof_time
        },
    }
}

/// The metrics after `k` proofs that each took `t` nanoseconds.
pub open spec fn spec_record_proof_times(m: BatchMetrics, t: u64, k: nat) -> BatchMetrics
    decreases k,
{
    if k == 0 {
        m
    } else {
        spec_record_proof_time(spec_record_proof_times(m, t, (k - 1) as nat), t)
    }
}

impl BatchMetrics {
    /// Metrics with every counter at zero.
    pub fn new() -> (r: Self)
        ensures
            r.total_proofs == 0,
            r.total_batches == 0,
            r.total_time == 0,
            r.last_proof_time == 0,
            r.average_proof_time == 0,
    {
        BatchMetrics {
            total_proofs: 0,
            total_batches: 0,
            total_time: 0,
            last_proof_time: 0,
            average_proof_time: 0,
        }
    }

    /// Records one proof that took `time_nanos` nanoseconds.
    pub fn record_proof_time(&mut self, time_nanos: u64)
        ensures
            *final(self) == spec_record_proof_time(*old(self), time_nanos),
    {
        self.total_proofs = self.total_proofs.wrapping_add(1);
        self.total_time = self.total_time.wrapping_add(time_nanos);
        self.last_proof_time = time_nanos;
        let total_proofs = self.total_proofs;
        if total_proofs > 0 {
            let total_time = self.total_time;
            let avg = total_time / total_proofs as u64;
            self.average_proof_time = avg;
        }
    }

    /// Records one batch.
    pub fn record_batch(&mut self)
        ensures
            final(self).total_batches == old(self).total_batches.wrapping_add(1),
            final(self).total_proofs == old(self).total_proofs,
            final(self).total_time == old(self).total_time,
            final(self).last_proof_time == old(self).last_proof_time,
            final(self).average_proof_time == old(self).average_proof_time,
    {
        self.total_batches = self.total_batches.wrapping_add(1);
    }

    /// The average time per proof, in nanoseconds.
    pub fn get_average_proof_time(&self) -> (r: u64)
        ensures
            r == self.average_proof_time,
    {
        self.average_proof_time
    }

    /// The time of the latest proof, in nanoseconds.
    pub fn get_last_proof_time(&self) -> (r: u64)
        ensures
            r == self.last_proof_time,
    {
        self.last_proof_time
    }
}

/// The state that the batch size adapts (times in nanoseconds).
pub struct BatcherState {
    pub current_batch_size: usize,
    pub target_proof_time: u64,
    pub last_adjustment: u64,
    pub consecutive_good_batches: usize,
    pub consecutive_bad_batches: usize,
    pub min_batch_size: usize,
    pub max_batch_size: usize,
}

/// Snapshot of the batcher's state and metrics.
#[derive(Debug)]
pub struct BatchMetricsSnapshot {
    pub current_batch_size: usize,
    pub target_proof_time: u64,
    pub consecutive_good_batches: usize,
    pub consecutive_bad_batches: usize,
    pub total_proofs: usize,
    pub total_batches: usize,
    pub average_proof_time: u64,
    pub last_proof_time: u64,
}

/// Adaptive batch size calculator that adjusts to the measured proof times.
pub struct AdaptiveBatcher {
    state: BatcherState,
    metrics: BatchMetrics,
}

/// Bounds and first batch size for a machine with `total_memory` bytes:
/// below 1.5 GiB no batching at all, below 2 GiB batches of at most two,
/// otherwise the requested bounds starting from the larger of 4 and the minimum.
pub open spec fn spec_initial_bounds(min_batch_size: usize, max_batch_size: usize, total_memory: u64) -> (usize, usize, usize) {
    if (total_memory as int) * 2 < 3 * (GIB as int) {
        (1, 1, 1)
    } else if total_memory < 2 * GIB {
        (1, 2, 1)
    } else {
        (min_batch_size, max_batch_size, if min_batch_size > 4 { min_batch_size } else { 4 })
    }
}

/// The batch size that the measured time per proof suggests: 20% smaller when
/// proofs take over 1.5 times the target, 10% smaller over 1.2 times, 30%
/// larger under 0.7 times with at least 8 GiB, 10% larger under 0.9 times with
/// at least 4 GiB, else unchanged (each rounded down).
pub open spec fn spec_proposed_batch_size(batch_size: int, avg_ms: int, target_ms: int, total_memory: int) -> int {
    if 2 * avg_ms > 3 * target_ms {
        batch_size * 8 / 10
    } else if 10 * avg_ms > 12 * target_ms {
        batch_size * 9 / 10
    } else if 10 * avg_ms < 7 * target_ms && total_memory >= 8 * GIB {
        batch_size * 13 / 10
    } else if 10 * avg_ms < 9 * target_ms && total_memory >= 4 * GIB {
        batch_size * 11 / 10
    } else {
        batch_size
    }
}

/// `x` raised to at least `lo` and then lowered to at most `hi`.
pub open spec fn spec_bound(x: int, lo: int, hi: int) -> int {
    let y = if x > lo { x } else { lo };
    if y < hi { y } else { hi }
}

/// Whether two batch sizes differ by two or more.
pub open spec fn spec_meaningful_change(a: int, b: int) -> bool {
    a - b >= 2 || b - a >= 2
}

/// The state after the batch-count counters are updated and the aggressive
/// correction is applied: three slow batches in a row halve the size, five good
/// ones grow it by half; either correction counts as an adjustment at `now`.
pub open spec fn spec_after_streaks(s: BatcherState, current: int, last: u64, good_perf: bool, now: u64) -> BatcherState {
    let good = if good_perf { s.consecutive_good_batches + 1 } else { 0 };
    let bad = if good_perf { 0 } else { s.consecutive_bad_batches + 1 };
    if bad >= 3 {
        BatcherState {
            current_batch_size: (if current / 2 > s.min_batch_size { current / 2 } else { s.min_batch_size as int }) as usize,
            target_proof_time: s.target_proof_time,
            last_adjustment: now,
            consecutive_good_batches: good as usize,
            consecutive_bad_batches: 0,
            min_batch_size: s.min_batch_size,
            max_batch_size: s.max_batch_size,
        }
    } else if good >= 5 {
        BatcherState {
            current_batch_size: (if current * 3 / 2 < s.max_batch_size { current * 3 / 2 } else { s.max_batch_size as int }) as usize,
            target_proof_time: s.target_proof_time,
            last_adjustment: now,
            consecutive_good_batches: 0,
            consecutive_bad_batches: bad as usize,
            min_batch_size: s.min_batch_size,
            max_batch_size: s.max_batch_size,
        }
    } else {
        BatcherState {
            current_batch_size: current as usize,
            target_proof_time: s.target_proof_time,
            last_adjustment: last,
            consecutive_good_batches: good as usize,
            consecutive_bad_batches: bad as usize,
            min_batch_size: s.min_batch_size,
            max_batch_size: s.max_batch_size,
        }
    }
}

/// The batcher state after a batch of `batch_size` produced `proofs` proofs
/// in `total_time` nanoseconds, observed at `now`.
///
/// Within thirty seconds of the last adjustment nothing changes. A batch with
/// no proof halves the size (not below the minimum) and counts as slow. Else
/// the size moves to the proposed size, bounded, when that differs from the
/// current size by at least two, and the streak correction follows. Every
/// change of the size is recorded as the time of the last adjustment.
pub open spec fn spec_adjust(s: BatcherState, batch_size: usize, total_time: u64, proofs: usize, now: u64, total_memory: u64) -> BatcherState {
    if spec_elapsed(now, s.last_adjustment) < ADJUSTMENT_INTERVAL {
        s
    } else if proofs == 0 {
        BatcherState {
            current_batch_size: (if s.current_batch_size / 2 > s.min_batch_size { s.current_batch_size / 2 } else { s.min_batch_size }) as usize,
            target_proof_time: s.target_proof_time,
            last_adjustment: now,
            consecutive_good_batches: 0,
            consecutive_bad_batches: (s.consecutive_bad_batches + 1) as usize,
            min_batch_size: s.min_batch_size,
            max_batch_size: s.max_batch_size,
        }
    } else {
        let avg = spec_duration_div(total_time, (proofs as u32) as u64);
        let avg_ms = avg / NANOS_PER_MILLI;
        let target_ms = s.target_proof_time / NANOS_PER_MILLI;
        let proposed = spec_proposed_batch_size(batch_size as int, avg_ms as int, target_ms as int, total_memory as int);
        let bounded = spec_bound(proposed, s.min_batch_size as int, s.max_batch_size as int);
        let changed = spec_meaningful_change(bounded, s.current_batch_size as int);
        let current = if changed { bounded } else { s.current_batch_size as int };
        let last = if changed { now } else { s.last_adjustment };
        spec_after_streaks(s, current, last, 10 * avg_ms <= 12 * target_ms, now)
    }
}

/// Batch size scaled by the machine's memory: 1.5x from 32 GiB, 1.2x from
/// 16 GiB, 1x from 8 GiB, 0.8x from 4 GiB, else 0.6x (rounded down).
pub open spec fn spec_memory_scaled(base: int, total_memory: int) -> int {
    if total_memory >= 32 * GIB {
        base * 15 / 10
    } else if total_memory >= 16 * GIB {
        base * 12 / 10
    } else if total_memory >= 8 * GIB {
        base
    } else if total_memory >= 4 * GIB {
        base * 8 / 10
    } else {
        base * 6 / 10
    }
}

/// The batch size for `input_count` inputs: one for a single input, else the
/// memory-scaled current size, at least one and at most the input count.
pub open spec fn spec_memory_adjusted_batch_size(current: usize, input_count: usize, total_memory: u64) -> usize {
    if input_count == 1 {
        1
    } else {
        let scaled = spec_memory_scaled(current as int, total_memory as int);
        let at_least_one = if scaled > 1 { scaled } else { 1 };
        (if at_least_one < input_count { at_least_one } else { input_count as int }) as usize
    }
}

impl AdaptiveBatcher {
    /// The batcher's state.
    pub closed spec fn state(&self) -> BatcherState {
        self.state
    }

    /// The batcher's metrics.
    pub closed spec fn metrics(&self) -> BatchMetrics {
        self.metrics
    }

    /// What every batcher keeps: the two-second target, sizes that fit in an
    /// `i32`, a good-batch streak shorter than five, and at most one streak
    /// running.
    pub open spec fn wf(&self) -> bool {
        &&& self.state().target_proof_time == TARGET_PROOF_TIME
        &&& self.state().min_batch_size <= MAX_BATCH_BOUND
        &&& self.state().max_batch_size <= MAX_BATCH_BOUND
        &&& self.state().current_batch_size <= MAX_BATCH_BOUND
        &&& self.state().consecutive_good_batches < 5
        &&& (self.state().consecutive_good_batches == 0 || self.state().consecutive_bad_batches == 0)
    }

    /// A batcher with the default bounds of 4 and 20.
    pub fn new(total_memory: u64, now: u64) -> (r: Self)
        ensures
            r.wf(),
            ({
                let (lo, hi, init) = spec_initial_bounds(4, 20, total_memory);
                &&& r.state().min_batch_size == lo
                &&& r.state().max_batch_size == hi
                &&& r.state().current_batch_size == init
            }),
            r.state().last_adjustment == now,
            r.state().consecutive_good_batches == 0,
            r.state().consecutive_bad_batches == 0,
            r.metrics() == BatchMetrics::new_spec(),
    {
        Self::with_bounds(4, 20, total_memory, now)
    }

    /// A batcher with the given bounds for a machine with `total_memory` bytes,
    /// created at `now`.
    pub fn with_bounds(min_batch_size: usize, max_batch_size: usize, total_memory: u64, now: u64) -> (r: Self)
        requires
            min_batch_size <= MAX_BATCH_BOUND,
            max_batch_size <= MAX_BATCH_BOUND,
        ensures
            r.wf(),
            ({
                let (lo, hi, init) = spec_initial_bounds(min_batch_size, max_batch_size, total_memory);
                &&& r.state().min_batch_size == lo
                &&& r.state().max_batch_size == hi
                &&& r.state().current_batch_size == init
            }),
            r.state().target_proof_time == TARGET_PROOF_TIME,
            r.state().last_adjustment == now,
            r.state().consecutive_good_batches == 0,
            r.state().consecutive_bad_batches == 0,
            r.metrics() == BatchMetrics::new_spec(),
    {
        let (lo, hi, init): (usize, usize, usize) = if (total_memory as u128) * 2 < 3 * (GIB as u128) {
            (1, 1, 1)
        } else if total_memory < 2 * GIB {
            (1, 2, 1)
        } else {
            (min_batch_size, max_batch_size, if min_batch_size > 4 { min_batch_size } else { 4 })
        };
        let state = BatcherState {
            current_batch_size: init,
            target_proof_time: TARGET_PROOF_TIME,
            last_adjustment: now,
            consecutive_good_batches: 0,
            consecutive_bad_batches: 0,
            min_batch_size: lo,
            max_batch_size: hi,
        };
        AdaptiveBatcher { state, metrics: BatchMetrics::new() }
    }

    /// The current batch size.
    pub fn get_optimal_batch_size(&self) -> (r: usize)
        ensures
            r == self.state().current_batch_size,
    {
        self.state.current_batch_size
    }

    /// The batch size to use for `input_count` inputs on a machine with
    /// `total_memory` bytes.
    pub fn get_memory_adjusted_batch_size(&self, input_count: usize, total_memory: u64) -> (r: usize)
        requires
            self.wf(),
        ensures
            r == spec_memory_adjusted_batch_size(self.state().current_batch_size, input_count, total_memory),
            r <= input_count,
            input_count >= 1 ==> r >= 1,
    {
        if input_count == 1 {
            return 1;
        }
        let base: u64 = self.get_optimal_batch_size() as u64;
        let m: u128 = total_memory as u128;
        let g: u128 = GIB as u128;
        let b: u128 = base as u128;
        let scaled: u128 = if m >= 32 * g {
            b * 15 / 10
        } else if m >= 16 * g {
            b * 12 / 10
        } else if m >= 8 * g {
            b
        } else if m >= 4 * g {
            b * 8 / 10
        } else {
            b * 6 / 10
        };
        let at_least_one: u128 = if scaled > 1 { scaled } else { 1 };
        if at_least_one < input_count as u128 {
            at_least_one as usize
        } else {
            input_count
        }
    }

    /// Records a batch of `batch_size` that produced `proofs_generated` proofs
    /// in `total_batch_time` nanoseconds, observed at `now`, and adapts the
    /// batch size.
    pub fn record_batch_performance(
        &mut self,
        batch_size: usize,
        total_batch_time: u64,
        proofs_generated: usize,
        now: u64,
        total_memory: u64,
    )
        requires
            old(self).wf(),
            proofs_generated > 0 ==> (proofs_generated as u32) != 0,
            old(self).state().consecutive_bad_batches < usize::MAX,
        ensures
            final(self).wf(),
            final(self).state() == spec_adjust(old(self).state(), batch_size, total_batch_time, proofs_generated, now, total_memory),
            ({
                let counted = BatchMetrics {
                    total_batches: old(self).metrics().total_batches.wrapping_add(1),
                    ..old(self).metrics()
                };
                final(self).metrics() == if proofs_generated > 0 {
                    spec_record_proof_times(counted, spec_duration_div(total_batch_time, (proofs_generated as u32) as u64), proofs_generated as nat)
                } else {
                    counted
                }
            }),
    {
        self.metrics.record_batch();
        if proofs_generated > 0 {
            let avg: u64 = duration_div(total_batch_time, proofs_generated as u32);
            let ghost start = self.metrics;
            let mut i: usize = 0;
            while i < proofs_generated
                invariant
                    i <= proofs_generated,
                    self.metrics == spec_record_proof_times(start, avg, i as nat),
                    self.state == old(self).state,
                decreases proofs_generated - i,
            {
                self.metrics.record_proof_time(avg);
                i = i + 1;
            }
        }
        self.adjust_batch_size(batch_size, total_batch_time, proofs_generated, now, total_memory);
    }

    /// Adapts the batch size to the latest batch (see `spec_adjust`).
    fn adjust_batch_size(
        &mut self,
        batch_size: usize,
        total_batch_time: u64,
        proofs_generated: usize,
        now: u64,
        total_memory: u64,
    )
        requires
            old(self).wf(),
            proofs_generated > 0 ==> (proofs_generated as u32) != 0,
            old(self).state().consecutive_bad_batches < usize::MAX,
        ensures
            final(self).wf(),
            final(self).state() == spec_adjust(old(self).state(), batch_size, total_batch_time, proofs_generated, now, total_memory),
            final(self).metrics() == old(self).metrics(),
    {
        if elapsed(now, self.state.last_adjustment) < ADJUSTMENT_INTERVAL {
            return;
        }
        if proofs_generated == 0 {
            let half = self.state.current_batch_size / 2;
            self.state.current_batch_size = if half > self.state.min_batch_size { half } else { self.state.min_batch_size };
            self.state.consecutive_bad_batches = self.state.consecutive_bad_batches + 1;
            self.state.consecutive_good_batches = 0;
            self.state.last_adjustment = now;
            return;
        }
        let avg: u64 = duration_div(total_batch_time, proofs_generated as u32);
        let avg_ms: u64 = avg / NANOS_PER_MILLI;
        let target_ms: u64 = self.state.target_proof_time / NANOS_PER_MILLI;
        let a: u128 = avg_ms as u128;
        let t: u128 = target_ms as u128;
        let b: u128 = batch_size as u128;
        let m: u64 = total_memory;
        let proposed: u128 = if 2 * a > 3 * t {
            b * 8 / 10
        } else if 10 * a > 12 * t {
            b * 9 / 10
        } else if 10 * a < 7 * t && m >= 8 * GIB {
            b * 13 / 10
        } else if 10 * a < 9 * t && m >= 4 * GIB {
            b * 11 / 10
        } else {
            b
        };
        let lo: u128 = self.state.min_batch_size as u128;
        let hi: u128 = self.state.max_batch_size as u128;
        let raised: u128 = if proposed > lo { proposed } else { lo };
        let bounded: usize = (if raised < hi { raised } else { hi }) as usize;
        let cur: usize = self.state.current_batch_size;
        let changed: bool = if bounded >= cur { bounded - cur >= 2 } else { cur - bounded >= 2 };
        if changed {
            self.state.current_batch_size = bounded;
            self.state.last_adjustment = now;
        }
        if 10 * a <= 12 * t {
            self.state.consecutive_good_batches = self.state.consecutive_good_batches + 1;
            self.state.consecutive_bad_batches = 0;
        } else {
            self.state.consecutive_bad_batches = self.state.consecutive_bad_batches + 1;
            self.state.consecutive_good_batches = 0;
        }
        if self.state.consecutive_bad_batches >= 3 {
            let half = self.state.current_batch_size / 2;
            self.state.current_batch_size = if half > self.state.min_batch_size { half } else { self.state.min_batch_size };
            self.state.consecutive_bad_batches = 0;
            self.state.last_adjustment = now;
        } else if self.state.consecutive_good_batches >= 5 {
            let grown: u64 = (self.state.current_batch_size as u64) * 3 / 2;
            let max: usize = self.state.max_batch_size;
            self.state.current_batch_size = if grown < max as u64 { grown as usize } else { max };
            self.state.consecutive_good_batches = 0;
            self.state.last_adjustment = now;
        }
    }

    /// A snapshot of the state and metrics.
    pub fn get_metrics(&self) -> (r: BatchMetricsSnapshot)
        ensures
            r.current_batch_size == self.state().current_batch_size,
            r.target_proof_time == self.state().target_proof_time,
            r.consecutive_good_batches == self.state().consecutive_good_batches,
            r.consecutive_bad_batches == self.state().consecutive_bad_batches,
            r.total_proofs == self.metrics().total_proofs,
            r.total_batches == self.metrics().total_batches,
            r.average_proof_time == self.metrics().average_proof_time,
            r.last_proof_time == self.metrics().last_proof_time,
    {
        BatchMetricsSnapshot {
            current_batch_size: self.state.current_batch_size,
            target_proof_time: self.state.target_proof_time,
            consecutive_good_batches: self.state.consecutive_good_batches,
            consecutive_bad_batches: self.state.consecutive_bad_batches,
            total_proofs: self.metrics.total_proofs,
            total_batches: self.metrics.total_batches,
            average_proof_time: self.metrics.get_average_proof_time(),
            last_proof_time: self.metrics.get_last_proof_time(),
        }
    }
}

impl BatchMetrics {
    /// Metrics with every counter at zero.
    pub open spec fn new_spec() -> BatchMetrics {
        BatchMetrics { total_proofs: 0, total_batches: 0, total_time: 0, last_proof_time: 0, average_proof_time: 0 }
    }
}

/// Once the batch size lies within the batcher's bounds, no batch moves it
/// out of them: every adjustment keeps `min <= current <= max`.
pub proof fn lemma_adjust_keeps_bounds(s: BatcherState, batch_size: usize, total_time: u64, proofs: usize, now: u64, total_memory: u64)
    requires
        s.min_batch_size <= s.current_batch_size <= s.max_batch_size,
    ensures
        ({
            let t = spec_adjust(s, batch_size, total_time, proofs, now, total_memory);
            &&& t.min_batch_size == s.min_batch_size
            &&& t.max_batch_size == s.max_batch_size
            &&& t.min_batch_size <= t.current_batch_size <= t.max_batch_size
        }),
{
}

/// No adjustment happens within thirty seconds of the previous one: the state
/// is left exactly as it was, whatever the batch reported.
pub proof fn lemma_adjust_throttled(s: BatcherState, batch_size: usize, total_time: u64, proofs: usize, now: u64, total_memory: u64)
    requires
        spec_elapsed(now, s.last_adjustment) < ADJUSTMENT_INTERVAL,
    ensures
        spec_adjust(s, batch_size, total_time, proofs, now, total_memory) == s,
{
}

/// A batch that produced no proof, once the interval has passed, never grows
/// the batch size and is counted as a slow batch.
pub proof fn lemma_failed_batch_shrinks(s: BatcherState, batch_size: usize, total_time: u64, now: u64, total_memory: u64)
    requires
        spec_elapsed(now, s.last_adjustment) >= ADJUSTMENT_INTERVAL,
        s.min_batch_size <= s.current_batch_size,
        s.consecutive_bad_batches < usize::MAX,
    ensures
        ({
            let t = spec_adjust(s, batch_size, total_time, 0, now, total_memory);
            &&& t.current_batch_size <= s.current_batch_size
            &&& t.consecutive_bad_batches == s.consecutive_bad_batches + 1
            &&& t.consecutive_good_batches == 0
        }),
{
}

/// At least thirty seconds pass between two changes of the batch size: an
/// adjustment that changes the size comes thirty seconds or more after the
/// previous one and records `now` as the time of the last adjustment, so that
/// every call within the next thirty seconds leaves the state as it is
/// (`lemma_adjust_throttled`).
pub proof fn lemma_adjust_interval(s: BatcherState, batch_size: usize, total_time: u64, proofs: usize, now: u64, total_memory: u64)
    ensures
        ({
            let t = spec_adjust(s, batch_size, total_time, proofs, now, total_memory);
            t.current_batch_size != s.current_batch_size ==> {
                &&& spec_elapsed(now, s.last_adjustment) >= ADJUSTMENT_INTERVAL
                &&& t.last_adjustment == now
            }
        }),
{
}

/// The batcher's state stays sound through every adjustment: the size within
/// its bounds, a good-batch streak shorter than five, and never a good and a
/// slow streak at once.
pub proof fn lemma_adjust_keeps_state(s: BatcherState, batch_size: usize, total_time: u64, proofs: usize, now: u64, total_memory: u64)
    requires
        s.min_batch_size <= s.current_batch_size <= s.max_batch_size,
        s.consecutive_good_batches < 5,
        s.consecutive_good_batches == 0 || s.consecutive_bad_batches == 0,
    ensures
        ({
            let t = spec_adjust(s, batch_size, total_time, proofs, now, total_memory);
            &&& t.min_batch_size <= t.current_batch_size <= t.max_batch_size
            &&& t.consecutive_good_batches < 5
            &&& (t.consecutive_good_batches == 0 || t.consecutive_bad_batches == 0)
        }),
{
    lemma_adjust_keeps_bounds(s, batch_size, total_time, proofs, now, total_memory);
}

/// Five good batches in a row grow the batch size by half: when a batch that
/// would start a good streak (as from a state with no streak running) instead
/// ends a run of four good ones, the size becomes one and a half times the
/// size that batch alone gives, at most the maximum, and the streak starts
/// over.
pub proof fn lemma_fifth_good_batch_grows(s: BatcherState, batch_size: usize, total_time: u64, proofs: usize, now: u64, total_memory: u64)
    requires
        s.consecutive_good_batches == 4,
        s.consecutive_bad_batches == 0,
        ({
            let fresh = BatcherState { consecutive_good_batches: 0, ..s };
            spec_adjust(fresh, batch_size, total_time, proofs, now, total_memory).consecutive_good_batches == 1
        }),
    ensures
        ({
            let fresh = BatcherState { consecutive_good_batches: 0, ..s };
            let single = spec_adjust(fresh, batch_size, total_time, proofs, now, total_memory).current_batch_size;
            let t = spec_adjust(s, batch_size, total_time, proofs, now, total_memory);
            &&& t.current_batch_size == (if single * 3 / 2 < s.max_batch_size { single * 3 / 2 } else { s.max_batch_size as int })
            &&& t.consecutive_good_batches == 0
        }),
{
}

/// Three slow batches in a row halve the batch size: when a batch with proofs
/// that would start a slow streak instead ends a run of two slow ones (a
/// batch without proofs only halves the size once), the size becomes
/// half the size that batch alone gives, at least the minimum, and the
/// streak starts over.
pub proof fn lemma_third_slow_batch_halves(s: BatcherState, batch_size: usize, total_time: u64, proofs: usize, now: u64, total_memory: u64)
    requires
        s.consecutive_good_batches == 0,
        s.consecutive_bad_batches == 2,
        proofs > 0,
        ({
            let fresh = BatcherState { consecutive_bad_batches: 0, ..s };
            spec_adjust(fresh, batch_size, total_time, proofs, now, total_memory).consecutive_bad_batches == 1
        }),
    ensures
        ({
            let fresh = BatcherState { consecutive_bad_batches: 0, ..s };
            let single = spec_adjust(fresh, batch_size, total_time, proofs, now, total_memory).current_batch_size;
            let t = spec_adjust(s, batch_size, total_time, proofs, now, total_memory);
            &&& t.current_batch_size == (if single / 2 > s.min_batch_size { single / 2 } else { s.min_batch_size })
            &&& t.consecutive_bad_batches == 0
        }),
{
}

/// Whether the process-wide batcher is worth keeping: only on machines with
/// more than 2 GiB of memory.
pub fn should_use_global_batcher(total_memory: u64) -> (r: bool)
    ensures
        r == (total_memory > 2 * GIB),
{
    total_memory > 2 * GIB
}

} // verus!
