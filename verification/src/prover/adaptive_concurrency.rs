//! Adaptive worker count: scales the number of proving workers with the
//! machine's CPU and memory use and with the observed proof rate.
//!
//! Usage figures are in hundredths of a percent (`7000` is 70%), proof rates
//! in thousandths of a proof per second, and times in nanoseconds on the
//! caller's clock. Each scaling step rounds down.
use vstd::prelude::*;
use crate::system::{GIB, NANOS_PER_SEC, spec_elapsed, elapsed};

verus! {

/// Time between two adjustments of the worker count: thirty seconds.
pub const ADJUSTMENT_COOLDOWN: u64 = 30000000000;

/// How many proof rates the history keeps.
pub const HISTORY_LEN: usize = 10;

/// The latest measurements of the machine.
pub struct SystemMetrics {
    pub cpu_usage: u64,
    pub memory_usage: u64,
    pub proof_completion_rate: u64,
    pub last_updated: u64,
}

impl SystemMetrics {
    /// No load and no proofs yet, measured at `now`.
    pub fn new(now: u64) -> (r: Self)
        ensures
            r.cpu_usage == 0,
            r.memory_usage == 0,
            r.proof_completion_rate == 0,
            r.last_updated == now,
    {
        SystemMetrics { cpu_usage: 0, memory_usage: 0, proof_completion_rate: 0, last_updated: now }
    }
}

/// Scales the number of proving workers with the machine's load.
pub struct AdaptiveConcurrencyManager {
    base_workers: usize,
    max_workers: usize,
    min_workers: usize,
    metrics: SystemMetrics,
    last_adjustment: u64,
    adjustment_cooldown: u64,
    performance_history: Vec<u64>,
}

/// The worker count that the measurements suggest: 1.5x with memory use
/// below 70%, 0.7x above 85%; then 1.2x with CPU use below 60%, 0.8x above
/// 90%; then 1.1x with more than 0.5 proofs per second, 0.9x with fewer than
/// 0.1; then bounded to `min..=max`.
pub open spec fn spec_optimal_workers(base: int, min: int, max: int, m: SystemMetrics) -> int {
    let a = if m.memory_usage < 7000 { base * 15 / 10 } else if m.memory_usage > 8500 { base * 7 / 10 } else { base };
    let b = if m.cpu_usage < 6000 { a * 12 / 10 } else if m.cpu_usage > 9000 { a * 8 / 10 } else { a };
    let c = if m.proof_completion_rate > 500 { b * 11 / 10 } else if m.proof_completion_rate < 100 { b * 9 / 10 } else { b };
    if c < min { min } else if c > max { max } else { c }
}

/// The completion rate, in thousandths of a proof per second, of one proof
/// that took `nanos` nanoseconds (the largest value for an instant proof).
pub open spec fn spec_rate_of(nanos: u64) -> u64 {
    if nanos == 0 { u64::MAX } else { (1000000000000u128 / nanos as u128) as u64 }
}

/// The smoothed completion rate: 70% of the old rate and 30% of the new one.
pub open spec fn spec_smoothed_rate(old_rate: u64, new_rate: u64) -> u64 {
    ((old_rate as int * 7 + new_rate as int * 3) / 10) as u64
}

/// The sum of the first `k` rates of `h`, at most its length.
pub open spec fn spec_sum(h: Seq<u64>) -> int
    decreases h.len(),
{
    if h.len() == 0 { 0 } else { spec_sum(h.drop_last()) + h.last() }
}

/// The trend of the proof rate as a fraction `(change, base)`: the sum of the
/// three latest rates against the sum of the three oldest, relative to the
/// latter; `(0, 1)` with fewer than two rates or when the oldest sum to zero.
pub open spec fn spec_trend(h: Seq<u64>) -> (int, int) {
    let k = if h.len() < 3 { h.len() as int } else { 3int };
    let recent = spec_sum(h.skip(h.len() - k));
    let older = spec_sum(h.take(k));
    if h.len() < 2 || older == 0 { (0, 1) } else { (recent - older, older) }
}

impl AdaptiveConcurrencyManager {
    /// The base worker count.
    pub closed spec fn base(&self) -> usize { self.base_workers }

    /// The least worker count.
    pub closed spec fn min(&self) -> usize { self.min_workers }

    /// The largest worker count.
    pub closed spec fn max(&self) -> usize { self.max_workers }

    /// The latest measurements.
    pub closed spec fn metrics_view(&self) -> SystemMetrics { self.metrics }

    /// When the manager was created (the reference for the cooldown).
    pub closed spec fn last_adjustment_view(&self) -> u64 { self.last_adjustment }

    /// The latest proof rates, oldest first.
    pub closed spec fn history(&self) -> Seq<u64> { self.performance_history@ }

    /// What every manager keeps: at most ten rates in the history and a
    /// thirty-second cooldown.
    pub open spec fn wf(&self) -> bool {
        &&& self.history().len() <= HISTORY_LEN
        &&& self.cooldown() == ADJUSTMENT_COOLDOWN
    }

    /// The cooldown between adjustments.
    pub closed spec fn cooldown(&self) -> u64 { self.adjustment_cooldown }

    /// A manager for `base_workers` workers that scales up to `max_workers`
    /// and down to a quarter of the base (at least one), created at `now`.
    pub fn new(base_workers: usize, max_workers: usize, now: u64) -> (r: Self)
        ensures
            r.wf(),
            r.base() == base_workers,
            r.max() == max_workers,
            r.min() == (if base_workers / 4 > 1 { base_workers / 4 } else { 1 }),
            r.metrics_view() == (SystemMetrics { cpu_usage: 0, memory_usage: 0, proof_completion_rate: 0, last_updated: now }),
            r.last_adjustment_view() == now,
            r.history() == Seq::<u64>::empty(),
    {
        let quarter = base_workers / 4;
        AdaptiveConcurrencyManager {
            base_workers,
            max_workers,
            min_workers: if quarter > 1 { quarter } else { 1 },
            metrics: SystemMetrics::new(now),
            last_adjustment: now,
            adjustment_cooldown: ADJUSTMENT_COOLDOWN,
            performance_history: Vec::new(),
        }
    }

    /// The worker count for the current measurements at `now`: the base count
    /// within thirty seconds of creation, else see `spec_optimal_workers`.
    pub fn get_optimal_workers(&self, now: u64) -> (r: usize)
        requires
            self.wf(),
            self.min() <= self.max(),
        ensures
            spec_elapsed(now, self.last_adjustment_view()) < ADJUSTMENT_COOLDOWN ==> r == self.base(),
            spec_elapsed(now, self.last_adjustment_view()) >= ADJUSTMENT_COOLDOWN
                ==> r == spec_optimal_workers(self.base() as int, self.min() as int, self.max() as int, self.metrics_view()),
    {
        if elapsed(now, self.last_adjustment) < self.adjustment_cooldown {
            return self.base_workers;
        }
        let m = &self.metrics;
        let base = self.base_workers as u128;
        let a: u128 = if m.memory_usage < 7000 { base * 15 / 10 } else if m.memory_usage > 8500 { base * 7 / 10 } else { base };
        let b: u128 = if m.cpu_usage < 6000 { a * 12 / 10 } else if m.cpu_usage > 9000 { a * 8 / 10 } else { a };
        let c: u128 = if m.proof_completion_rate > 500 { b * 11 / 10 } else if m.proof_completion_rate < 100 { b * 9 / 10 } else { b };
        if c < self.min_workers as u128 {
            self.min_workers
        } else if c > self.max_workers as u128 {
            self.max_workers
        } else {
            c as usize
        }
    }

    /// Records new measurements at `now` and keeps the latest ten rates.
    pub fn update_metrics(&mut self, cpu_usage: u64, memory_usage: u64, proof_completion_rate: u64, now: u64)
        requires
            old(self).wf(),
        ensures
            final(self).wf(),
            final(self).base() == old(self).base(),
            final(self).min() == old(self).min(),
            final(self).max() == old(self).max(),
            final(self).last_adjustment_view() == old(self).last_adjustment_view(),
            final(self).metrics_view() == (SystemMetrics { cpu_usage, memory_usage, proof_completion_rate, last_updated: now }),
            final(self).history() == if old(self).history().len() + 1 > HISTORY_LEN {
                old(self).history().push(proof_completion_rate).drop_first()
            } else {
                old(self).history().push(proof_completion_rate)
            },
    {
        self.metrics.cpu_usage = cpu_usage;
        self.metrics.memory_usage = memory_usage;
        self.metrics.proof_completion_rate = proof_completion_rate;
        self.metrics.last_updated = now;
        self.performance_history.push(proof_completion_rate);
        if self.performance_history.len() > HISTORY_LEN {
            self.performance_history.remove(0);
            assert(self.performance_history@ =~= old(self).history().push(proof_completion_rate).drop_first());
        }
    }

    /// Records the machine's CPU and memory use measured at `now`, as the
    /// background monitor does; the proof rate and its history stay as they are.
    pub fn record_system_load(&mut self, cpu_usage: u64, memory_usage: u64, now: u64)
        requires
            old(self).wf(),
        ensures
            final(self).wf(),
            final(self).base() == old(self).base(),
            final(self).min() == old(self).min(),
            final(self).max() == old(self).max(),
            final(self).last_adjustment_view() == old(self).last_adjustment_view(),
            final(self).history() == old(self).history(),
            final(self).metrics_view() == (SystemMetrics {
                cpu_usage,
                memory_usage,
                last_updated: now,
                ..old(self).metrics_view()
            }),
    {
        self.metrics.cpu_usage = cpu_usage;
        self.metrics.memory_usage = memory_usage;
        self.metrics.last_updated = now;
    }

    /// Folds one proof that took `duration` nanoseconds into the smoothed
    /// completion rate.
    pub fn record_proof_completion(&mut self, duration: u64)
        requires
            old(self).wf(),
        ensures
            final(self).wf(),
            final(self).base() == old(self).base(),
            final(self).min() == old(self).min(),
            final(self).max() == old(self).max(),
            final(self).last_adjustment_view() == old(self).last_adjustment_view(),
            final(self).history() == old(self).history(),
            final(self).metrics_view() == (SystemMetrics {
                proof_completion_rate: spec_smoothed_rate(old(self).metrics_view().proof_completion_rate, spec_rate_of(duration)),
                ..old(self).metrics_view()
            }),
    {
        let rate: u64 = if duration == 0 { u64::MAX } else { (1000000000000u128 / duration as u128) as u64 };
        let old_rate = self.metrics.proof_completion_rate as u128;
        let smoothed: u128 = (old_rate * 7 + (rate as u128) * 3) / 10;
        self.metrics.proof_completion_rate = smoothed as u64;
    }

    /// The trend of the proof rate (see `spec_trend`).
    pub fn get_performance_trend(&self) -> (r: (i128, u128))
        requires
            self.wf(),
        ensures
            r.0 == spec_trend(self.history()).0,
            r.1 == spec_trend(self.history()).1,
    {
        let h = &self.performance_history;
        let n = h.len();
        let k: usize = if n < 3 { n } else { 3 };
        let mut recent: u128 = 0;
        let mut older: u128 = 0;
        let mut i: usize = 0;
        let ghost hs = h@;
        assert(hs.take(0) =~= Seq::<u64>::empty());
        assert(hs.skip(n - k).take(0) =~= Seq::<u64>::empty());
        while i < k
            invariant
                k <= n,
                n == hs.len(),
                hs == h@,
                n <= HISTORY_LEN,
                i <= k,
                older == spec_sum(hs.take(i as int)),
                recent == spec_sum(hs.skip(n - k).take(i as int)),
                older <= i * (u64::MAX as int),
                recent <= i * (u64::MAX as int),
            decreases k - i,
        {
            assert(hs.take(i + 1).drop_last() =~= hs.take(i as int));
            assert(hs.skip(n - k).take(i + 1).drop_last() =~= hs.skip(n - k).take(i as int));
            older = older + h[i] as u128;
            recent = recent + h[n - k + i] as u128;
            i = i + 1;
        }
        assert(hs.take(k as int) =~= hs.take(k as int));
        assert(hs.skip(n - k).take(k as int) =~= hs.skip(n - k));
        if n < 2 || older == 0 {
            (0, 1)
        } else {
            ((recent as i128) - (older as i128), older)
        }
    }
}

/// The base worker count for a machine with `total_memory` bytes and `cores`
/// cores: four per core from 32 GiB, three from 16 GiB, two from 8 GiB, else
/// one per core (at least one).
pub open spec fn spec_base_workers(total_memory: u64, cores: usize) -> int {
    if total_memory >= 32 * GIB { cores * 4 }
    else if total_memory >= 16 * GIB { cores * 3 }
    else if total_memory >= 8 * GIB { cores * 2 }
    else if cores > 1 { cores as int } else { 1 }
}

/// The process-wide manager for a machine with `total_memory` bytes and
/// `cores` cores, created at `now`: the base count from
/// `spec_base_workers`, scaling up to twice that.
pub fn manager_for_system(total_memory: u64, cores: usize, now: u64) -> (r: AdaptiveConcurrencyManager)
    requires
        1 <= cores <= usize::MAX / 8,
    ensures
        r.wf(),
        r.base() == spec_base_workers(total_memory, cores),
        r.max() == 2 * spec_base_workers(total_memory, cores),
        r.min() <= r.max(),
{
    let base: usize = if total_memory >= 32 * GIB {
        cores * 4
    } else if total_memory >= 16 * GIB {
        cores * 3
    } else if total_memory >= 8 * GIB {
        cores * 2
    } else if cores > 1 {
        cores
    } else {
        1
    };
    let r = AdaptiveConcurrencyManager::new(base, base * 2, now);
    r
}

/// The worker count that `manager` suggests at `now`.
pub fn get_optimal_worker_count(manager: &AdaptiveConcurrencyManager, now: u64) -> (r: usize)
    requires
        manager.wf(),
        manager.min() <= manager.max(),
    ensures
        spec_elapsed(now, manager.last_adjustment_view()) < ADJUSTMENT_COOLDOWN ==> r == manager.base(),
        spec_elapsed(now, manager.last_adjustment_view()) >= ADJUSTMENT_COOLDOWN
            ==> r == spec_optimal_workers(manager.base() as int, manager.min() as int, manager.max() as int, manager.metrics_view()),
{
    manager.get_optimal_workers(now)
}

/// Records a proof of `duration` nanoseconds with `manager`.
pub fn record_proof_completion(manager: &mut AdaptiveConcurrencyManager, duration: u64)
    requires
        old(manager).wf(),
    ensures
        final(manager).wf(),
        final(manager).metrics_view().proof_completion_rate
            == spec_smoothed_rate(old(manager).metrics_view().proof_completion_rate, spec_rate_of(duration)),
        final(manager).history() == old(manager).history(),
{
    manager.record_proof_completion(duration);
}

/// Records new measurements with `manager` at `now`.
pub fn update_system_metrics(manager: &mut AdaptiveConcurrencyManager, cpu_usage: u64, memory_usage: u64, completion_rate: u64, now: u64)
    requires
        old(manager).wf(),
    ensures
        final(manager).wf(),
        final(manager).metrics_view() == (SystemMetrics { cpu_usage, memory_usage, proof_completion_rate: completion_rate, last_updated: now }),
{
    manager.update_metrics(cpu_usage, memory_usage, completion_rate, now);
}

/// The CPU usage assumed for scaling, as the monitor estimates it: 50% when
/// the kernel's CPU statistics can be read, 60% otherwise.
pub fn estimated_cpu_usage(stat_readable: bool) -> (r: u64)
    ensures
        r == (if stat_readable { 5000u64 } else { 6000u64 }),
{
    if stat_readable { 5000 } else { 6000 }
}

/// The memory usage assumed for scaling, as the monitor estimates it: 60%
/// of the machine's memory, whether or not the kernel's memory statistics can
/// be read.
pub fn estimated_memory_usage() -> (r: u64)
    ensures
        r == 6000,
{
    6000
}

/// The suggested worker count always lies within the manager's bounds once
/// the cooldown has passed.
pub proof fn lemma_optimal_within_bounds(base: int, min: int, max: int, m: SystemMetrics)
    requires
        min <= max,
    ensures
        min <= spec_optimal_workers(base, min, max, m) <= max,
{
}

/// The history of proof rates never holds more than ten rates.
pub proof fn lemma_history_bounded(old_history: Seq<u64>, rate: u64)
    requires
        old_history.len() <= HISTORY_LEN,
    ensures
        (if old_history.len() + 1 > HISTORY_LEN { old_history.push(rate).drop_first() } else { old_history.push(rate) }).len() <= HISTORY_LEN,
{
}

/// A proof rate from 0.1 to 0.5 proofs per second is neither good nor poor:
/// the suggested count is then the base count scaled by memory use (1.5x
/// below 70%, 0.7x above 85%) and by CPU use (1.2x below 60%, 0.8x above
/// 90%) alone, bounded to `min..=max`.
pub proof fn lemma_middle_rate_is_neutral(base: int, min: int, max: int, m: SystemMetrics)
    requires
        100 <= m.proof_completion_rate <= 500,
    ensures
        ({
            let by_memory = if m.memory_usage < 7000 { base * 3 / 2 } else if m.memory_usage > 8500 { base * 7 / 10 } else { base };
            let by_cpu = if m.cpu_usage < 6000 { by_memory * 6 / 5 } else if m.cpu_usage > 9000 { by_memory * 4 / 5 } else { by_memory };
            spec_optimal_workers(base, min, max, m) == (if by_cpu < min { min } else if by_cpu > max { max } else { by_cpu })
        }),
{
    assert(base * 15 / 10 == base * 3 / 2);
}

/// A better proof rate never suggests fewer workers: with the same memory and
/// CPU use, a higher rate gives at least as many.
pub proof fn lemma_rate_monotone(base: int, min: int, max: int, m1: SystemMetrics, m2: SystemMetrics)
    requires
        base >= 0,
        min <= max,
        m1.cpu_usage == m2.cpu_usage,
        m1.memory_usage == m2.memory_usage,
        m1.proof_completion_rate <= m2.proof_completion_rate,
    ensures
        spec_optimal_workers(base, min, max, m1) <= spec_optimal_workers(base, min, max, m2),
{
    let a = if m1.memory_usage < 7000 { base * 15 / 10 } else if m1.memory_usage > 8500 { base * 7 / 10 } else { base };
    let b = if m1.cpu_usage < 6000 { a * 12 / 10 } else if m1.cpu_usage > 9000 { a * 8 / 10 } else { a };
    assert(b >= 0);
    assert(b * 9 / 10 <= b && b <= b * 11 / 10);
}

} // verus!
