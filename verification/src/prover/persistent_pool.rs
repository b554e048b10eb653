//! Pool of long-lived proving processes: health bookkeeping, which process is
//! handed out or retired, and the pool's counters.
//!
//! The process handle `H` is whatever the caller uses to talk to a process;
//! the pool only moves it around. Times are nanoseconds on the caller's clock.
use vstd::prelude::*;
use vstd::string::StringExecFns;
use std::collections::VecDeque;
use crate::prover::types::ProverError;
use crate::system::{GIB, NANOS_PER_SEC, spec_elapsed, elapsed};

verus! {

/// Longest life of a process: ten minutes.
pub const MAX_PROCESS_AGE: u64 = 600000000000;

/// Longest idle time of a process: five minutes.
pub const MAX_PROCESS_IDLE: u64 = 300000000000;

/// Most proofs a process generates before it is retired.
pub const MAX_PROOFS_PER_PROCESS: u64 = 1000;

/// Most processes that handed-back processes fill the pool to.
pub const POOL_RETURN_LIMIT: usize = 20;

/// A long-lived proving process and its bookkeeping.
pub struct PersistentProverProcess<H> {
    pub handle: H,
    pub last_used: u64,
    pub proof_count: u64,
    pub created_at: u64,
}

/// Statistics of one process (ages in whole seconds).
#[derive(Debug)]
pub struct ProcessStats {
    pub proof_count: u64,
    pub age_seconds: u64,
    pub idle_seconds: u64,
    pub is_healthy: bool,
}

/// Whether a process is still worth keeping at `now`: younger than ten
/// minutes, idle for less than five, and with fewer than a thousand proofs.
pub open spec fn spec_is_healthy(created_at: u64, last_used: u64, proof_count: u64, now: u64) -> bool {
    &&& spec_elapsed(now, created_at) < MAX_PROCESS_AGE
    &&& spec_elapsed(now, last_used) < MAX_PROCESS_IDLE
    &&& proof_count < MAX_PROOFS_PER_PROCESS
}

/// Whether process `p` is healthy at `now`.
pub open spec fn spec_process_healthy<H>(p: PersistentProverProcess<H>, now: u64) -> bool {
    spec_is_healthy(p.created_at, p.last_used, p.proof_count, now)
}

impl<H> PersistentProverProcess<H> {
    /// A process that was just started at `now`.
    pub fn new(handle: H, now: u64) -> (r: Self)
        ensures
            r.handle == handle,
            r.last_used == now,
            r.created_at == now,
            r.proof_count == 0,
    {
        PersistentProverProcess { handle, last_used: now, proof_count: 0, created_at: now }
    }

    /// Whether the process should be kept at `now`.
    pub fn is_healthy(&self, now: u64) -> (r: bool)
        ensures
            r == spec_process_healthy(*self, now),
    {
        elapsed(now, self.created_at) < MAX_PROCESS_AGE
            && elapsed(now, self.last_used) < MAX_PROCESS_IDLE
            && self.proof_count < MAX_PROOFS_PER_PROCESS
    }

    /// The process's statistics at `now`.
    pub fn get_stats(&self, now: u64) -> (r: ProcessStats)
        ensures
            r.proof_count == self.proof_count,
            r.age_seconds == spec_elapsed(now, self.created_at) / NANOS_PER_SEC,
            r.idle_seconds == spec_elapsed(now, self.last_used) / NANOS_PER_SEC,
            r.is_healthy == spec_process_healthy(*self, now),
    {
        ProcessStats {
            proof_count: self.proof_count,
            age_seconds: elapsed(now, self.created_at) / NANOS_PER_SEC,
            idle_seconds: elapsed(now, self.last_used) / NANOS_PER_SEC,
            is_healthy: self.is_healthy(now),
        }
    }

    /// Records a proof that the process finished at `now`.
    pub fn record_proof(&mut self, now: u64)
        requires
            old(self).proof_count < u64::MAX,
        ensures
            final(self).handle == old(self).handle,
            final(self).created_at == old(self).created_at,
            final(self).last_used == now,
            final(self).proof_count == old(self).proof_count + 1,
    {
        self.last_used = now;
        self.proof_count = self.proof_count + 1;
    }
}

/// What the check of a process after writing a proof request found: still
/// running (`None`), or ended with success or failure and its exit status.
pub fn check_process_alive(exit: Option<(bool, String)>) -> (r: Result<(), ProverError>)
    ensures
        match exit {
            None => r is Ok,
            Some((success, status)) => if success {
                r matches Err(ProverError::Subprocess(m)) && m@ == "Process ended unexpectedly"@
            } else {
                r matches Err(ProverError::Subprocess(m)) && m@ == "Process died: "@ + status@
            },
        },
{
    match exit {
        None => Ok(()),
        Some((success, status)) => {
            if !success {
                let mut m = String::from_str("Process died: ");
                m.append(status.as_str());
                Err(ProverError::Subprocess(m))
            } else {
                Err(ProverError::Subprocess(String::from_str("Process ended unexpectedly")))
            }
        },
    }
}

/// Counters of the pool.
#[derive(Debug)]
pub struct PoolStats {
    pub total_processes_created: u64,
    pub processes_reused: u64,
    pub processes_expired: u64,
    pub active_processes: usize,
    pub total_proofs_generated: u64,
}

impl PoolStats {
    /// All counters at zero.
    pub open spec fn zero() -> PoolStats {
        PoolStats {
            total_processes_created: 0,
            processes_reused: 0,
            processes_expired: 0,
            active_processes: 0,
            total_proofs_generated: 0,
        }
    }

    /// A copy of the counters.
    pub fn copy(&self) -> (r: PoolStats)
        ensures
            r == *self,
    {
        PoolStats {
            total_processes_created: self.total_processes_created,
            processes_reused: self.processes_reused,
            processes_expired: self.processes_expired,
            active_processes: self.active_processes,
            total_proofs_generated: self.total_proofs_generated,
        }
    }
}

impl Default for PoolStats {
    /// All counters at zero.
    fn default() -> (r: Self)
        ensures
            r == PoolStats::zero(),
    {
        PoolStats {
            total_processes_created: 0,
            processes_reused: 0,
            processes_expired: 0,
            active_processes: 0,
            total_proofs_generated: 0,
        }
    }
}

/// Detailed pool statistics for monitoring.
pub struct DetailedPoolStats {
    pub pool_size: usize,
    pub max_size: usize,
    pub stats: PoolStats,
    pub process_details: Vec<ProcessStats>,
}

/// What happened to a process that was handed back.
pub enum Returned<H> {
    /// It went back into the pool.
    Pooled,
    /// It was healthy but the pool was full; it is let go without being killed.
    Dropped(PersistentProverProcess<H>),
    /// It was unhealthy; it is to be killed.
    Retired(PersistentProverProcess<H>),
}

/// Pool of long-lived proving processes.
pub struct PersistentProcessPool<H> {
    processes: VecDeque<PersistentProverProcess<H>>,
    max_size: usize,
    stats: PoolStats,
}

/// `a` lowered by `k`, not below zero (`k` saturating subtractions of one).
pub open spec fn spec_less(a: usize, k: int) -> usize {
    if a > k { (a - k) as usize } else { 0 }
}

/// The processes of `s` that are unhealthy at `now`, in order.
pub open spec fn spec_unhealthy<H>(s: Seq<PersistentProverProcess<H>>, now: u64) -> Seq<PersistentProverProcess<H>> {
    s.filter(|p: PersistentProverProcess<H>| !spec_process_healthy(p, now))
}

/// The processes of `s` that are healthy at `now`, in order.
pub open spec fn spec_healthy<H>(s: Seq<PersistentProverProcess<H>>, now: u64) -> Seq<PersistentProverProcess<H>> {
    s.filter(|p: PersistentProverProcess<H>| spec_process_healthy(p, now))
}

/// The index of the first process of `s` that is healthy at `now`.
pub open spec fn spec_first_healthy<H>(s: Seq<PersistentProverProcess<H>>, now: u64) -> Option<int>
    decreases s.len(),
{
    if s.len() == 0 {
        None
    } else if spec_process_healthy(s[0], now) {
        Some(0)
    } else {
        match spec_first_healthy(s.drop_first(), now) {
            Some(i) => Some(i + 1),
            None => None,
        }
    }
}

impl<H> PersistentProcessPool<H> {
    /// The pooled processes, oldest first.
    pub closed spec fn processes_view(&self) -> Seq<PersistentProverProcess<H>> {
        self.processes@
    }

    /// The pool's counters.
    pub closed spec fn stats_view(&self) -> PoolStats {
        self.stats
    }

    /// The most processes that pre-warming starts.
    pub closed spec fn max_size_view(&self) -> usize {
        self.max_size
    }

    /// An empty pool for up to `max_size` pre-warmed processes.
    pub fn new(max_size: usize) -> (r: Self)
        ensures
            r.processes_view() == Seq::<PersistentProverProcess<H>>::empty(),
            r.stats_view() == PoolStats::zero(),
            r.max_size_view() == max_size,
    {
        PersistentProcessPool { processes: VecDeque::with_capacity(max_size), max_size, stats: PoolStats::default() }
    }

    /// Takes the first healthy process at `now`, retiring the unhealthy ones
    /// in front of it; returns the process (if one was healthy) and the
    /// retired ones, which are to be killed. When no process was healthy the
    /// caller starts a new one and reports it with `register_new_process`.
    pub fn get_process(&mut self, now: u64) -> (r: (Option<PersistentProverProcess<H>>, Vec<PersistentProverProcess<H>>))
        requires
            old(self).stats_view().processes_reused < u64::MAX,
            old(self).stats_view().active_processes < usize::MAX,
            old(self).stats_view().processes_expired + old(self).processes_view().len() <= u64::MAX,
        ensures
            final(self).max_size_view() == old(self).max_size_view(),
            final(self).stats_view().total_processes_created == old(self).stats_view().total_processes_created,
            final(self).stats_view().total_proofs_generated == old(self).stats_view().total_proofs_generated,
            match spec_first_healthy(old(self).processes_view(), now) {
                Some(i) => {
                    let s = old(self).processes_view();
                    &&& r.0 == Some(s[i])
                    &&& r.1@ == s.take(i)
                    &&& final(self).processes_view() == s.skip(i + 1)
                    &&& final(self).stats_view().processes_reused == old(self).stats_view().processes_reused + 1
                    &&& final(self).stats_view().processes_expired == old(self).stats_view().processes_expired + i
                    &&& final(self).stats_view().active_processes
                        == spec_less(old(self).stats_view().active_processes, i) + 1
                },
                None => {
                    &&& r.0 is None
                    &&& r.1@ == old(self).processes_view()
                    &&& final(self).processes_view() == Seq::<PersistentProverProcess<H>>::empty()
                    &&& final(self).stats_view().processes_reused == old(self).stats_view().processes_reused
                    &&& final(self).stats_view().processes_expired
                        == old(self).stats_view().processes_expired + old(self).processes_view().len()
                    &&& final(self).stats_view().active_processes
                        == spec_less(old(self).stats_view().active_processes, old(self).processes_view().len() as int)
                },
            },
    {
        let ghost s = self.processes@;
        let n = self.processes.len();
        let mut retired: Vec<PersistentProverProcess<H>> = Vec::new();
        let mut k: usize = 0;
        assert(s.skip(0) =~= s);
        assert(s.take(0) =~= Seq::<PersistentProverProcess<H>>::empty());
        while self.processes.len() > 0
            invariant
                n == s.len(),
                self.processes@ == s.skip(k as int),
                retired@ == s.take(k as int),
                k <= s.len(),
                spec_first_healthy(s, now) == (match spec_first_healthy(s.skip(k as int), now) {
                    Some(j) => Some(j + k),
                    None => None::<int>,
                }),
                self.max_size == old(self).max_size,
                self.stats.total_processes_created == old(self).stats.total_processes_created,
                self.stats.total_proofs_generated == old(self).stats.total_proofs_generated,
                self.stats.processes_reused == old(self).stats.processes_reused,
                self.stats.active_processes == spec_less(old(self).stats.active_processes, k as int),
                old(self).stats.active_processes < usize::MAX,
                self.stats.processes_expired == old(self).stats.processes_expired + k,
                old(self).stats.processes_expired + s.len() <= u64::MAX,
                s == old(self).processes@,
                old(self).stats.processes_reused < u64::MAX,
            decreases self.processes@.len(),
        {
            let p = self.processes.pop_front().unwrap();
            proof {
                assert(s.skip(k as int).drop_first() =~= s.skip(k as int + 1));
                assert(s.skip(k as int)[0] == s[k as int]);
            }
            if p.is_healthy(now) {
                self.stats.processes_reused = self.stats.processes_reused + 1;
                self.stats.active_processes = self.stats.active_processes + 1;
                return (Some(p), retired);
            }
            self.stats.processes_expired = self.stats.processes_expired + 1;
            self.stats.active_processes = self.stats.active_processes.saturating_sub(1);
            retired.push(p);
            k = k + 1;
            assert(retired@ =~= s.take(k as int));
        }
        assert(s.skip(k as int).len() == 0);
        assert(retired@ =~= s);
        (None, retired)
    }

    /// Counts a process that the caller started because no pooled process
    /// was healthy.
    pub fn register_new_process(&mut self)
        requires
            old(self).stats_view().total_processes_created < u64::MAX,
            old(self).stats_view().active_processes < usize::MAX,
        ensures
            final(self).processes_view() == old(self).processes_view(),
            final(self).max_size_view() == old(self).max_size_view(),
            final(self).stats_view() == (PoolStats {
                total_processes_created: (old(self).stats_view().total_processes_created + 1) as u64,
                active_processes: (old(self).stats_view().active_processes + 1) as usize,
                ..old(self).stats_view()
            }),
    {
        self.stats.total_processes_created = self.stats.total_processes_created + 1;
        self.stats.active_processes = self.stats.active_processes + 1;
    }

    /// How many processes pre-warming starts when `count` are asked for: at
    /// most the pool's maximum size.
    pub fn pre_warm_count(&self, count: usize) -> (r: usize)
        ensures
            r == if count < self.max_size_view() { count } else { self.max_size_view() },
    {
        if count < self.max_size { count } else { self.max_size }
    }

    /// Adds a freshly started process while pre-warming.
    pub fn add_prewarmed(&mut self, process: PersistentProverProcess<H>)
        requires
            old(self).stats_view().total_processes_created < u64::MAX,
        ensures
            final(self).processes_view() == old(self).processes_view().push(process),
            final(self).max_size_view() == old(self).max_size_view(),
            final(self).stats_view() == (PoolStats {
                total_processes_created: (old(self).stats_view().total_processes_created + 1) as u64,
                ..old(self).stats_view()
            }),
    {
        self.processes.push_back(process);
        self.stats.total_processes_created = self.stats.total_processes_created + 1;
    }

    /// Takes back a process at `now`: a healthy one goes back into the pool
    /// while it holds fewer than twenty (its proofs are then added to the
    /// total), a healthy one beyond that is let go, an unhealthy one is
    /// retired.
    pub fn return_process(&mut self, process: PersistentProverProcess<H>, now: u64) -> (r: Returned<H>)
        requires
            old(self).stats_view().total_proofs_generated + process.proof_count <= u64::MAX,
            old(self).stats_view().processes_expired < u64::MAX,
        ensures
            final(self).max_size_view() == old(self).max_size_view(),
            spec_process_healthy(process, now) && old(self).processes_view().len() < POOL_RETURN_LIMIT ==> {
                &&& r is Pooled
                &&& final(self).processes_view() == old(self).processes_view().push(process)
                &&& final(self).stats_view() == (PoolStats {
                    total_proofs_generated: (old(self).stats_view().total_proofs_generated + process.proof_count) as u64,
                    ..old(self).stats_view()
                })
            },
            spec_process_healthy(process, now) && old(self).processes_view().len() >= POOL_RETURN_LIMIT ==> {
                &&& r == Returned::Dropped(process)
                &&& final(self).processes_view() == old(self).processes_view()
                &&& final(self).stats_view() == old(self).stats_view()
            },
            !spec_process_healthy(process, now) ==> {
                &&& r == Returned::Retired(process)
                &&& final(self).processes_view() == old(self).processes_view()
                &&& final(self).stats_view() == (PoolStats {
                    processes_expired: (old(self).stats_view().processes_expired + 1) as u64,
                    active_processes: (if old(self).stats_view().active_processes > 0 {
                        old(self).stats_view().active_processes - 1
                    } else {
                        0
                    }) as usize,
                    ..old(self).stats_view()
                })
            },
    {
        let proof_count = process.proof_count;
        if process.is_healthy(now) {
            if self.processes.len() < POOL_RETURN_LIMIT {
                self.processes.push_back(process);
                self.stats.total_proofs_generated = self.stats.total_proofs_generated + proof_count;
                Returned::Pooled
            } else {
                Returned::Dropped(process)
            }
        } else {
            self.stats.processes_expired = self.stats.processes_expired + 1;
            self.stats.active_processes = self.stats.active_processes.saturating_sub(1);
            Returned::Retired(process)
        }
    }

    /// Removes every process that is unhealthy at `now` and returns them,
    /// counting them as expired.
    pub fn cleanup_expired(&mut self, now: u64) -> (r: Vec<PersistentProverProcess<H>>)
        requires
            old(self).stats_view().processes_expired + old(self).processes_view().len() <= u64::MAX,
        ensures
            final(self).max_size_view() == old(self).max_size_view(),
            r@ == spec_unhealthy(old(self).processes_view(), now),
            final(self).processes_view() == spec_healthy(old(self).processes_view(), now),
            final(self).stats_view() == (PoolStats {
                processes_expired: (old(self).stats_view().processes_expired + r@.len()) as u64,
                active_processes: (if old(self).stats_view().active_processes > r@.len() {
                    old(self).stats_view().active_processes - r@.len()
                } else {
                    0
                }) as usize,
                ..old(self).stats_view()
            }),
    {
        let ghost s = self.processes@;
        let n = self.processes.len();
        let mut kept: VecDeque<PersistentProverProcess<H>> = VecDeque::new();
        let mut expired: Vec<PersistentProverProcess<H>> = Vec::new();
        let mut k: usize = 0;
        while k < n
            invariant
                n == s.len(),
                k <= n,
                self.processes@ == s.skip(k as int),
                kept@ == spec_healthy(s.take(k as int), now),
                expired@ == spec_unhealthy(s.take(k as int), now),
                expired@.len() <= k,
                self.max_size == old(self).max_size,
                self.stats == old(self).stats,
                old(self).stats.processes_expired + s.len() <= u64::MAX,
                s == old(self).processes@,
            decreases n - k,
        {
            let p = self.processes.pop_front().unwrap();
            proof {
                assert(s.skip(k as int).drop_first() =~= s.skip(k as int + 1));
                assert(s.take(k as int + 1).drop_last() =~= s.take(k as int));
                assert(s.take(k as int + 1).last() == s[k as int]);
                reveal(Seq::filter);
            }
            if p.is_healthy(now) {
                kept.push_back(p);
            } else {
                expired.push(p);
            }
            k = k + 1;
        }
        proof {
            assert(s.take(n as int) =~= s);
        }
        self.processes = kept;
        let count = expired.len();
        self.stats.processes_expired = self.stats.processes_expired + count as u64;
        self.stats.active_processes = self.stats.active_processes.saturating_sub(count);
        expired
    }

    /// A copy of the pool's counters.
    pub fn get_stats(&self) -> (r: PoolStats)
        ensures
            r == self.stats_view(),
    {
        self.stats.copy()
    }

    /// The pool's size, limit, counters and the statistics of every pooled
    /// process at `now`.
    pub fn get_detailed_stats(&self, now: u64) -> (r: DetailedPoolStats)
        ensures
            r.pool_size == self.processes_view().len(),
            r.max_size == self.max_size_view(),
            r.stats == self.stats_view(),
            r.process_details@.len() == self.processes_view().len(),
            forall|i: int| 0 <= i < r.process_details@.len() ==> {
                let p = #[trigger] self.processes_view()[i];
                let d = r.process_details@[i];
                &&& d.proof_count == p.proof_count
                &&& d.is_healthy == spec_process_healthy(p, now)
                &&& d.age_seconds == spec_elapsed(now, p.created_at) / NANOS_PER_SEC
                &&& d.idle_seconds == spec_elapsed(now, p.last_used) / NANOS_PER_SEC
            },
    {
        let mut details: Vec<ProcessStats> = Vec::new();
        let mut i: usize = 0;
        while i < self.processes.len()
            invariant
                i <= self.processes@.len(),
                details@.len() == i,
                forall|j: int| 0 <= j < i ==> {
                    let p = #[trigger] self.processes@[j];
                    let d = details@[j];
                    &&& d.proof_count == p.proof_count
                    &&& d.is_healthy == spec_process_healthy(p, now)
                    &&& d.age_seconds == spec_elapsed(now, p.created_at) / NANOS_PER_SEC
                    &&& d.idle_seconds == spec_elapsed(now, p.last_used) / NANOS_PER_SEC
                },
            decreases self.processes@.len() - i,
        {
            details.push(self.processes[i].get_stats(now));
            i = i + 1;
        }
        DetailedPoolStats {
            pool_size: self.processes.len(),
            max_size: self.max_size,
            stats: self.stats.copy(),
            process_details: details,
        }
    }
}

/// Most processes the pool is sized for.
pub const MAX_POOL_SIZE: usize = 16;

/// The pool size for a machine of `total` bytes with `cores` cores: one
/// process per core, at most one per GiB of memory (but two are always
/// allowed), at most sixteen, and at least one. So one core gives 1, two give
/// 2, four with 4 GiB give 4, eight with 8 GiB give 8 and sixteen with 16 GiB
/// give 16.
pub open spec fn spec_safe_pool_size(total: u64, cores: usize) -> usize {
    let by_memory: int = if total / GIB > 2 { (total / GIB) as int } else { 2 };
    let a: int = if (cores as int) < by_memory { cores as int } else { by_memory };
    let b: int = if a < MAX_POOL_SIZE { a } else { MAX_POOL_SIZE as int };
    (if b > 1 { b } else { 1 }) as usize
}

/// The pool size for a machine of `total_memory` bytes with `cores` cores.
pub fn calculate_safe_pool_size(total_memory: u64, cores: usize) -> (r: usize)
    ensures
        r == spec_safe_pool_size(total_memory, cores),
        1 <= r <= MAX_POOL_SIZE,
        cores == 1 ==> r == 1,
        cores == 2 ==> r == 2,
        cores == 4 && total_memory >= 4 * GIB ==> r == 4,
        cores == 8 && total_memory >= 8 * GIB ==> r == 8,
        cores == 16 && total_memory >= 16 * GIB ==> r == 16,
{
    let gib: u64 = total_memory / GIB;
    let by_memory: u64 = if gib > 2 { gib } else { 2 };
    let a: u64 = if (cores as u64) < by_memory { cores as u64 } else { by_memory };
    let b: u64 = if a < MAX_POOL_SIZE as u64 { a } else { MAX_POOL_SIZE as u64 };
    (if b > 1 { b } else { 1 }) as usize
}

/// The number of logical CPUs that `num_cpus::get` reports; it depends on
/// the machine and the process's CPU affinity, and its documentation promises
/// at least one.
#[verifier::external_body]
fn logical_cpus() -> (r: usize)
    ensures
        r >= 1,
{
    num_cpus::get()
}

/// How many processes the process-wide pool pre-warms on a machine of
/// `total_memory` bytes: none below 2 GiB, one below 4 GiB, else half the
/// logical CPUs, at least one and at most five.
pub fn global_pre_warm_count(total_memory: u64) -> (r: usize)
    ensures
        total_memory < 2 * GIB ==> r == 0,
        2 * GIB <= total_memory < 4 * GIB ==> r == 1,
        total_memory >= 4 * GIB ==> 1 <= r <= 5,
{
    if total_memory < 2 * GIB {
        0
    } else if total_memory < 4 * GIB {
        1
    } else {
        let cores = logical_cpus();
        pre_warm_for_cores(cores)
    }
}

/// Half of `cores`, at least one and at most five.
pub fn pre_warm_for_cores(cores: usize) -> (r: usize)
    ensures
        r == (if cores / 2 > 5 { 5 } else if cores / 2 < 1 { 1 } else { cores / 2 }),
{
    let half = cores / 2;
    if half > 5 { 5 } else if half < 1 { 1 } else { half }
}

/// The counters of `pool`, the pool that the whole process shares.
pub fn get_global_pool_stats<H>(pool: &PersistentProcessPool<H>) -> (r: PoolStats)
    ensures
        r == pool.stats_view(),
{
    pool.get_stats()
}

/// A process handed back is there for the next request: when a process goes
/// back into the pool (as `return_process` does with a healthy one) and is
/// still healthy at the next request, that request is served from the pool,
/// so no new process has to be started.
pub proof fn lemma_pooled_process_is_reused<H>(s: Seq<PersistentProverProcess<H>>, p: PersistentProverProcess<H>, now: u64)
    requires
        spec_process_healthy(p, now),
    ensures
        spec_first_healthy(s.push(p), now) is Some,
    decreases s.len(),
{
    if s.len() > 0 && !spec_process_healthy(s[0], now) {
        lemma_pooled_process_is_reused(s.drop_first(), p, now);
        assert(s.push(p).drop_first() =~= s.drop_first().push(p));
    }
}

/// A pool never hands out a process that is unhealthy at the time of the
/// request.
pub proof fn lemma_handed_out_is_healthy<H>(s: Seq<PersistentProverProcess<H>>, now: u64)
    ensures
        spec_first_healthy(s, now) matches Some(i) ==> 0 <= i < s.len() && spec_process_healthy(s[i], now),
        spec_first_healthy(s, now) matches Some(i) ==> forall|j: int| 0 <= j < i ==> !spec_process_healthy(#[trigger] s[j], now),
    decreases s.len(),
{
    if s.len() > 0 && !spec_process_healthy(s[0], now) {
        lemma_handed_out_is_healthy(s.drop_first(), now);
        if let Some(i) = spec_first_healthy(s, now) {
            assert forall|j: int| 0 <= j < i implies !spec_process_healthy(#[trigger] s[j], now) by {
                if j > 0 {
                    assert(s[j] == s.drop_first()[j - 1]);
                }
            }
        }
    }
}

} // verus!
