//! Pool of pre-warmed proving processes that are retired by age.
//!
//! The process handle `H` is whatever the caller uses to talk to a process.
//! Times are nanoseconds on the caller's clock.
use vstd::prelude::*;
use vstd::string::StringExecFns;
use std::collections::VecDeque;
use crate::prover::types::ProverError;
use crate::system::{GIB, spec_elapsed, elapsed};

verus! {

/// Most processes that handed-back processes fill the pool to.
pub const POOL_RETURN_LIMIT: usize = 50;

/// The postcard (LEB128 varint) encoding of `n`: seven bits per byte, least
/// significant group first, the high bit set on every byte but the last.
pub open spec fn spec_varint(n: nat) -> Seq<u8>
    decreases n,
{
    if n < 128 { seq![n as u8] } else { seq![(n % 128 + 128) as u8] + spec_varint(n / 128) }
}

/// The postcard encoding of three numbers: their varints one after the other.
pub open spec fn spec_postcard_triple(inputs: (u32, u32, u32)) -> Seq<u8> {
    spec_varint(inputs.0 as nat) + spec_varint(inputs.1 as nat) + spec_varint(inputs.2 as nat)
}

/// Serializes three numbers with `postcard::to_allocvec`. Postcard writes
/// each `u32` as a varint and a tuple as its fields in order, and writing to
/// a growing vector cannot fail.
#[verifier::external_body]
fn postcard_triple(inputs: &(u32, u32, u32)) -> (r: Result<Vec<u8>, postcard::Error>)
    ensures
        r is Ok,
        r->Ok_0@ == spec_postcard_triple(*inputs),
{
    postcard::to_allocvec(inputs)
}

/// A pre-warmed process and the time it was last used.
pub struct PreWarmedProcess<H> {
    pub handle: H,
    pub last_used: u64,
}

/// Whether a process last used at `last_used` is older than `max_age` at `now`.
pub open spec fn spec_is_expired(last_used: u64, now: u64, max_age: u64) -> bool {
    spec_elapsed(now, last_used) > max_age
}

impl<H> PreWarmedProcess<H> {
    /// A process that was just started at `now`.
    pub fn new(handle: H, now: u64) -> (r: Self)
        ensures
            r.handle == handle,
            r.last_used == now,
    {
        PreWarmedProcess { handle, last_used: now }
    }

    /// Whether the process has been unused for longer than `max_age` at `now`.
    pub fn is_expired(&self, now: u64, max_age: u64) -> (r: bool)
        ensures
            r == spec_is_expired(self.last_used, now, max_age),
    {
        elapsed(now, self.last_used) > max_age
    }

    /// Marks the process used at `now` and returns the request to write to it
    /// for `inputs`.
    pub fn execute_proof(&mut self, inputs: &(u32, u32, u32), now: u64) -> (r: Result<Vec<u8>, ProverError>)
        ensures
            final(self).handle == old(self).handle,
            final(self).last_used == now,
            r is Ok,
            r->Ok_0@ == spec_postcard_triple(*inputs),
    {
        self.last_used = now;
        match postcard_triple(inputs) {
            Ok(bytes) => Ok(bytes),
            Err(e) => Err(ProverError::Serialization(e)),
        }
    }
}

/// What the check of a pre-warmed process after a request found: still
/// running (`None`), or ended with success or failure and its exit status.
pub fn check_prewarmed_status(exit: Option<(bool, String)>) -> (r: Result<(), ProverError>)
    ensures
        match exit {
            Some((false, status)) => r matches Err(ProverError::Subprocess(m)) && m@ == "Pre-warmed process failed: "@ + status@,
            _ => r is Ok,
        },
{
    match exit {
        Some((success, status)) => {
            if !success {
                let mut m = String::from_str("Pre-warmed process failed: ");
                m.append(status.as_str());
                return Err(ProverError::Subprocess(m));
            }
            Ok(())
        },
        None => Ok(()),
    }
}

/// The error of a guard that holds no process.
pub fn no_process_error() -> (r: ProverError)
    ensures
        r matches ProverError::Subprocess(m) && m@ == "No process available"@,
{
    ProverError::Subprocess(String::from_str("No process available"))
}

/// Pool of pre-warmed processes.
pub struct ProcessPool<H> {
    processes: VecDeque<PreWarmedProcess<H>>,
    max_size: usize,
    max_process_age: u64,
}

/// The processes of `s` that have expired at `now`, in order.
pub open spec fn spec_expired<H>(s: Seq<PreWarmedProcess<H>>, now: u64, max_age: u64) -> Seq<PreWarmedProcess<H>> {
    s.filter(|p: PreWarmedProcess<H>| spec_is_expired(p.last_used, now, max_age))
}

/// The processes of `s` that have not expired at `now`, in order.
pub open spec fn spec_unexpired<H>(s: Seq<PreWarmedProcess<H>>, now: u64, max_age: u64) -> Seq<PreWarmedProcess<H>> {
    s.filter(|p: PreWarmedProcess<H>| !spec_is_expired(p.last_used, now, max_age))
}

/// The most processes a pool of size `max_size` holds: its size, or fifty
/// when handed-back processes fill it further.
pub open spec fn spec_pool_limit(max_size: usize) -> int {
    if max_size > POOL_RETURN_LIMIT { max_size as int } else { POOL_RETURN_LIMIT as int }
}

impl<H> ProcessPool<H> {
    /// Whether the pool holds no more processes than its limit.
    pub open spec fn within_limit(&self) -> bool {
        self.processes_view().len() <= spec_pool_limit(self.max_size_view())
    }

    /// The pooled processes, oldest first.
    pub closed spec fn processes_view(&self) -> Seq<PreWarmedProcess<H>> {
        self.processes@
    }

    /// The most processes the pool takes from pre-warming.
    pub closed spec fn max_size_view(&self) -> usize {
        self.max_size
    }

    /// The age after which an unused process is retired.
    pub closed spec fn max_age_view(&self) -> u64 {
        self.max_process_age
    }

    /// An empty pool.
    pub fn new(max_size: usize, max_process_age: u64) -> (r: Self)
        ensures
            r.processes_view() == Seq::<PreWarmedProcess<H>>::empty(),
            r.max_size_view() == max_size,
            r.max_age_view() == max_process_age,
            r.within_limit(),
    {
        ProcessPool { processes: VecDeque::with_capacity(max_size), max_size, max_process_age }
    }

    /// Adds a freshly started process when the pool has room; otherwise the
    /// process is handed back to be discarded.
    pub fn add_process(&mut self, process: PreWarmedProcess<H>) -> (r: Option<PreWarmedProcess<H>>)
        ensures
            final(self).max_size_view() == old(self).max_size_view(),
            final(self).max_age_view() == old(self).max_age_view(),
            old(self).processes_view().len() < old(self).max_size_view() ==> r is None
                && final(self).processes_view() == old(self).processes_view().push(process),
            old(self).processes_view().len() >= old(self).max_size_view() ==> r == Some(process)
                && final(self).processes_view() == old(self).processes_view(),
            old(self).within_limit() ==> final(self).within_limit(),
    {
        if self.processes.len() < self.max_size {
            self.processes.push_back(process);
            None
        } else {
            Some(process)
        }
    }

    /// Removes every process that has expired at `now` and returns them, to be
    /// killed.
    pub fn cleanup_expired(&mut self, now: u64) -> (r: Vec<PreWarmedProcess<H>>)
        ensures
            final(self).max_size_view() == old(self).max_size_view(),
            final(self).max_age_view() == old(self).max_age_view(),
            r@ == spec_expired(old(self).processes_view(), now, old(self).max_age_view()),
            final(self).processes_view() == spec_unexpired(old(self).processes_view(), now, old(self).max_age_view()),
            old(self).within_limit() ==> final(self).within_limit(),
    {
        let ghost s = self.processes@;
        let n = self.processes.len();
        let mut kept: VecDeque<PreWarmedProcess<H>> = VecDeque::new();
        let mut expired: Vec<PreWarmedProcess<H>> = Vec::new();
        let mut k: usize = 0;
        let max_age = self.max_process_age;
        while k < n
            invariant
                n == s.len(),
                k <= n,
                max_age == self.max_process_age,
                self.max_size == old(self).max_size,
                self.max_process_age == old(self).max_process_age,
                s == old(self).processes@,
                self.processes@ == s.skip(k as int),
                kept@ == spec_unexpired(s.take(k as int), now, max_age),
                expired@ == spec_expired(s.take(k as int), now, max_age),
            decreases n - k,
        {
            let p = self.processes.pop_front().unwrap();
            proof {
                assert(s.skip(k as int).drop_first() =~= s.skip(k as int + 1));
                assert(s.take(k as int + 1).drop_last() =~= s.take(k as int));
                assert(s.take(k as int + 1).last() == s[k as int]);
                reveal(Seq::filter);
            }
            if p.is_expired(now, max_age) {
                expired.push(p);
            } else {
                kept.push_back(p);
            }
            k = k + 1;
        }
        proof {
            assert(s.take(n as int) =~= s);
            s.lemma_filter_len(|p: PreWarmedProcess<H>| !spec_is_expired(p.last_used, now, max_age));
        }
        self.processes = kept;
        expired
    }

    /// Retires the expired processes at `now`, then takes the oldest of the
    /// rest. Returns the retired processes (to be killed) and the one taken,
    /// if any; the caller checks that it still runs, and starts a new one when
    /// it does not or when there was none.
    pub fn take_process(&mut self, now: u64) -> (r: (Vec<PreWarmedProcess<H>>, Option<PreWarmedProcess<H>>))
        ensures
            final(self).max_size_view() == old(self).max_size_view(),
            final(self).max_age_view() == old(self).max_age_view(),
            r.0@ == spec_expired(old(self).processes_view(), now, old(self).max_age_view()),
            ({
                let rest = spec_unexpired(old(self).processes_view(), now, old(self).max_age_view());
                &&& rest.len() == 0 ==> r.1 is None && final(self).processes_view() == rest
                &&& rest.len() > 0 ==> r.1 == Some(rest[0]) && final(self).processes_view() == rest.drop_first()
            }),
            old(self).within_limit() ==> final(self).within_limit(),
    {
        let expired = self.cleanup_expired(now);
        let front = self.processes.pop_front();
        proof {
            if self.processes@.len() > 0 || front is Some {
                assert(self.processes@ =~= old(self).processes_view().filter(|p: PreWarmedProcess<H>| !spec_is_expired(p.last_used, now, old(self).max_process_age)).drop_first());
            }
        }
        (expired, front)
    }

    /// Takes back a process: one that still runs goes back into the pool
    /// while it holds fewer than fifty; otherwise it is handed back to be let go.
    pub fn return_process(&mut self, process: PreWarmedProcess<H>, still_running: bool) -> (r: Option<PreWarmedProcess<H>>)
        ensures
            final(self).max_size_view() == old(self).max_size_view(),
            final(self).max_age_view() == old(self).max_age_view(),
            still_running && old(self).processes_view().len() < POOL_RETURN_LIMIT ==> r is None
                && final(self).processes_view() == old(self).processes_view().push(process),
            !(still_running && old(self).processes_view().len() < POOL_RETURN_LIMIT) ==> r == Some(process)
                && final(self).processes_view() == old(self).processes_view(),
            old(self).within_limit() ==> final(self).within_limit(),
    {
        if still_running && self.processes.len() < POOL_RETURN_LIMIT {
            self.processes.push_back(process);
            None
        } else {
            Some(process)
        }
    }

    /// How many processes pre-warming starts when `count` are asked for: at
    /// most the pool's maximum size.
    pub fn pre_warm_count(&self, count: usize) -> (r: usize)
        ensures
            r == if count < self.max_size_view() { count } else { self.max_size_view() },
    {
        if count < self.max_size { count } else { self.max_size }
    }
}

/// How many processes the process-wide pool pre-warms on a machine of
/// `total_memory` bytes: 4 from 16 GiB, 2 from 8 GiB, else 1.
pub fn initial_pre_warm_count(total_memory: u64) -> (r: usize)
    ensures
        r == (if total_memory >= 16 * GIB { 4usize } else if total_memory >= 8 * GIB { 2 } else { 1 }),
{
    if total_memory >= 16 * GIB { 4 } else if total_memory >= 8 * GIB { 2 } else { 1 }
}

} // verus!
