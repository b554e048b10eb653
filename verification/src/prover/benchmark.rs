//! Benchmark configuration and the arithmetic of its results: test inputs,
//! batch plans, average times and the status of a run.
use vstd::prelude::*;
use crate::prover::pipeline::spec_hex;
use vstd::string::StringExecFns;
use crate::system::{NANOS_PER_SEC, duration_div, spec_duration_div};
use crate::text::{spec_decimal, decimal_string};

verus! {

/// Configuration of a prover benchmark.
#[derive(Clone, Copy, Debug)]
pub struct ProverBenchmark {
    num_proofs: usize,
    concurrent_batches: usize,
    use_persistent_pool: bool,
    use_adaptive_batching: bool,
}

impl ProverBenchmark {
    /// How many proofs the benchmark generates.
    pub closed spec fn proofs(&self) -> usize { self.num_proofs }

    /// How many batches run at once.
    pub closed spec fn batches(&self) -> usize { self.concurrent_batches }

    /// Whether the persistent process pool is used.
    pub closed spec fn persistent_pool(&self) -> bool { self.use_persistent_pool }

    /// Whether adaptive batching is used.
    pub closed spec fn adaptive_batching(&self) -> bool { self.use_adaptive_batching }

    /// A benchmark of `num_proofs` proofs in four concurrent batches, with
    /// both optimizations on.
    pub fn new(num_proofs: usize) -> (r: Self)
        ensures
            r.proofs() == num_proofs,
            r.batches() == 4,
            r.persistent_pool(),
            r.adaptive_batching(),
    {
        ProverBenchmark { num_proofs, concurrent_batches: 4, use_persistent_pool: true, use_adaptive_batching: true }
    }

    /// The same benchmark with `batches` concurrent batches.
    pub fn with_concurrent_batches(self, batches: usize) -> (r: Self)
        ensures
            r.proofs() == self.proofs(),
            r.batches() == batches,
            r.persistent_pool() == self.persistent_pool(),
            r.adaptive_batching() == self.adaptive_batching(),
    {
        ProverBenchmark { concurrent_batches: batches, ..self }
    }

    /// The same benchmark with the persistent pool switched on or off.
    pub fn with_persistent_pool(self, enabled: bool) -> (r: Self)
        ensures
            r.proofs() == self.proofs(),
            r.batches() == self.batches(),
            r.persistent_pool() == enabled,
            r.adaptive_batching() == self.adaptive_batching(),
    {
        ProverBenchmark { use_persistent_pool: enabled, ..self }
    }

    /// The same benchmark with adaptive batching switched on or off.
    pub fn with_adaptive_batching(self, enabled: bool) -> (r: Self)
        ensures
            r.proofs() == self.proofs(),
            r.batches() == self.batches(),
            r.persistent_pool() == self.persistent_pool(),
            r.adaptive_batching() == enabled,
    {
        ProverBenchmark { use_adaptive_batching: enabled, ..self }
    }

    /// How many proofs the benchmark generates.
    pub fn num_proofs(&self) -> (r: usize)
        ensures r == self.proofs(),
    {
        self.num_proofs
    }

    /// How many batches run at once.
    pub fn concurrent_batches(&self) -> (r: usize)
        ensures r == self.batches(),
    {
        self.concurrent_batches
    }

    /// Whether the persistent process pool is used.
    pub fn uses_persistent_pool(&self) -> (r: bool)
        ensures r == self.persistent_pool(),
    {
        self.use_persistent_pool
    }

    /// Whether adaptive batching is used.
    pub fn uses_adaptive_batching(&self) -> (r: bool)
        ensures r == self.adaptive_batching(),
    {
        self.use_adaptive_batching
    }

    /// The four configurations of the comparative benchmark: neither
    /// optimization, the persistent pool only, adaptive batching only, both.
    pub fn comparative_configurations(&self) -> (r: Vec<ProverBenchmark>)
        ensures
            r@.len() == 4,
            forall|i: int| 0 <= i < 4 ==> (#[trigger] r@[i]).proofs() == self.proofs() && r@[i].batches() == self.batches(),
            !r@[0].persistent_pool() && !r@[0].adaptive_batching(),
            r@[1].persistent_pool() && !r@[1].adaptive_batching(),
            !r@[2].persistent_pool() && r@[2].adaptive_batching(),
            r@[3].persistent_pool() && r@[3].adaptive_batching(),
    {
        let b = *self;
        vec![
            b.with_persistent_pool(false).with_adaptive_batching(false),
            b.with_persistent_pool(true).with_adaptive_batching(false),
            b.with_persistent_pool(false).with_adaptive_batching(true),
            b.with_persistent_pool(true).with_adaptive_batching(true),
        ]
    }

    /// The test inputs: for proof `i`, the text `a,b,c` of `i`, `i + 1` and
    /// `i + 2`, each taken modulo 100.
    pub fn generate_test_inputs(&self) -> (r: Vec<Vec<u8>>)
        requires
            self.proofs() < usize::MAX,
        ensures
            r@.len() == self.proofs(),
            forall|i: int| 0 <= i < r@.len() ==> (#[trigger] r@[i])@ == spec_test_input(i as nat),
    {
        let mut inputs: Vec<Vec<u8>> = Vec::new();
        let mut i: usize = 0;
        while i < self.num_proofs
            invariant
                i <= self.num_proofs < usize::MAX,
                inputs@.len() == i,
                forall|k: int| 0 <= k < i ==> (#[trigger] inputs@[k])@ == spec_test_input(k as nat),
            decreases self.num_proofs - i,
        {
            inputs.push(test_input(i));
            i = i + 1;
        }
        inputs
    }
}

/// The ASCII bytes of `s`.
pub open spec fn spec_ascii_bytes(s: Seq<char>) -> Seq<u8> {
    s.map_values(|c: char| c as u8)
}

/// The test input of proof `i`.
pub open spec fn spec_test_input(i: nat) -> Seq<u8> {
    spec_ascii_bytes(spec_decimal(i % 100) + seq![','] + spec_decimal((i + 1) % 100) + seq![','] + spec_decimal((i + 2) % 100))
}

/// Appends the ASCII bytes of `s` to `out`.
fn push_ascii(out: &mut Vec<u8>, s: &String)
    ensures
        final(out)@ == old(out)@ + spec_ascii_bytes(s@),
{
    let n = s.as_str().unicode_len();
    let mut i: usize = 0;
    while i < n
        invariant
            n == s@.len(),
            i <= n,
            out@ == old(out)@ + spec_ascii_bytes(s@.take(i as int)),
        decreases n - i,
    {
        let c = s.as_str().get_char(i);
        out.push(c as u8);
        i = i + 1;
        assert(spec_ascii_bytes(s@.take(i as int)) =~= spec_ascii_bytes(s@.take(i - 1)).push(c as u8));
    }
    assert(s@.take(n as int) =~= s@);
}

/// The test input of proof `i`.
fn test_input(i: usize) -> (r: Vec<u8>)
    requires
        i < usize::MAX - 1,
    ensures
        r@ == spec_test_input(i as nat),
{
    let mut out: Vec<u8> = Vec::new();
    push_ascii(&mut out, &decimal_string((i % 100) as u64));
    out.push(44u8);
    push_ascii(&mut out, &decimal_string(((i + 1) % 100) as u64));
    out.push(44u8);
    push_ascii(&mut out, &decimal_string(((i + 2) % 100) as u64));
    assert(out@ =~= spec_test_input(i as nat));
    out
}

/// The batch size without adaptive batching: the inputs shared among the
/// concurrent batches, at least four.
pub fn fixed_batch_size(input_count: usize, concurrent_batches: usize) -> (r: usize)
    requires
        concurrent_batches > 0,
    ensures
        r == (if input_count / concurrent_batches > 4 { input_count / concurrent_batches } else { 4 }),
{
    let share = input_count / concurrent_batches;
    if share > 4 { share } else { 4 }
}

/// The batches of `input_count` inputs in batches of `batch_size`: the
/// ranges `[start, end)` that begin at every multiple of the batch size.
pub fn batch_ranges(input_count: usize, batch_size: usize) -> (r: Vec<(usize, usize)>)
    requires
        batch_size > 0,
        input_count + batch_size <= usize::MAX,
    ensures
        r@.len() == (input_count + batch_size - 1) / batch_size as int,
        forall|k: int| 0 <= k < r@.len() ==> {
            let (start, end) = #[trigger] r@[k];
            &&& start == k * batch_size
            &&& end == if start + batch_size < input_count { start + batch_size } else { input_count as int }
        },
{
    let mut ranges: Vec<(usize, usize)> = Vec::new();
    let mut start: usize = 0;
    assert(ranges@.len() * batch_size == 0) by (nonlinear_arith) requires ranges@.len() == 0;
    while start < input_count
        invariant
            batch_size > 0,
            input_count + batch_size <= usize::MAX,
            start == ranges@.len() * batch_size,
            ranges@.len() > 0 ==> start < input_count + batch_size,
            ranges@.len() > 0 ==> (ranges@.len() - 1) * batch_size < input_count,
            start <= input_count + batch_size,
            ranges@.len() * batch_size < input_count + batch_size,
            forall|k: int| 0 <= k < ranges@.len() ==> {
                let (s, e) = #[trigger] ranges@[k];
                &&& s == k * batch_size
                &&& e == if s + batch_size < input_count { s + batch_size } else { input_count as int }
            },
        decreases input_count + batch_size - start,
    {
        let end = if start + batch_size < input_count { start + batch_size } else { input_count };
        ranges.push((start, end));
        proof {
            assert(start + batch_size == ranges@.len() * batch_size) by (nonlinear_arith)
                requires start == (ranges@.len() - 1) * batch_size;
            assert((ranges@.len() - 1) * batch_size == start);
        }
        start = start + batch_size;
    }
    proof {
        let n = ranges@.len() as int;
        let b = batch_size as int;
        let c = input_count as int;
        assert(n == (c + b - 1) / b) by (nonlinear_arith)
            requires start as int == n * b, start as int >= c, n > 0 ==> (n - 1) * b < c, b > 0, c >= 0,
                n == 0 ==> c <= 0;
    }
    ranges
}

/// The average time per proof of a run of `num_proofs` proofs that took
/// `total_nanos` nanoseconds (as `Duration / u32` divides it).
pub fn average_proof_time(total_nanos: u64, num_proofs: usize) -> (r: u64)
    requires
        (num_proofs as u32) != 0,
    ensures
        r == spec_duration_div(total_nanos, (num_proofs as u32) as u64),
{
    duration_div(total_nanos, num_proofs as u32)
}

/// How a benchmark run did, by proofs per second.
#[derive(Debug)]
pub enum BenchmarkStatus {
    /// More than one proof per second.
    Excellent,
    /// More than half a proof per second.
    Good,
    /// More than a fifth of a proof per second.
    Fair,
    /// Slower.
    NeedsImprovement,
}

/// The status of a run of `num_proofs` proofs in `total_nanos` nanoseconds.
pub open spec fn spec_status(num_proofs: usize, total_nanos: u64) -> BenchmarkStatus {
    let work = num_proofs as int * NANOS_PER_SEC as int;
    if work > total_nanos { BenchmarkStatus::Excellent }
    else if 2 * work > total_nanos { BenchmarkStatus::Good }
    else if 5 * work > total_nanos { BenchmarkStatus::Fair }
    else { BenchmarkStatus::NeedsImprovement }
}

/// The status of a run of `num_proofs` proofs in `total_nanos` nanoseconds.
pub fn benchmark_status(num_proofs: usize, total_nanos: u64) -> (r: BenchmarkStatus)
    ensures
        r == spec_status(num_proofs, total_nanos),
{
    let work: u128 = (num_proofs as u128) * (NANOS_PER_SEC as u128);
    let t = total_nanos as u128;
    if work > t { BenchmarkStatus::Excellent }
    else if 2 * work > t { BenchmarkStatus::Good }
    else if 5 * work > t { BenchmarkStatus::Fair }
    else { BenchmarkStatus::NeedsImprovement }
}

impl BenchmarkStatus {
    /// The status line of the benchmark report.
    pub fn status_line(&self) -> (r: String)
        ensures
            r@ == match *self {
                BenchmarkStatus::Excellent => "Status: EXCELLENT (>1 proof/second)"@,
                BenchmarkStatus::Good => "Status: GOOD (>0.5 proofs/second)"@,
                BenchmarkStatus::Fair => "Status: FAIR (>0.2 proofs/second)"@,
                BenchmarkStatus::NeedsImprovement => "Status: NEEDS IMPROVEMENT (<0.2 proofs/second)"@,
            },
    {
        match self {
            BenchmarkStatus::Excellent => String::from_str("Status: EXCELLENT (>1 proof/second)"),
            BenchmarkStatus::Good => String::from_str("Status: GOOD (>0.5 proofs/second)"),
            BenchmarkStatus::Fair => String::from_str("Status: FAIR (>0.2 proofs/second)"),
            BenchmarkStatus::NeedsImprovement => String::from_str("Status: NEEDS IMPROVEMENT (<0.2 proofs/second)"),
        }
    }
}

/// The configuration of the quick benchmark: twenty proofs in four batches,
/// both optimizations on.
pub fn quick_benchmark() -> (r: ProverBenchmark)
    ensures
        r.proofs() == 20,
        r.batches() == 4,
        r.persistent_pool(),
        r.adaptive_batching(),
{
    ProverBenchmark::new(20).with_concurrent_batches(4).with_persistent_pool(true).with_adaptive_batching(true)
}

/// The configuration of the comprehensive benchmark: fifty proofs in six
/// batches, compared across the four configurations.
pub fn comprehensive_benchmark() -> (r: ProverBenchmark)
    ensures
        r.proofs() == 50,
        r.batches() == 6,
        r.persistent_pool(),
        r.adaptive_batching(),
{
    ProverBenchmark::new(50).with_concurrent_batches(6)
}

/// Every batch plan covers the inputs without gaps or overlap: consecutive
/// ranges meet, and the last one ends at the input count.
pub proof fn lemma_batches_cover(input_count: usize, batch_size: usize, ranges: Seq<(usize, usize)>)
    requires
        batch_size > 0,
        ranges.len() == (input_count + batch_size - 1) / batch_size as int,
        forall|k: int| 0 <= k < ranges.len() ==> {
            let (start, end) = #[trigger] ranges[k];
            &&& start == k * batch_size
            &&& end == if start + batch_size < input_count { start + batch_size } else { input_count as int }
        },
    ensures
        forall|k: int| 0 <= k < ranges.len() - 1 ==> (#[trigger] ranges[k]).1 == ranges[k + 1].0,
        ranges.len() > 0 ==> ranges[ranges.len() - 1].1 == input_count,
        ranges.len() > 0 ==> ranges[0].0 == 0,
{
    let n = ranges.len() as int;
    let b = batch_size as int;
    let c = input_count as int;
    assert(n * b >= c && (n - 1) * b < c || n == 0) by (nonlinear_arith)
        requires n == (c + b - 1) / b, b > 0, c >= 0;
    assert forall|k: int| 0 <= k < ranges.len() - 1 implies (#[trigger] ranges[k]).1 == ranges[k + 1].0 by {
        assert((k + 1) * b <= (n - 1) * b) by (nonlinear_arith) requires k + 1 <= n - 1, b > 0;
        assert(k * b + b == (k + 1) * b) by (nonlinear_arith);
    }
    if n > 0 {
        assert((n - 1) * b + b == n * b) by (nonlinear_arith);
    }
}

/// Whether `c` is a lower-case hexadecimal digit.
pub open spec fn spec_is_lower_hex(c: char) -> bool {
    ('0' <= c && c <= '9') || ('a' <= c && c <= 'f')
}

/// Whether `u` is the hyphenated lower-case text of a random (version 4,
/// RFC 4122 variant) UUID: 36 characters, hyphens at 8, 13, 18 and 23,
/// lower-case hexadecimal digits elsewhere, version digit `4` at 14 and a
/// variant digit of `8`, `9`, `a` or `b` at 19.
pub open spec fn spec_is_v4_uuid_text(u: Seq<char>) -> bool {
    &&& u.len() == 36
    &&& forall|i: int| 0 <= i < 36 ==> (#[trigger] u[i] == '-' <==> (i == 8 || i == 13 || i == 18 || i == 23))
    &&& forall|i: int| 0 <= i < 36 && i != 8 && i != 13 && i != 18 && i != 23 ==> spec_is_lower_hex(#[trigger] u[i])
    &&& u[14] == '4'
    &&& (u[19] == '8' || u[19] == '9' || u[19] == 'a' || u[19] == 'b')
}

/// Sixteen bytes from the operating system's random source, drawn with
/// `rand_core::OsRng::try_fill_bytes` (which asks `getrandom`); `None` when
/// that source fails. Nothing is claimed of the bytes: they are random.
#[verifier::external_body]
fn random_bytes() -> (r: Option<[u8; 16]>) {
    let mut bytes = [0u8; 16];
    match rand_core::RngCore::try_fill_bytes(&mut rand_core::OsRng, &mut bytes) {
        Ok(()) => Some(bytes),
        Err(_) => None,
    }
}

/// The hyphenated lower-case text of the version 4 UUID made of the sixteen
/// bytes `b`: the bytes with the high nibble of byte 6 set to 4 (the version)
/// and the two high bits of byte 8 set to `10` (the RFC 4122 variant), in
/// hexadecimal, grouped 8-4-4-4-12.
pub open spec fn spec_uuid_v4_text(b: Seq<u8>) -> Seq<char> {
    let m = b.update(6, (b[6] & 0x0f) | 0x40).update(8, (b[8] & 0x3f) | 0x80);
    let h = spec_hex(m);
    h.subrange(0, 8) + seq!['-'] + h.subrange(8, 12) + seq!['-'] + h.subrange(12, 16) + seq!['-']
        + h.subrange(16, 20) + seq!['-'] + h.subrange(20, 32)
}

/// The text (`Display`) of the UUID that `uuid::Builder::from_random_bytes`
/// makes of `bytes`: it sets the version and variant bits as
/// `spec_uuid_v4_text` says, and the text is hyphenated lower-case hex, so it
/// has the form of `spec_is_v4_uuid_text`.
#[verifier::external_body]
fn uuid_v4_text(bytes: [u8; 16]) -> (r: String)
    ensures
        r@ == spec_uuid_v4_text(bytes@),
        spec_is_v4_uuid_text(r@),
{
    uuid::Builder::from_random_bytes(bytes).into_uuid().to_string()
}

/// The identifier of a benchmark task for the UUID text `uuid`:
/// `benchmark_task_` followed by it.
pub fn task_id_from_uuid(uuid: &str) -> (r: String)
    ensures
        r@ == "benchmark_task_"@ + uuid@,
{
    let mut id = String::from_str("benchmark_task_");
    id.append(uuid);
    id
}

/// A fresh identifier for a benchmark task: `benchmark_task_` and a random
/// version 4 UUID, or `None` when the operating system's random source fails.
pub fn benchmark_task_id() -> (r: Option<String>)
    ensures
        r matches Some(id) ==> {
            &&& exists|b: Seq<u8>| b.len() == 16 && id@ == "benchmark_task_"@ + #[trigger] spec_uuid_v4_text(b)
            &&& exists|u: Seq<char>| #[trigger] spec_is_v4_uuid_text(u) && id@ == "benchmark_task_"@ + u
            &&& id@.len() == 51
            &&& id@.take(15) == "benchmark_task_"@
        },
{
    match random_bytes() {
        Some(bytes) => {
            let u = uuid_v4_text(bytes);
            let id = task_id_from_uuid(u.as_str());
            proof {
                reveal_strlit("benchmark_task_");
                assert(id@.take(15) =~= "benchmark_task_"@);
                assert(spec_is_v4_uuid_text(u@));
                assert(bytes@.len() == 16 && id@ == "benchmark_task_"@ + spec_uuid_v4_text(bytes@));
            }
            Some(id)
        },
        None => None,
    }
}

} // verus!
