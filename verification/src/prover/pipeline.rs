//! The proving pipeline's own decisions: whether a task may start on this
//! machine, and how proofs are hashed and their hashes combined.
use vstd::prelude::*;
use sha3::Digest;
use vstd::string::StringExecFns;
use crate::prover::types::ProverError;
use crate::system::{GIB, MIB};
use crate::text::{same_text, spec_keyed_value_first, resident_memory_kb};

verus! {

/// The hash of `data` under Keccak-256.
pub uninterp spec fn keccak256(data: Seq<u8>) -> Seq<u8>;

/// Hashes `data` with `sha3::Keccak256`. The contract claims that the digest
/// depends on the data alone and is 32 bytes long.
#[verifier::external_body]
fn keccak256_digest(data: &[u8]) -> (r: Vec<u8>)
    ensures
        r@ == keccak256(data@),
        r@.len() == 32,
{
    let mut hasher = sha3::Keccak256::new();
    hasher.update(data);
    hasher.finalize().to_vec()
}

/// The lower-case hexadecimal digit for `d` (below sixteen).
pub open spec fn spec_hex_digit(d: int) -> char {
    if d < 10 { ((d + 48) as u8) as char } else { ((d - 10 + 97) as u8) as char }
}

/// The lower-case hexadecimal text of `data`: two digits per byte, high
/// nibble first.
pub open spec fn spec_hex(data: Seq<u8>) -> Seq<char>
    decreases data.len(),
{
    if data.len() == 0 {
        Seq::empty()
    } else {
        spec_hex(data.drop_last()) + seq![spec_hex_digit(data.last() as int / 16), spec_hex_digit(data.last() as int % 16)]
    }
}

/// Encodes `data` with `hex::encode`, which writes each byte as two
/// lower-case hexadecimal digits, high nibble first.
#[verifier::external_body]
fn hex_encode(data: &[u8]) -> (r: String)
    ensures
        r@ == spec_hex(data@),
{
    hex::encode(data)
}

/// What a task asks to be returned.
#[derive(Debug)]
pub enum TaskType {
    ProofRequired,
    ProofHash,
    AllProofHashes,
}

/// The hash of a serialized proof: Keccak-256 in lower-case hexadecimal.
pub open spec fn spec_proof_hash(proof_bytes: Seq<u8>) -> Seq<char> {
    spec_hex(keccak256(proof_bytes))
}

/// The concatenation of `hashes`.
pub open spec fn spec_concat(hashes: Seq<Seq<char>>) -> Seq<char>
    decreases hashes.len(),
{
    if hashes.len() == 0 { Seq::empty() } else { spec_concat(hashes.drop_last()) + hashes.last() }
}

/// The UTF-8 bytes of `s`.
pub open spec fn spec_utf8(s: Seq<char>) -> Seq<u8> {
    vstd::utf8::encode_utf8(s)
}

/// The hash that stands for all of a task's proof hashes: for hash tasks the
/// hashes one after the other; for other tasks the combination that a task
/// applies to its proof hashes (`Task::combine_proof_hashes`), which is the
/// Keccak-256 of their concatenation in hexadecimal, or nothing when there is
/// no hash.
pub open spec fn spec_combined_hash(task_type: TaskType, hashes: Seq<Seq<char>>) -> Seq<char> {
    match task_type {
        TaskType::AllProofHashes | TaskType::ProofHash => spec_concat(hashes),
        _ => if hashes.len() == 0 { Seq::empty() } else { spec_hex(keccak256(spec_utf8(spec_concat(hashes)))) },
    }
}

/// Orchestrates the proving of a task.
pub struct ProvingPipeline;

impl ProvingPipeline {
    /// The hash of a proof, given in its serialized form.
    pub fn generate_proof_hash(proof_bytes: &[u8]) -> (r: String)
        ensures
            r@ == spec_proof_hash(proof_bytes@),
    {
        let digest = keccak256_digest(proof_bytes);
        hex_encode(digest.as_slice())
    }

    /// All hashes one after the other.
    fn join_hashes(proof_hashes: &[String]) -> (r: String)
        ensures
            r@ == spec_concat(proof_hashes@.map_values(|h: String| h@)),
    {
        let ghost hs = proof_hashes@.map_values(|h: String| h@);
        let mut r = String::new();
        let mut i: usize = 0;
        while i < proof_hashes.len()
            invariant
                i <= proof_hashes@.len(),
                hs == proof_hashes@.map_values(|h: String| h@),
                r@ == spec_concat(hs.take(i as int)),
            decreases proof_hashes@.len() - i,
        {
            r.append(proof_hashes[i].as_str());
            assert(hs.take(i as int + 1).drop_last() =~= hs.take(i as int));
            i = i + 1;
        }
        assert(hs.take(proof_hashes@.len() as int) =~= hs);
        r
    }

    /// The hash that stands for all proof hashes of a task of `task_type`.
    pub fn combine_proof_hashes(task_type: TaskType, proof_hashes: &[String]) -> (r: String)
        ensures
            r@ == spec_combined_hash(task_type, proof_hashes@.map_values(|h: String| h@)),
    {
        match task_type {
            TaskType::AllProofHashes | TaskType::ProofHash => Self::join_hashes(proof_hashes),
            _ => {
                if proof_hashes.len() == 0 {
                    return String::new();
                }
                let combined = Self::join_hashes(proof_hashes);
                let digest = keccak256_digest(combined.as_str().as_bytes());
                hex_encode(digest.as_slice())
            },
        }
    }

    /// The hash of each of a task's serialized proofs, in order, and the hash
    /// that stands for all of them.
    pub fn hash_proofs(task_type: TaskType, proofs: &[Vec<u8>]) -> (r: (String, Vec<String>))
        ensures
            r.1@.len() == proofs@.len(),
            forall|i: int| 0 <= i < proofs@.len() ==> (#[trigger] r.1@[i])@ == spec_proof_hash(proofs@[i]@),
            r.0@ == spec_combined_hash(task_type, r.1@.map_values(|h: String| h@)),
    {
        let mut hashes: Vec<String> = Vec::new();
        let mut i: usize = 0;
        while i < proofs.len()
            invariant
                i <= proofs@.len(),
                hashes@.len() == i,
                forall|k: int| 0 <= k < i ==> (#[trigger] hashes@[k])@ == spec_proof_hash(proofs@[k]@),
            decreases proofs@.len() - i,
        {
            let h = Self::generate_proof_hash(proofs[i].as_slice());
            hashes.push(h);
            i = i + 1;
        }
        let combined = Self::combine_proof_hashes(task_type, hashes.as_slice());
        (combined, hashes)
    }

    /// Checks that the task's program is the one this prover runs.
    pub fn check_program(program_id: &str) -> (r: Result<(), ProverError>)
        ensures
            program_id@ == "fib_input_initial"@ ==> r is Ok,
            program_id@ != "fib_input_initial"@ ==> (r matches Err(ProverError::MalformedTask(m))
                && m@ == "Unsupported program ID: "@ + program_id@),
    {
        if same_text(program_id, "fib_input_initial") {
            Ok(())
        } else {
            let mut m = String::from_str("Unsupported program ID: ");
            m.append(program_id);
            Err(ProverError::MalformedTask(m))
        }
    }

    /// Checks that a task has inputs to prove.
    pub fn check_inputs(input_count: usize) -> (r: Result<(), ProverError>)
        ensures
            input_count > 0 ==> r is Ok,
            input_count == 0 ==> (r matches Err(ProverError::MalformedTask(m)) && m@ == "No inputs provided for task"@),
    {
        if input_count == 0 {
            return Err(ProverError::MalformedTask(String::from_str("No inputs provided for task")));
        }
        Ok(())
    }
}

/// Why a task is refused before proving starts on a machine of at most 2 GiB.
#[derive(Debug)]
pub enum TaskRejection {
    /// The prover already uses more than the safety threshold.
    MemoryTooHigh { memory_mb: usize, threshold_mb: usize },
    /// One more proof would not fit under the machine's memory limit.
    InsufficientMemory { estimated_mb: usize, limit_mb: usize, threshold_percent: usize },
    /// A task of more than ten inputs while memory use is already high.
    LargeTaskOnLowMemory { inputs: usize, memory_mb: usize },
}

/// What the pre-task check found when it let a task start.
#[derive(Debug)]
pub struct PreTaskReport {
    pub memory_mb: usize,
    pub inputs: usize,
    pub memory_per_proof_mb: usize,
    pub system_limit_mb: usize,
}

/// Memory that one proof needs, in MiB, on a machine of `total` bytes: 180
/// up to 1 GiB, 250 up to 1.5 GiB, 325 up to 2 GiB, else 400.
pub open spec fn spec_memory_per_proof_mb(total: u64) -> usize {
    if total <= GIB { 180 } else if 2 * total <= 3 * GIB { 250 } else if total <= 2 * GIB { 325 } else { 400 }
}

/// The share of memory, in percent, that the prover may reach: 65 up to
/// 1 GiB, 70 up to 1.5 GiB, 75 up to 2 GiB, else 95.
pub open spec fn spec_memory_threshold_percent(total: u64) -> usize {
    if total <= GIB { 65 } else if 2 * total <= 3 * GIB { 70 } else if total <= 2 * GIB { 75 } else { 95 }
}

/// `percent` percent of `total` bytes, in whole MiB (rounded down).
pub open spec fn spec_share_mb(total: u64, percent: usize) -> int {
    (total as int * percent as int) / (100 * MIB as int)
}

/// The outcome of the pre-task memory check for a task of `inputs` inputs on
/// a machine of `total` bytes, where the prover's resident size is read from
/// `status` (`/proc/self/status`). Machines above 2 GiB, an unreadable status
/// and a status without a `VmRSS:` number are not checked.
pub open spec fn spec_pre_task_check(total: u64, status: Option<Seq<char>>, inputs: usize) -> Result<Option<PreTaskReport>, TaskRejection> {
    if total > 2 * GIB {
        Ok(None)
    } else {
        match status {
            None => Ok(None),
            Some(text) => match spec_keyed_value_first(text, "VmRSS:"@) {
                None => Ok(None),
                Some(kb) => {
                    let mb = kb / 1024;
                    let threshold: usize = if 2 * total <= 3 * GIB { 800 } else { 1200 };
                    let per_proof = spec_memory_per_proof_mb(total);
                    let percent = spec_memory_threshold_percent(total);
                    let limit = spec_share_mb(total, percent);
                    if kb > threshold * 1024 {
                        Err(TaskRejection::MemoryTooHigh { memory_mb: mb, threshold_mb: threshold })
                    } else if mb + per_proof > limit {
                        Err(TaskRejection::InsufficientMemory {
                            estimated_mb: (mb + per_proof) as usize,
                            limit_mb: limit as usize,
                            threshold_percent: percent,
                        })
                    } else if inputs > 10 && mb > 1100 {
                        Err(TaskRejection::LargeTaskOnLowMemory { inputs, memory_mb: mb })
                    } else {
                        Ok(Some(PreTaskReport {
                            memory_mb: mb,
                            inputs,
                            memory_per_proof_mb: per_proof,
                            system_limit_mb: spec_share_mb(total, 95) as usize,
                        }))
                    }
                },
            },
        }
    }
}

impl ProvingPipeline {
    /// Decides whether a task of `input_count` inputs may start on a machine
    /// of `total_memory` bytes, given the prover's `/proc/self/status` (or
    /// `None` when it could not be read).
    pub fn pre_task_memory_check(total_memory: u64, status: Option<&str>, input_count: usize) -> (r: Result<Option<PreTaskReport>, TaskRejection>)
        ensures
            r == spec_pre_task_check(total_memory, match status { Some(t) => Some(t@), None => None }, input_count),
    {
        if total_memory > 2 * GIB {
            return Ok(None);
        }
        let text = match status {
            Some(t) => t,
            None => return Ok(None),
        };
        let kb = match resident_memory_kb(text) {
            Some(kb) => kb,
            None => return Ok(None),
        };
        let total = total_memory as u128;
        let g = GIB as u128;
        let mb: usize = kb / 1024;
        let threshold: usize = if 2 * total <= 3 * g { 800 } else { 1200 };
        if kb > threshold * 1024 {
            return Err(TaskRejection::MemoryTooHigh { memory_mb: mb, threshold_mb: threshold });
        }
        let per_proof: usize = if total <= g { 180 } else if 2 * total <= 3 * g { 250 } else if total <= 2 * g { 325 } else { 400 };
        let percent: usize = if total <= g { 65 } else if 2 * total <= 3 * g { 70 } else if total <= 2 * g { 75 } else { 95 };
        assert(total <= 2 * g && percent <= 95);
        assert(total * (percent as u128) <= 2 * g * 95) by (nonlinear_arith)
            requires total <= 2 * g, percent <= 95;
        let limit: u128 = total * (percent as u128) / (100 * (MIB as u128));
        let peak: usize = mb + per_proof;
        if (peak as u128) > limit {
            return Err(TaskRejection::InsufficientMemory {
                estimated_mb: peak,
                limit_mb: limit as usize,
                threshold_percent: percent,
            });
        }
        if input_count > 10 && mb > 1100 {
            return Err(TaskRejection::LargeTaskOnLowMemory { inputs: input_count, memory_mb: mb });
        }
        assert(total * 95 <= 2 * g * 95) by (nonlinear_arith) requires total <= 2 * g;
        let system_limit: u128 = total * 95 / (100 * (MIB as u128));
        Ok(Some(PreTaskReport {
            memory_mb: mb,
            inputs: input_count,
            memory_per_proof_mb: per_proof,
            system_limit_mb: system_limit as usize,
        }))
    }
}

/// A task that passes the pre-task check leaves room for one more proof:
/// the current use plus one proof's memory stays within the machine's limit.
pub proof fn lemma_passed_check_fits_one_proof(total: u64, status: Option<Seq<char>>, inputs: usize)
    requires
        spec_pre_task_check(total, status, inputs) matches Ok(Some(_)),
    ensures
        ({
            let report = spec_pre_task_check(total, status, inputs)->Ok_0->Some_0;
            report.memory_mb + report.memory_per_proof_mb <= spec_share_mb(total, spec_memory_threshold_percent(total))
        }),
{
}

/// Only a task of more than ten inputs is refused as a large task: a task of
/// at most ten inputs is never answered with `LargeTaskOnLowMemory`.
pub proof fn lemma_small_tasks_not_large(total: u64, status: Option<Seq<char>>, inputs: usize)
    requires
        inputs <= 10,
    ensures
        !(spec_pre_task_check(total, status, inputs) is Err
            && spec_pre_task_check(total, status, inputs)->Err_0 is LargeTaskOnLowMemory),
{
}

/// The number of inputs matters only for large tasks: two tasks of at most
/// ten inputs each get the same answer, but for the input count it reports.
pub proof fn lemma_small_tasks_answered_alike(total: u64, status: Option<Seq<char>>, a: usize, b: usize)
    requires
        a <= 10,
        b <= 10,
    ensures
        spec_pre_task_check(total, status, a) is Ok <==> spec_pre_task_check(total, status, b) is Ok,
        spec_pre_task_check(total, status, a) is Err ==> spec_pre_task_check(total, status, a) == spec_pre_task_check(total, status, b),
{
}

/// Machines above 2 GiB are never refused by the pre-task check.
pub proof fn lemma_large_machines_unchecked(total: u64, status: Option<Seq<char>>, inputs: usize)
    requires
        total > 2 * GIB,
    ensures
        spec_pre_task_check(total, status, inputs) == Ok::<Option<PreTaskReport>, TaskRejection>(None),
{
}

} // verus!
