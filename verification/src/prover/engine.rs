//! Decisions of the proving engine: how the proving subprocess is set up for
//! the memory at hand, how its inputs are laid out, and what its failures mean.
use vstd::prelude::*;
use vstd::string::StringExecFns;
use crate::prover::types::ProverError;

verus! {

/// Exit code of a proving subprocess that was killed with SIGKILL (128 + 9),
/// most likely by the kernel for lack of memory.
pub const SUBPROCESS_SUSPECTED_OOM_CODE: i32 = 137;

/// Exit code with which the proving subprocess reports an error of its own.
pub const SUBPROCESS_INTERNAL_ERROR_CODE: i32 = 3;

/// How much the proving subprocess is restrained.
pub enum MemoryProfile {
    /// Below 950 MiB available: the tightest limits.
    ExtremeLowMemory,
    /// Below 1200 MiB available.
    UltraLowMemory,
    /// Otherwise: tuned for throughput.
    Performance,
}

/// The profile for `available_mb` MiB of available memory.
pub open spec fn spec_memory_profile(available_mb: usize) -> MemoryProfile {
    if available_mb < 950 {
        MemoryProfile::ExtremeLowMemory
    } else if available_mb < 1200 {
        MemoryProfile::UltraLowMemory
    } else {
        MemoryProfile::Performance
    }
}

/// The profile for `available_mb` MiB of available memory.
pub fn memory_profile(available_mb: usize) -> (r: MemoryProfile)
    ensures
        r == spec_memory_profile(available_mb),
{
    if available_mb < 950 {
        MemoryProfile::ExtremeLowMemory
    } else if available_mb < 1200 {
        MemoryProfile::UltraLowMemory
    } else {
        MemoryProfile::Performance
    }
}

/// How the proving subprocess is started: environment variables, and soft and
/// hard limits (in bytes) on its resident set and address space. Every profile
/// also starts the subprocess in a process group of its own.
pub struct SubprocessSettings {
    pub env: Vec<(&'static str, &'static str)>,
    pub rss_limit: Option<(u64, u64)>,
    pub address_space_limit: Option<(u64, u64)>,
}

/// The environment of a settings value, as text.
pub open spec fn spec_env(s: SubprocessSettings) -> Seq<(Seq<char>, Seq<char>)> {
    s.env@.map_values(|p: (&'static str, &'static str)| (p.0@, p.1@))
}

/// Environment for throughput: one malloc arena, quick page decay, 512 KiB
/// thread stacks, no backtraces and no logging.
pub open spec fn spec_performance_env() -> Seq<(Seq<char>, Seq<char>)> {
    seq![
        ("MALLOC_ARENA_MAX"@, "1"@),
        ("MALLOC_CONF"@, "dirty_decay_ms:100,muzzy_decay_ms:100,background_thread:false,lg_dirty_mult:8,lg_muzzy_mult:8"@),
        ("RUST_MIN_STACK"@, "524288"@),
        ("RUST_BACKTRACE"@, "0"@),
        ("RUST_LOG"@, "off"@),
    ]
}

/// Environment for machines with about 1 GiB: immediate page decay and
/// 256 KiB thread stacks.
pub open spec fn spec_ultra_low_memory_env() -> Seq<(Seq<char>, Seq<char>)> {
    seq![
        ("MALLOC_ARENA_MAX"@, "1"@),
        ("MALLOC_CONF"@, "dirty_decay_ms:0,muzzy_decay_ms:0,background_thread:false,lg_dirty_mult:1,lg_muzzy_mult:1,oversize_threshold:1"@),
        ("RUST_MIN_STACK"@, "262144"@),
        ("RUST_BACKTRACE"@, "0"@),
        ("RUST_LOG"@, "off"@),
    ]
}

/// Environment for machines below 1 GiB: fast page decay, 256 KiB thread
/// stacks and the lighter runtime.
pub open spec fn spec_extreme_low_memory_env() -> Seq<(Seq<char>, Seq<char>)> {
    seq![
        ("MALLOC_ARENA_MAX"@, "1"@),
        ("MALLOC_CONF"@, "dirty_decay_ms:50,muzzy_decay_ms:50,background_thread:false,lg_dirty_mult:2,lg_muzzy_mult:2,oversize_threshold:2"@),
        ("RUST_MIN_STACK"@, "262144"@),
        ("RUST_BACKTRACE"@, "0"@),
        ("RUST_LOG"@, "off"@),
        ("RUST_NEW_RUNTIME"@, "1"@),
    ]
}

impl ProvingEngine {
    /// Settings for throughput on machines with memory to spare.
    pub fn apply_performance_optimizations() -> (r: SubprocessSettings)
        ensures
            spec_env(r) == spec_performance_env(),
            r.rss_limit is None,
            r.address_space_limit is None,
    {
        let env = vec![
            ("MALLOC_ARENA_MAX", "1"),
            ("MALLOC_CONF", "dirty_decay_ms:100,muzzy_decay_ms:100,background_thread:false,lg_dirty_mult:8,lg_muzzy_mult:8"),
            ("RUST_MIN_STACK", "524288"),
            ("RUST_BACKTRACE", "0"),
            ("RUST_LOG", "off"),
        ];
        let r = SubprocessSettings { env, rss_limit: None, address_space_limit: None };
        assert(spec_env(r) =~= spec_performance_env());
        r
    }

    /// Settings for machines with about 1 GiB: a resident set of at most
    /// 200 MiB (hard limit 250 MiB).
    pub fn apply_ultra_low_memory_optimizations() -> (r: SubprocessSettings)
        ensures
            spec_env(r) == spec_ultra_low_memory_env(),
            r.rss_limit == Some((209715200u64, 262144000u64)),
            r.address_space_limit is None,
    {
        let env = vec![
            ("MALLOC_ARENA_MAX", "1"),
            ("MALLOC_CONF", "dirty_decay_ms:0,muzzy_decay_ms:0,background_thread:false,lg_dirty_mult:1,lg_muzzy_mult:1,oversize_threshold:1"),
            ("RUST_MIN_STACK", "262144"),
            ("RUST_BACKTRACE", "0"),
            ("RUST_LOG", "off"),
        ];
        let r = SubprocessSettings {
            env,
            rss_limit: Some((200 * 1048576, 250 * 1048576)),
            address_space_limit: None,
        };
        assert(spec_env(r) =~= spec_ultra_low_memory_env());
        r
    }

    /// Settings for machines below 1 GiB: a resident set of at most 200 MiB
    /// (hard 250 MiB) and an address space of at most 300 MiB (hard 350 MiB).
    pub fn apply_extreme_low_memory_optimizations() -> (r: SubprocessSettings)
        ensures
            spec_env(r) == spec_extreme_low_memory_env(),
            r.rss_limit == Some((209715200u64, 262144000u64)),
            r.address_space_limit == Some((314572800u64, 367001600u64)),
    {
        let env = vec![
            ("MALLOC_ARENA_MAX", "1"),
            ("MALLOC_CONF", "dirty_decay_ms:50,muzzy_decay_ms:50,background_thread:false,lg_dirty_mult:2,lg_muzzy_mult:2,oversize_threshold:2"),
            ("RUST_MIN_STACK", "262144"),
            ("RUST_BACKTRACE", "0"),
            ("RUST_LOG", "off"),
            ("RUST_NEW_RUNTIME", "1"),
        ];
        let r = SubprocessSettings {
            env,
            rss_limit: Some((200 * 1048576, 250 * 1048576)),
            address_space_limit: Some((300 * 1048576, 350 * 1048576)),
        };
        assert(spec_env(r) =~= spec_extreme_low_memory_env());
        r
    }

    /// The settings for a subprocess started with `available_mb` MiB of
    /// memory available.
    pub fn settings_for_available_memory(available_mb: usize) -> (r: SubprocessSettings)
        ensures
            match spec_memory_profile(available_mb) {
                MemoryProfile::ExtremeLowMemory => spec_env(r) == spec_extreme_low_memory_env()
                    && r.rss_limit == Some((209715200u64, 262144000u64))
                    && r.address_space_limit == Some((314572800u64, 367001600u64)),
                MemoryProfile::UltraLowMemory => spec_env(r) == spec_ultra_low_memory_env()
                    && r.rss_limit == Some((209715200u64, 262144000u64))
                    && r.address_space_limit is None,
                MemoryProfile::Performance => spec_env(r) == spec_performance_env()
                    && r.rss_limit is None && r.address_space_limit is None,
            },
    {
        match memory_profile(available_mb) {
            MemoryProfile::ExtremeLowMemory => Self::apply_extreme_low_memory_optimizations(),
            MemoryProfile::UltraLowMemory => Self::apply_ultra_low_memory_optimizations(),
            MemoryProfile::Performance => Self::apply_performance_optimizations(),
        }
    }
}

/// The core proving engine.
pub struct ProvingEngine;

/// The four bytes of `x`, least significant first (`u32::to_le_bytes`).
pub open spec fn spec_le_bytes(x: u32) -> Seq<u8> {
    seq![(x % 256) as u8, ((x / 256) % 256) as u8, ((x / 65536) % 256) as u8, ((x / 16777216) % 256) as u8]
}

/// The twelve bytes that carry a proof's inputs to the proving subprocess:
/// the three numbers one after the other, each little-endian.
pub open spec fn spec_input_bytes(inputs: (u32, u32, u32)) -> Seq<u8> {
    spec_le_bytes(inputs.0) + spec_le_bytes(inputs.1) + spec_le_bytes(inputs.2)
}

/// Appends the little-endian bytes of `x` to `buf`.
fn push_le_bytes(buf: &mut Vec<u8>, x: u32)
    ensures
        final(buf)@ == old(buf)@ + spec_le_bytes(x),
{
    buf.push((x % 256) as u8);
    buf.push(((x / 256) % 256) as u8);
    buf.push(((x / 65536) % 256) as u8);
    buf.push(((x / 16777216) % 256) as u8);
    assert(final(buf)@ =~= old(buf)@ + spec_le_bytes(x));
}

impl ProvingEngine {
    /// The bytes written to the proving subprocess for `inputs`.
    pub fn encode_inputs(inputs: &(u32, u32, u32)) -> (r: Vec<u8>)
        ensures
            r@ == spec_input_bytes(*inputs),
            r@.len() == 12,
    {
        let mut buffer: Vec<u8> = Vec::new();
        push_le_bytes(&mut buffer, inputs.0);
        push_le_bytes(&mut buffer, inputs.1);
        push_le_bytes(&mut buffer, inputs.2);
        assert(buffer@ =~= spec_input_bytes(*inputs));
        buffer
    }
}

/// What a failed proving subprocess means: whether it was most likely killed
/// for lack of memory (then the event is reported), and the error to return.
pub struct SubprocessFailure {
    pub likely_oom: bool,
    pub error: ProverError,
}

/// The error message for a proving subprocess that ended with exit `code`
/// (if it has one), having written `stderr`, with exit status `status`.
pub open spec fn spec_failure_message(code: Option<i32>, stderr: Seq<char>, status: Seq<char>) -> Seq<char> {
    match code {
        Some(c) if c == SUBPROCESS_INTERNAL_ERROR_CODE =>
            "Error while proving within subprocess, captured error: ["@ + stderr + "]"@,
        Some(c) if c >= 128 && c != SUBPROCESS_SUSPECTED_OOM_CODE && c - 128 == 13 =>
            "Subprocess terminated by SIGPIPE (broken pipe) - likely during shutdown"@,
        _ => "Prover subprocess failed with status: "@ + status,
    }
}

impl ProvingEngine {
    /// Classifies the failure of a proving subprocess from its exit code (none
    /// when a signal ended it), what it wrote to stderr and its exit status.
    pub fn classify_subprocess_failure(code: Option<i32>, stderr: &str, status: &str) -> (r: SubprocessFailure)
        ensures
            r.likely_oom == (code == Some(SUBPROCESS_SUSPECTED_OOM_CODE)),
            r.error matches ProverError::Subprocess(m) && m@ == spec_failure_message(code, stderr@, status@),
    {
        let likely_oom = match code {
            Some(c) => c == SUBPROCESS_SUSPECTED_OOM_CODE,
            None => false,
        };
        if let Some(c) = code {
            if c == SUBPROCESS_INTERNAL_ERROR_CODE {
                let mut m = String::from_str("Error while proving within subprocess, captured error: [");
                m.append(stderr);
                m.append("]");
                return SubprocessFailure { likely_oom, error: ProverError::Subprocess(m) };
            }
            if c >= 128 && c != SUBPROCESS_SUSPECTED_OOM_CODE {
                if c - 128 == 13 {
                    let m = String::from_str("Subprocess terminated by SIGPIPE (broken pipe) - likely during shutdown");
                    return SubprocessFailure { likely_oom, error: ProverError::Subprocess(m) };
                }
            }
        }
        let mut m = String::from_str("Prover subprocess failed with status: ");
        m.append(status);
        SubprocessFailure { likely_oom, error: ProverError::Subprocess(m) }
    }
}

} // verus!
