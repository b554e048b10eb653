# nexus_network

The resource-aware scheduling core of a zero-knowledge prover client, written
in Verus. The functions in `src/` carry contracts that Verus proves, except a
few small functions that call outside crates (`url`, `reqwest`, `sha3`,
`hex`, `postcard`, `num_cpus`, `uuid`, `rand_core`): their contracts are trusted, and each
says in its documentation what it claims of the crate it calls.

- `src/memory_guard.rs`: warning and critical thresholds on the prover's memory.
- `src/network/connection_pool.rs`: HTTP clients kept per host and reused.
- `src/prover/`: adaptive batch sizes and worker counts, the persistent and
  pre-warmed process pools, the subprocess settings and failure meanings, the
  pre-task memory check, proof hashing, and the benchmark plans.
- `src/session/setup.rs`: the number of proving workers a machine can carry.
- `src/text.rs`: reading `/proc/meminfo` and `/proc/self/status`.

Memory is counted in bytes and time in nanoseconds on the caller's clock, so
that every decision is a function of plain integers.

`app/` is the unverified runtime around the library: the clock, system
readings, process-wide instances, subprocesses and async loops. `tests/` runs
the library on concrete values.
