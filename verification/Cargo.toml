[package]
name = "nexus_network"
version = "0.1.0"
edition = "2021"
publish = false

[dependencies]
reqwest = { version = "0.12", default-features = false }
url = "2"
sha3 = "0.10"
hex = "0.4.3"
postcard = { version = "1", features = ["alloc"] }
num_cpus = "1.16.0"
sysinfo = "0.33"
tokio = { version = "1", features = ["sync", "process", "time", "rt", "io-util", "macros"] }
once_cell = "1"
futures = "0.3"
uuid = { version = "1", features = ["v4"] }
ed25519-dalek = { version = "2", features = ["rand_core"] }
rand_core = { version = "0.6", features = ["getrandom"] }
libc = "0.2"
