//! Network plumbing: a pool of HTTP clients per host.
pub mod connection_pool;
