//! Session setup: how many proving workers a machine can carry.
pub mod setup;
