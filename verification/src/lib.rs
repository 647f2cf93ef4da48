//! Layered configuration resolution for a wrapper around a text-search engine.
//!
//! The crate determines the single authoritative configuration of an
//! invocation by merging a persisted config file, the process environment and
//! command-line flags, and partitions the raw argument vector into tool-owned
//! flags versus flags forwarded untouched to the wrapped engine.

pub mod args;
pub mod cli;
pub mod errors;
pub mod json;
pub mod resolve;
pub mod schema;
pub mod scalars;
pub mod text;

use vstd::prelude::*;

verus! {

/// Multiplier applied to a byte-size written with the `k` suffix.
pub const KILO: u64 = 1000;

/// Multiplier applied to a byte-size written with the `M` suffix.
pub const MEGA: u64 = 1000000;

/// Multiplier applied to a byte-size written with the `G` suffix.
pub const GIGA: u64 = 1000000000;

} // verus!
