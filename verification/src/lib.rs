//! Aggregation engine for per-translation-unit compiler time-trace files.
//!
//! The library turns a set of parsed trace profiles into an immutable
//! [`summary::Summary`]: per-target timing, per-include self/total time,
//! per-source frontend/backend split, per-operation and per-symbol timing,
//! together with one ordered key list per sort criterion.

pub mod arith;
pub mod attribution;
pub mod backend;
pub mod demangle;
pub mod display;
pub mod indices;
pub mod laws;
pub mod layout;
pub mod linmap;
pub mod model;
pub mod persist;
pub mod processing;
pub mod sorting;
pub mod strkit;
pub mod summary;
pub mod trace;
