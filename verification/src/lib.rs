//! Profile-driven extraction of normalized relational rows from JSON records.
//!
//! A declarative profile describes how to walk a JSON document, which
//! sub-objects become values, and which relationship rows tie records,
//! values and processes together.  This crate holds the verified core:
//! the JSON model and path evaluation, the deterministic identity scheme,
//! the null-value registry, the record filter, the extractor, and the
//! deduplicating writer state.
#![verifier::loop_isolation(false)]

pub mod config;
pub mod dedup;
pub mod extract;
pub mod identity;
pub mod json;
pub mod metadata;
pub mod nulls;
pub mod rows;
pub mod sync;
pub mod text;
