//! Verified core of a test-execution orchestrator for embedded firmware
//! examples.
//!
//! The library holds the decision logic of the orchestrator: discovering
//! test descriptors, building backend command lines, matching an ordered
//! scenario of expected serial events against observed output lines,
//! classifying run outcomes, bounding concurrent runs, and aggregating a
//! batch summary. Process spawning, timers and the filesystem live outside
//! the library and hand it plain values.

pub mod adapter;
pub mod aggregator;
pub mod archive;
pub mod build_phase;
pub mod catalog;
pub mod config;
pub mod descriptor;
pub mod errors;
pub mod lifecycle;
pub mod matcher;
pub mod scenario;
pub mod scheduler;
pub mod strutil;
