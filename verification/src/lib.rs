//! Bisection fault localization over a linear revision history.
//!
//! The crate isolates the first bad revision of an ordered history by
//! binary search: an external test command classifies each candidate
//! revision as good or bad, and the engine narrows a bracket until a
//! single revision remains.  Everything algorithmic lives here, verified;
//! process spawning and version-control calls are left to the embedding
//! program, which drives the [`driver::Driver`] state machine.

pub mod driver;
pub mod engine;
pub mod history;
pub mod oracle;
pub mod session;

pub use oracle::Verdict;
