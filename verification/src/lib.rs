//! Static metric over a parsed compilation unit: the fraction of source
//! lines that lie inside memory-unsafe constructs.
//!
//! The pipeline is one-way: a syntax tree is walked once, depth-first,
//! collecting the source extent of every node classified as an unsafe
//! region (`tree`); each extent is resolved to start/end line positions
//! and normalized into a `Row` (`resolve`, `metrics`); the rows are
//! rolled up into a count, a total and a percentage line (`report`). The
//! properties the whole pipeline is held to stand in `laws`.

pub mod laws;
pub mod metrics;
pub mod report;
pub mod resolve;
pub mod tree;
