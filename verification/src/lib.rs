//! Staged preparation pipeline for a clustered protein-sequence database,
//! together with an analyzer for the resulting cluster-membership table.
//!
//! The crate has three parts:
//! - checkpointing: deciding whether a stage's output artifact is already
//!   valid, so the stage can be skipped (`checkpoint`);
//! - the stage runner: a state machine that drives an ordered list of
//!   artifact-producing stages, skipping stages whose artifact is valid and
//!   aborting the whole pipeline on the first producer failure (`runner`,
//!   `stages`);
//! - the membership analyzer: a streaming aggregator over a two-column
//!   membership table that groups member identifiers by centroid identifier
//!   and computes summary statistics (`membership`, `analyzer`).
//!
//! All I/O (network fetch, decompression, format conversion, external
//! processes, file reads) lives outside this crate; the library receives
//! plain values (validity observations, producer outcomes, file contents)
//! and makes every decision and computation here.

pub mod analyzer;
pub mod checkpoint;
pub mod errors;
pub mod membership;
pub mod runner;
pub mod stages;
