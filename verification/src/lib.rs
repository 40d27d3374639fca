//! A verified record-processing pipeline for FASTA-style sequence data.
//!
//! One run selects a rule (a regular expression with a named `taxo`
//! capture group, and optionally a header-rewrite template) from a
//! tab-separated rule file, then feeds records through a per-record
//! step: the effective header is reconstructed, the skip policies are
//! applied in order, the header is rewritten, and the record is kept or
//! dropped by a deduplication key built from the captured taxo key and
//! the sequence bytes, while counters accumulate.
//!
//! The pipeline's behaviour is pinned down by the specification
//! functions in [`pipeline`] (`step_model`, `run_model`), and the
//! properties the run guarantees are stated and proved in [`laws`].
//! Calls into the regex crate stand behind the contracts in
//! [`matching`].

pub mod dedup;
pub mod explain;
pub mod laws;
pub mod matching;
pub mod pipeline;
pub mod record;
pub mod rule;
pub mod stats;
pub mod text;
