//! Reusable market measurement primitives: shock score, horizon returns,
//! activity anomaly, reference-to-token response gap, divergence.
//!
//! No causal inference and no migration classification: these answer "what
//! did the series do" with explicit missingness (`None` for unknown, never a
//! fabricated `0`).
pub mod stats;
pub mod daily;
pub mod horizon;
pub mod activity;
pub mod shock;
pub mod divergence;
pub mod response_gap;
pub mod project_support;
pub mod format;
