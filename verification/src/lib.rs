//! A point-in-time and continuous system-resource monitor library.
//!
//! The heart of the crate is the sampling-and-ranking engine: a two-phase
//! CPU measurement protocol (baseline refresh, mandatory quiescent interval,
//! delta refresh) modelled as a verified state machine, a plain-value
//! snapshot of system and process metrics, and a deterministic
//! sort/format/paginate pipeline that turns a snapshot into a bounded,
//! ordered, column-aligned textual report.
//!
//! All metric fractions are carried as integer hundredths (centi-units),
//! so the report text is computed and specified exactly.

pub mod config;
pub mod control;
pub mod num;
pub mod rank;
pub mod render;
pub mod sampler;
pub mod snapshot;
pub mod text;
