//! Verified core of a batch texture-conversion pipeline.
//!
//! The library turns a list of candidate file paths into a deterministic,
//! ordered set of invocations of an external texture-compression tool:
//! classification by filename convention, format resolution (by hint suffix
//! or by a caller-supplied decision), staging of lossless intermediates,
//! command-plan generation, and a sequential execute-then-cleanup driver.
//! All I/O — the filesystem, the interactive prompts, the image codec and
//! the external process — stays with the caller; this crate holds the
//! decision logic, verified.
pub mod classify;
pub mod config;
pub mod format;
pub mod pathname;
pub mod plan;
pub mod resolve;
pub mod run;
pub mod stage;
pub mod text;
