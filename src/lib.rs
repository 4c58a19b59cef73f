//! Live, incremental view over append-only JSONL transcript logs.
//!
//! The library decodes transcript lines into display entries, frames
//! partially written files, folds tool results into their calls, ranks the
//! project / session / agent hierarchy by recency and keeps the bounded,
//! eviction-aware transcript buffer that the control loop owns.

pub mod app;
pub mod buffer;
pub mod decoder;
pub mod incremental;
pub mod json;
pub mod merge;
pub mod paths;
pub mod project;
pub mod raw;
pub mod reader;
pub mod text;
pub mod themes;
pub mod time;
pub mod types;
pub mod ui_state;
pub mod wrap;
