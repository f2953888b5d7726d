//! Format independent chart types and processing.
pub mod base_bpm;
pub mod types;
pub mod check;
pub mod process;
