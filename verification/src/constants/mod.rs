//! Configuration constants: progress display and output defaults.

pub mod output;
pub mod progress;
