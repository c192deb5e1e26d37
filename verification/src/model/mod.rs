//! The dependency model of workspaces, crates and cycles.

pub mod types;
