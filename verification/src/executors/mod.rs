//! What each command does once the workspaces are known: build the graph,
//! analyse it and write the report. Discovering the workspaces and printing
//! the outcome is left to the program.

pub mod affected;
pub mod analyze;
pub mod check;
pub mod common;
pub mod deps;
pub mod graph;
