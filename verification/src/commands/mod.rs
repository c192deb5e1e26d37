//! The commands of the program: each turns its command line into a
//! configuration.

pub mod affected;
pub mod affected_analysis;
pub mod affected_report;
pub mod analyze;
pub mod check;
pub mod deps;
pub mod deps_report;
pub mod graph;
