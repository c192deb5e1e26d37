//! Configuration of each command, built with builders.

pub mod affected;
pub mod analyze;
pub mod check;
pub mod common;
pub mod deps;
pub mod graph;

pub use affected::AffectedConfig;
pub use analyze::AnalyzeCrateConfig;
pub use check::CheckCyclesConfig;
pub use common::CommonAnalysisConfig;
pub use deps::WorkspaceDepsConfig;
pub use graph::GraphOptions;
