//! Cycle detection in the workspace dependency graph.
//!
//! The detector uses Tarjan's strongly connected components algorithm: every
//! component with more than one workspace is reported as one cycle that holds
//! all the edges between its workspaces.

pub mod cycle;
pub mod detector_impl;

pub use cycle::{CycleEdge, CycleEdgeBuilder, DirectionMap, WorkspaceCycle, WorkspaceCycleBuilder};
pub use detector_impl::CycleDetector;
pub mod laws;
