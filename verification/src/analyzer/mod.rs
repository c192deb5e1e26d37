//! Workspace analysis: the workspaces found, their member crates and the
//! dependencies of each crate.

pub mod analyzer_impl;
pub mod dependency_classifier;

pub use analyzer_impl::{
    CrateMember, CrateMemberBuilder, CrateMemberBuilderError, Dependency, DependencyBuilder,
    DependencyBuilderError, WorkspaceAnalyzer, WorkspaceInfo, WorkspaceInfoBuilder, WorkspaceInfoBuilderError,
};
pub use dependency_classifier::DependencyClassifier;
