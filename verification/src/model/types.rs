//! The dependency model of workspaces and crates, and cycles over it.

use vstd::prelude::*;

verus! {

/// A workspace with its member crates.
pub struct Workspace {
    pub path: String,
    pub name: String,
    pub members: Vec<Crate>,
}

/// A crate with its dependencies.
pub struct Crate {
    pub name: String,
    pub path: String,
    pub dependencies: Dependencies,
}

/// The dependencies of a crate, by kind; target-specific ones by target.
pub struct Dependencies {
    pub normal: Vec<DependencyRef>,
    pub dev: Vec<DependencyRef>,
    pub build: Vec<DependencyRef>,
    pub target: Vec<(String, Vec<DependencyRef>)>,
}

impl Default for Dependencies {
    fn default() -> (r: Self)
        ensures
            r.normal@.len() == 0,
            r.dev@.len() == 0,
            r.build@.len() == 0,
            r.target@.len() == 0,
    {
        Dependencies { normal: Vec::new(), dev: Vec::new(), build: Vec::new(), target: Vec::new() }
    }
}

/// A reference to a dependency crate.
pub struct DependencyRef {
    pub name: String,
    pub path: Option<String>,
    pub workspace: bool,
    pub target: Option<String>,
}

/// A cycle: the participants and the edges between them.
pub struct Cycle {
    pub participants: Vec<String>,
    pub edges: Vec<Edge>,
}

/// A dependency edge of a cycle.
pub struct Edge {
    pub from: String,
    pub to: String,
    pub dependency_type: EdgeType,
    pub target: Option<String>,
}

/// The kind of a dependency edge.
#[derive(Debug, Clone, Copy, PartialEq, Eq, Hash, Structural)]
pub enum EdgeType {
    Normal,
    Dev,
    Build,
}

/// How an edge type is displayed.
pub open spec fn edge_type_text(t: EdgeType) -> Seq<char> {
    match t {
        EdgeType::Normal => "normal"@,
        EdgeType::Dev => "dev"@,
        EdgeType::Build => "build"@,
    }
}

impl EdgeType {
    /// The edge type as displayed: `normal`, `dev` or `build`.
    pub fn to_string(&self) -> (r: String)
        ensures
            r@ == edge_type_text(*self),
    {
        match self {
            EdgeType::Normal => crate::text::to_owned("normal"),
            EdgeType::Dev => crate::text::to_owned("dev"),
            EdgeType::Build => crate::text::to_owned("build"),
        }
    }
}

} // verus!
