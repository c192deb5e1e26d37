//! The data of the dependency graph: workspace nodes and crate-level edges.

use vstd::prelude::*;

use crate::common::ConfigBuilder;
use crate::error::{is_missing_field, missing_field, FerrisWheelError};
use crate::text::to_owned;

verus! {

/// Type of dependency relationship.
#[derive(Debug, Clone, Copy, PartialEq, Eq, Hash, PartialOrd, Ord, Structural)]
pub enum DependencyType {
    Normal,
    Dev,
    Build,
}

/// The name of a dependency type as `Debug` prints it.
pub open spec fn dep_type_name(t: DependencyType) -> Seq<char> {
    match t {
        DependencyType::Normal => "Normal"@,
        DependencyType::Dev => "Dev"@,
        DependencyType::Build => "Build"@,
    }
}

/// The name of a dependency type in lower case.
pub open spec fn dep_type_lower(t: DependencyType) -> Seq<char> {
    match t {
        DependencyType::Normal => "normal"@,
        DependencyType::Dev => "dev"@,
        DependencyType::Build => "build"@,
    }
}

impl DependencyType {
    /// The name of the dependency type (`Normal`, `Dev`, `Build`).
    pub fn name(&self) -> (r: String)
        ensures
            r@ == dep_type_name(*self),
    {
        match self {
            DependencyType::Normal => to_owned("Normal"),
            DependencyType::Dev => to_owned("Dev"),
            DependencyType::Build => to_owned("Build"),
        }
    }

    /// The name of the dependency type in lower case.
    pub fn lower_name(&self) -> (r: &'static str)
        ensures
            r@ == dep_type_lower(*self),
    {
        match self {
            DependencyType::Normal => "normal",
            DependencyType::Dev => "dev",
            DependencyType::Build => "build",
        }
    }
}

/// Represents a workspace node in the dependency graph.
#[derive(Debug, Clone)]
pub struct WorkspaceNode {
    pub name: String,
    pub crates: Vec<String>,
}

impl WorkspaceNode {
    pub fn builder() -> (r: WorkspaceNodeBuilder)
        ensures
            r.name is None,
            r.crates is None,
    {
        WorkspaceNodeBuilder::new()
    }

    pub fn name(&self) -> (r: &str)
        ensures
            r@ == self.name@,
    {
        self.name.as_str()
    }

    pub fn crates(&self) -> (r: &[String])
        ensures
            r@ == self.crates@,
    {
        self.crates.as_slice()
    }
}

/// Builder of a `WorkspaceNode`; both fields are required.
pub struct WorkspaceNodeBuilder {
    pub name: Option<String>,
    pub crates: Option<Vec<String>>,
}

impl WorkspaceNodeBuilder {
    pub fn new() -> (r: Self)
        ensures
            r.name is None,
            r.crates is None,
    {
        WorkspaceNodeBuilder { name: None, crates: None }
    }

    pub fn with_name(self, name: String) -> (r: Self)
        ensures
            r.name == Some(name),
            r.crates == self.crates,
    {
        WorkspaceNodeBuilder { name: Some(name), crates: self.crates }
    }

    pub fn with_crates(self, crates: Vec<String>) -> (r: Self)
        ensures
            r.name == self.name,
            r.crates == Some(crates),
    {
        WorkspaceNodeBuilder { name: self.name, crates: Some(crates) }
    }
}

impl ConfigBuilder for WorkspaceNodeBuilder {
    type Config = WorkspaceNode;

    fn build(self) -> (r: Result<WorkspaceNode, FerrisWheelError>)
        ensures
            (self.name is Some && self.crates is Some) <==> r is Ok,
            r matches Ok(n) ==> n.name == self.name.unwrap() && n.crates == self.crates.unwrap(),
            self.name is None ==> (r matches Err(e) && is_missing_field(e, "name"@)),
            self.name is Some && self.crates is None ==> (r matches Err(e) && is_missing_field(e, "crates"@)),
    {
        match self.name {
            None => Err(missing_field("name")),
            Some(name) => match self.crates {
                None => Err(missing_field("crates")),
                Some(crates) => Ok(WorkspaceNode { name, crates }),
            },
        }
    }
}


/// Represents a dependency edge between crates.
#[derive(Debug, Clone)]
pub struct DependencyEdge {
    pub from_crate: String,
    pub to_crate: String,
    pub dependency_type: DependencyType,
    pub target: Option<String>,
}

impl DependencyEdge {
    pub fn builder() -> (r: DependencyEdgeBuilder)
        ensures
            r.from_crate is None,
            r.to_crate is None,
            r.dependency_type is None,
            r.target is None,
    {
        DependencyEdgeBuilder::new()
    }

    pub fn from_crate(&self) -> (r: &str)
        ensures
            r@ == self.from_crate@,
    {
        self.from_crate.as_str()
    }

    pub fn to_crate(&self) -> (r: &str)
        ensures
            r@ == self.to_crate@,
    {
        self.to_crate.as_str()
    }

    pub fn dependency_type(&self) -> (r: &DependencyType)
        ensures
            *r == self.dependency_type,
    {
        &self.dependency_type
    }

    pub fn target(&self) -> (r: Option<&str>)
        ensures
            r is Some <==> self.target is Some,
            r matches Some(t) ==> t@ == self.target.unwrap()@,
    {
        match &self.target {
            Some(t) => Some(t.as_str()),
            None => None,
        }
    }
}

/// Builder of a `DependencyEdge`; the crates and the type are required.
pub struct DependencyEdgeBuilder {
    pub from_crate: Option<String>,
    pub to_crate: Option<String>,
    pub dependency_type: Option<DependencyType>,
    pub target: Option<String>,
}

impl DependencyEdgeBuilder {
    pub fn new() -> (r: Self)
        ensures
            r.from_crate is None,
            r.to_crate is None,
            r.dependency_type is None,
            r.target is None,
    {
        DependencyEdgeBuilder { from_crate: None, to_crate: None, dependency_type: None, target: None }
    }

    pub fn with_from_crate(self, from_crate: &str) -> (r: Self)
        ensures
            r.from_crate matches Some(c) && c@ == from_crate@,
            r.to_crate == self.to_crate,
            r.dependency_type == self.dependency_type,
            r.target == self.target,
    {
        DependencyEdgeBuilder { from_crate: Some(to_owned(from_crate)), ..self }
    }

    pub fn with_to_crate(self, to_crate: &str) -> (r: Self)
        ensures
            r.to_crate matches Some(c) && c@ == to_crate@,
            r.from_crate == self.from_crate,
            r.dependency_type == self.dependency_type,
            r.target == self.target,
    {
        DependencyEdgeBuilder { to_crate: Some(to_owned(to_crate)), ..self }
    }

    pub fn with_dependency_type(self, dependency_type: DependencyType) -> (r: Self)
        ensures
            r.dependency_type == Some(dependency_type),
            r.from_crate == self.from_crate,
            r.to_crate == self.to_crate,
            r.target == self.target,
    {
        DependencyEdgeBuilder { dependency_type: Some(dependency_type), ..self }
    }

    pub fn with_target(self, target: Option<String>) -> (r: Self)
        ensures
            r.target == target,
            r.from_crate == self.from_crate,
            r.to_crate == self.to_crate,
            r.dependency_type == self.dependency_type,
    {
        DependencyEdgeBuilder { target, ..self }
    }
}

impl ConfigBuilder for DependencyEdgeBuilder {
    type Config = DependencyEdge;

    fn build(self) -> (r: Result<DependencyEdge, FerrisWheelError>)
        ensures
            (self.from_crate is Some && self.to_crate is Some && self.dependency_type is Some) <==> r is Ok,
            r matches Ok(e) ==> e.from_crate == self.from_crate.unwrap() && e.to_crate == self.to_crate.unwrap()
                && e.dependency_type == self.dependency_type.unwrap() && e.target == self.target,
            self.from_crate is None ==> (r matches Err(e) && is_missing_field(e, "from_crate"@)),
            self.from_crate is Some && self.to_crate is None ==> (r matches Err(e) && is_missing_field(e, "to_crate"@)),
            self.from_crate is Some && self.to_crate is Some && self.dependency_type is None ==>
                (r matches Err(e) && is_missing_field(e, "dependency_type"@)),
    {
        let from_crate = match self.from_crate {
            Some(c) => c,
            None => return Err(missing_field("from_crate")),
        };
        let to_crate = match self.to_crate {
            Some(c) => c,
            None => return Err(missing_field("to_crate")),
        };
        let dependency_type = match self.dependency_type {
            Some(t) => t,
            None => return Err(missing_field("dependency_type")),
        };
        Ok(DependencyEdge { from_crate, to_crate, dependency_type, target: self.target })
    }
}

} // verus!
