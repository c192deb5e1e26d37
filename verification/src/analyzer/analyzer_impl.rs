//! The analysed workspaces, their member crates and dependencies, and the
//! builders that make them.

use vstd::prelude::*;

use crate::analyzer::dependency_classifier::{classify_upto, pair_views, ClassView, DependencyClassifier};
use crate::assoc::{add_entry, add_to, list_views, push_entry, push_to, put, put_entry, put_str, put_str_entry, sets_sorted, str_pairs};
use crate::toml_parser::{all_entries, CargoToml};
use crate::text::{dup, to_owned};
use crate::workspace_discovery::{WorkspaceMember, WorkspaceRoot};

verus! {

/// A dependency of a crate: the crate it names, the path it was given
/// (relative to the workspace root when inherited from the workspace, else
/// to the crate), and the target it is restricted to.
pub struct Dependency {
    pub name: String,
    pub path: Option<String>,
    pub is_workspace: bool,
    pub target: Option<String>,
}

/// The view of a dependency: name, path, whether inherited from the
/// workspace, target.
pub type DependencyView = (Seq<char>, Option<Seq<char>>, bool, Option<Seq<char>>);

impl View for Dependency {
    type V = DependencyView;

    open spec fn view(&self) -> DependencyView {
        (self.name@, match self.path { Some(p) => Some(p@), None => None }, self.is_workspace,
            match self.target { Some(t) => Some(t@), None => None })
    }
}

impl Dependency {
    pub fn builder() -> (r: DependencyBuilder)
        ensures
            r.name is None && r.path is None && !r.is_workspace && r.target is None,
    {
        DependencyBuilder::default()
    }

    pub fn name(&self) -> (r: &str)
        ensures
            r@ == self.name@,
    {
        self.name.as_str()
    }

    /// The target of the dependency, if restricted to one.
    pub open spec fn target_view(&self) -> Option<Seq<char>> {
        self@.3
    }

    pub fn target(&self) -> (r: Option<&str>)
        ensures
            match r { Some(t) => Some(t@), None => None } == self.target_view(),
    {
        match &self.target {
            Some(t) => Some(t.as_str()),
            None => None,
        }
    }

    pub fn path(&self) -> (r: Option<&String>)
        ensures
            match r { Some(p) => Some(p@), None => None } == self@.1,
    {
        match &self.path {
            Some(p) => Some(p),
            None => None,
        }
    }

    pub fn is_workspace(&self) -> (r: bool)
        ensures
            r == self.is_workspace,
    {
        self.is_workspace
    }

    /// A copy of the dependency.
    pub fn duplicate(&self) -> (r: Dependency)
        ensures
            r@ == self@,
    {
        Dependency {
            name: dup(&self.name),
            path: match &self.path { Some(p) => Some(dup(p)), None => None },
            is_workspace: self.is_workspace,
            target: match &self.target { Some(t) => Some(dup(t)), None => None },
        }
    }
}

/// The views of a list of dependencies.
pub open spec fn dep_views(v: Seq<Dependency>) -> Seq<DependencyView> {
    v.map_values(|d: Dependency| d@)
}

/// Why a dependency could not be built.
#[derive(Debug, Clone, Copy, PartialEq, Eq, Structural)]
pub enum DependencyBuilderError {
    MissingName,
}

impl DependencyBuilderError {
    /// The error message.
    pub fn to_string(&self) -> (r: String)
        ensures
            r@ == "Dependency name is required"@,
    {
        to_owned("Dependency name is required")
    }
}

/// Builder of a `Dependency`; the name is required.
pub struct DependencyBuilder {
    pub name: Option<String>,
    pub path: Option<String>,
    pub is_workspace: bool,
    pub target: Option<String>,
}

impl Default for DependencyBuilder {
    fn default() -> (r: Self)
        ensures
            r.name is None && r.path is None && !r.is_workspace && r.target is None,
    {
        DependencyBuilder { name: None, path: None, is_workspace: false, target: None }
    }
}

impl DependencyBuilder {
    /// A builder holding the fields of an existing dependency.
    pub fn from_dependency(dep: &Dependency) -> (r: Self)
        ensures
            r.name matches Some(n) && n@ == dep.name@,
            match r.path { Some(p) => Some(p@), None => None } == dep@.1,
            r.is_workspace == dep.is_workspace,
            match r.target { Some(t) => Some(t@), None => None } == dep@.3,
    {
        let d = dep.duplicate();
        DependencyBuilder { name: Some(d.name), path: d.path, is_workspace: d.is_workspace, target: d.target }
    }

    pub fn with_name(self, name: &str) -> (r: Self)
        ensures
            r.name matches Some(n) && n@ == name@,
            r.path == self.path && r.is_workspace == self.is_workspace && r.target == self.target,
    {
        DependencyBuilder { name: Some(to_owned(name)), ..self }
    }

    pub fn with_path(self, path: String) -> (r: Self)
        ensures
            r.path == Some(path),
            r.name == self.name && r.is_workspace == self.is_workspace && r.target == self.target,
    {
        DependencyBuilder { path: Some(path), ..self }
    }

    pub fn with_workspace(self, is_workspace: bool) -> (r: Self)
        ensures
            r.is_workspace == is_workspace,
            r.name == self.name && r.path == self.path && r.target == self.target,
    {
        DependencyBuilder { is_workspace, ..self }
    }

    pub fn with_target(self, target: &str) -> (r: Self)
        ensures
            r.target matches Some(t) && t@ == target@,
            r.name == self.name && r.path == self.path && r.is_workspace == self.is_workspace,
    {
        DependencyBuilder { target: Some(to_owned(target)), ..self }
    }

    /// Fails without a name.
    pub fn build(self) -> (r: Result<Dependency, DependencyBuilderError>)
        ensures
            self.name is Some <==> r is Ok,
            r matches Ok(d) ==> d.name == self.name.unwrap() && d.path == self.path
                && d.is_workspace == self.is_workspace && d.target == self.target,
            r matches Err(e) ==> e == DependencyBuilderError::MissingName,
    {
        match self.name {
            Some(name) => Ok(Dependency { name, path: self.path, is_workspace: self.is_workspace, target: self.target }),
            None => Err(DependencyBuilderError::MissingName),
        }
    }
}

/// A crate of a workspace with its dependencies; target-specific ones are
/// kept by target.
pub struct CrateMember {
    pub name: String,
    pub path: String,
    pub dependencies: Vec<Dependency>,
    pub dev_dependencies: Vec<Dependency>,
    pub build_dependencies: Vec<Dependency>,
    pub target_dependencies: Vec<(String, Vec<Dependency>)>,
}

impl CrateMember {
    pub fn builder() -> (r: CrateMemberBuilder)
        ensures
            r.name is None && r.path is None,
            r.dependencies@.len() == 0 && r.dev_dependencies@.len() == 0 && r.build_dependencies@.len() == 0
                && r.target_dependencies@.len() == 0,
    {
        CrateMemberBuilder::default()
    }

    pub fn name(&self) -> (r: &str)
        ensures
            r@ == self.name@,
    {
        self.name.as_str()
    }

    pub fn path(&self) -> (r: &String)
        ensures
            r == &self.path,
    {
        &self.path
    }

    pub fn dependencies(&self) -> (r: &[Dependency])
        ensures
            r@ == self.dependencies@,
    {
        self.dependencies.as_slice()
    }

    pub fn dev_dependencies(&self) -> (r: &[Dependency])
        ensures
            r@ == self.dev_dependencies@,
    {
        self.dev_dependencies.as_slice()
    }

    pub fn build_dependencies(&self) -> (r: &[Dependency])
        ensures
            r@ == self.build_dependencies@,
    {
        self.build_dependencies.as_slice()
    }

    pub fn target_dependencies(&self) -> (r: &[(String, Vec<Dependency>)])
        ensures
            r@ == self.target_dependencies@,
    {
        self.target_dependencies.as_slice()
    }
}

/// Why a crate member could not be built.
#[derive(Debug, Clone, Copy, PartialEq, Eq, Structural)]
pub enum CrateMemberBuilderError {
    MissingName,
    MissingPath,
}

impl CrateMemberBuilderError {
    /// The error message.
    pub fn to_string(&self) -> (r: String)
        ensures
            r@ == match *self {
                CrateMemberBuilderError::MissingName => "CrateMember name is required"@,
                CrateMemberBuilderError::MissingPath => "CrateMember path is required"@,
            },
    {
        match self {
            CrateMemberBuilderError::MissingName => to_owned("CrateMember name is required"),
            CrateMemberBuilderError::MissingPath => to_owned("CrateMember path is required"),
        }
    }
}

/// Builder of a `CrateMember`; name and path are required.
pub struct CrateMemberBuilder {
    pub name: Option<String>,
    pub path: Option<String>,
    pub dependencies: Vec<Dependency>,
    pub dev_dependencies: Vec<Dependency>,
    pub build_dependencies: Vec<Dependency>,
    pub target_dependencies: Vec<(String, Vec<Dependency>)>,
}

impl Default for CrateMemberBuilder {
    fn default() -> (r: Self)
        ensures
            r.name is None && r.path is None,
            r.dependencies@.len() == 0 && r.dev_dependencies@.len() == 0 && r.build_dependencies@.len() == 0
                && r.target_dependencies@.len() == 0,
    {
        CrateMemberBuilder {
            name: None,
            path: None,
            dependencies: Vec::new(),
            dev_dependencies: Vec::new(),
            build_dependencies: Vec::new(),
            target_dependencies: Vec::new(),
        }
    }
}

impl CrateMemberBuilder {
    pub fn with_name(self, name: &str) -> (r: Self)
        ensures
            r.name matches Some(n) && n@ == name@,
            r.path == self.path && r.dependencies == self.dependencies && r.dev_dependencies == self.dev_dependencies
                && r.build_dependencies == self.build_dependencies && r.target_dependencies == self.target_dependencies,
    {
        CrateMemberBuilder { name: Some(to_owned(name)), ..self }
    }

    pub fn with_path(self, path: String) -> (r: Self)
        ensures
            r.path == Some(path),
            r.name == self.name && r.dependencies == self.dependencies && r.dev_dependencies == self.dev_dependencies
                && r.build_dependencies == self.build_dependencies && r.target_dependencies == self.target_dependencies,
    {
        CrateMemberBuilder { path: Some(path), ..self }
    }

    pub fn with_dependencies(self, deps: Vec<Dependency>) -> (r: Self)
        ensures
            r.dependencies == deps,
            r.name == self.name && r.path == self.path && r.dev_dependencies == self.dev_dependencies
                && r.build_dependencies == self.build_dependencies && r.target_dependencies == self.target_dependencies,
    {
        CrateMemberBuilder { dependencies: deps, ..self }
    }

    pub fn with_dev_dependencies(self, deps: Vec<Dependency>) -> (r: Self)
        ensures
            r.dev_dependencies == deps,
            r.name == self.name && r.path == self.path && r.dependencies == self.dependencies
                && r.build_dependencies == self.build_dependencies && r.target_dependencies == self.target_dependencies,
    {
        CrateMemberBuilder { dev_dependencies: deps, ..self }
    }

    pub fn with_build_dependencies(self, deps: Vec<Dependency>) -> (r: Self)
        ensures
            r.build_dependencies == deps,
            r.name == self.name && r.path == self.path && r.dependencies == self.dependencies
                && r.dev_dependencies == self.dev_dependencies && r.target_dependencies == self.target_dependencies,
    {
        CrateMemberBuilder { build_dependencies: deps, ..self }
    }

    pub fn with_target_dependencies(self, deps: Vec<(String, Vec<Dependency>)>) -> (r: Self)
        ensures
            r.target_dependencies == deps,
            r.name == self.name && r.path == self.path && r.dependencies == self.dependencies
                && r.dev_dependencies == self.dev_dependencies && r.build_dependencies == self.build_dependencies,
    {
        CrateMemberBuilder { target_dependencies: deps, ..self }
    }

    /// Appends a normal dependency.
    pub fn add_dependency(self, dep: Dependency) -> (r: Self)
        ensures
            r.dependencies@ == self.dependencies@.push(dep),
            r.name == self.name && r.path == self.path && r.dev_dependencies == self.dev_dependencies
                && r.build_dependencies == self.build_dependencies && r.target_dependencies == self.target_dependencies,
    {
        let mut b = self;
        b.dependencies.push(dep);
        b
    }

    /// Name and path are required, in that order.
    pub fn build(self) -> (r: Result<CrateMember, CrateMemberBuilderError>)
        ensures
            (self.name is Some && self.path is Some) <==> r is Ok,
            r matches Ok(m) ==> m.name == self.name.unwrap() && m.path == self.path.unwrap()
                && m.dependencies == self.dependencies && m.dev_dependencies == self.dev_dependencies
                && m.build_dependencies == self.build_dependencies && m.target_dependencies == self.target_dependencies,
            self.name is None ==> r == Err::<CrateMember, CrateMemberBuilderError>(CrateMemberBuilderError::MissingName),
            self.name is Some && self.path is None ==> r == Err::<CrateMember, CrateMemberBuilderError>(
                CrateMemberBuilderError::MissingPath),
    {
        let name = match self.name {
            Some(n) => n,
            None => return Err(CrateMemberBuilderError::MissingName),
        };
        let path = match self.path {
            Some(p) => p,
            None => return Err(CrateMemberBuilderError::MissingPath),
        };
        Ok(CrateMember {
            name,
            path,
            dependencies: self.dependencies,
            dev_dependencies: self.dev_dependencies,
            build_dependencies: self.build_dependencies,
            target_dependencies: self.target_dependencies,
        })
    }
}

/// An analysed workspace: its name, member crates, and whether it is a
/// standalone crate rather than a workspace.
pub struct WorkspaceInfo {
    pub name: String,
    pub members: Vec<CrateMember>,
    pub is_standalone: bool,
}

impl WorkspaceInfo {
    pub fn builder() -> (r: WorkspaceInfoBuilder)
        ensures
            r.name is None && r.members is None && r.is_standalone is None,
    {
        WorkspaceInfoBuilder::new()
    }

    pub fn members(&self) -> (r: &[CrateMember])
        ensures
            r@ == self.members@,
    {
        self.members.as_slice()
    }

    pub fn name(&self) -> (r: &str)
        ensures
            r@ == self.name@,
    {
        self.name.as_str()
    }

    pub fn is_standalone(&self) -> (r: bool)
        ensures
            r == self.is_standalone,
    {
        self.is_standalone
    }
}

/// Why a workspace could not be built.
#[derive(Debug, Clone, Copy, PartialEq, Eq, Structural)]
pub enum WorkspaceInfoBuilderError {
    MissingName,
    MissingMembers,
}

impl WorkspaceInfoBuilderError {
    /// The error message.
    pub fn to_string(&self) -> (r: String)
        ensures
            r@ == match *self {
                WorkspaceInfoBuilderError::MissingName => "Workspace name is required"@,
                WorkspaceInfoBuilderError::MissingMembers => "Workspace members are required"@,
            },
    {
        match self {
            WorkspaceInfoBuilderError::MissingName => to_owned("Workspace name is required"),
            WorkspaceInfoBuilderError::MissingMembers => to_owned("Workspace members are required"),
        }
    }
}

/// Builder of a `WorkspaceInfo`; name and members are required, standalone
/// defaults to false.
pub struct WorkspaceInfoBuilder {
    pub name: Option<String>,
    pub members: Option<Vec<CrateMember>>,
    pub is_standalone: Option<bool>,
}

impl Default for WorkspaceInfoBuilder {
    fn default() -> (r: Self)
        ensures
            r.name is None && r.members is None && r.is_standalone is None,
    {
        Self::new()
    }
}

impl WorkspaceInfoBuilder {
    pub fn new() -> (r: Self)
        ensures
            r.name is None && r.members is None && r.is_standalone is None,
    {
        WorkspaceInfoBuilder { name: None, members: None, is_standalone: None }
    }

    pub fn with_name(self, name: &str) -> (r: Self)
        ensures
            r.name matches Some(n) && n@ == name@,
            r.members == self.members && r.is_standalone == self.is_standalone,
    {
        WorkspaceInfoBuilder { name: Some(to_owned(name)), ..self }
    }

    pub fn with_members(self, members: Vec<CrateMember>) -> (r: Self)
        ensures
            r.members == Some(members),
            r.name == self.name && r.is_standalone == self.is_standalone,
    {
        WorkspaceInfoBuilder { members: Some(members), ..self }
    }

    pub fn with_is_standalone(self, is_standalone: bool) -> (r: Self)
        ensures
            r.is_standalone == Some(is_standalone),
            r.name == self.name && r.members == self.members,
    {
        WorkspaceInfoBuilder { is_standalone: Some(is_standalone), ..self }
    }

    /// Name and members are required, in that order.
    pub fn build(self) -> (r: Result<WorkspaceInfo, WorkspaceInfoBuilderError>)
        ensures
            (self.name is Some && self.members is Some) <==> r is Ok,
            r matches Ok(w) ==> w.name == self.name.unwrap() && w.members == self.members.unwrap()
                && w.is_standalone == match self.is_standalone { Some(b) => b, None => false },
            self.name is None ==> r == Err::<WorkspaceInfo, WorkspaceInfoBuilderError>(WorkspaceInfoBuilderError::MissingName),
            self.name is Some && self.members is None ==> r == Err::<WorkspaceInfo, WorkspaceInfoBuilderError>(
                WorkspaceInfoBuilderError::MissingMembers),
    {
        let name = match self.name {
            Some(n) => n,
            None => return Err(WorkspaceInfoBuilderError::MissingName),
        };
        let members = match self.members {
            Some(m) => m,
            None => return Err(WorkspaceInfoBuilderError::MissingMembers),
        };
        let is_standalone = match self.is_standalone {
            Some(b) => b,
            None => false,
        };
        Ok(WorkspaceInfo { name, members, is_standalone })
    }
}

/// The analysed workspaces: by path, with the workspaces of each crate name
/// (a sorted set), the paths at which each crate name was found, and the
/// workspace of each crate path.
pub struct WorkspaceAnalyzer {
    pub workspaces: Vec<(String, WorkspaceInfo)>,
    pub crate_to_workspace: Vec<(String, Vec<String>)>,
    pub crate_to_paths: Vec<(String, Vec<String>)>,
    pub crate_path_to_workspace: Vec<(String, String)>,
}

/// The view of an analyzer: workspaces, crate → workspaces, crate →
/// paths, crate path → workspace.
pub type AnalyzerView = (Seq<(String, WorkspaceInfo)>, Seq<(Seq<char>, Seq<Seq<char>>)>,
    Seq<(Seq<char>, Seq<Seq<char>>)>, Seq<(Seq<char>, Seq<char>)>);

impl View for WorkspaceAnalyzer {
    type V = AnalyzerView;

    open spec fn view(&self) -> AnalyzerView {
        (self.workspaces@, list_views(self.crate_to_workspace@), list_views(self.crate_to_paths@),
            str_pairs(self.crate_path_to_workspace@))
    }
}

/// The view of a processed workspace: its path, its info and the (crate,
/// workspace path) pairs of its members.
pub type ProcessedWorkspace = (String, WorkspaceInfo, Vec<(String, String)>);

/// Records the members of a workspace at `ws`: each member's path under its
/// name, and the workspace of each member path.
pub open spec fn merge_members(s: AnalyzerView, members: Seq<CrateMember>, ws: Seq<char>) -> AnalyzerView
    decreases members.len(),
{
    if members.len() == 0 {
        s
    } else {
        let p = merge_members(s, members.drop_last(), ws);
        let m = members.last();
        (p.0, p.1, push_to(p.2, m.name@, m.path@), put_str(p.3, m.path@, ws))
    }
}

/// Records the workspace of each crate of the mappings.
pub open spec fn merge_mappings(c2w: Seq<(Seq<char>, Seq<Seq<char>>)>, maps: Seq<(Seq<char>, Seq<char>)>) -> Seq<(Seq<char>, Seq<Seq<char>>)>
    decreases maps.len(),
{
    if maps.len() == 0 {
        c2w
    } else {
        add_to(merge_mappings(c2w, maps.drop_last()), maps.last().0, maps.last().1)
    }
}

/// Merges one processed workspace: members, then the workspace, then the
/// crate mappings.
pub open spec fn merge_one(s: AnalyzerView, r: ProcessedWorkspace) -> AnalyzerView {
    let s1 = merge_members(s, r.1.members@, r.0@);
    (put(s1.0, r.0, r.1), merge_mappings(s1.1, str_pairs(r.2@)), s1.2, s1.3)
}

/// Merges processed workspaces in order.
pub open spec fn merge_all(s: AnalyzerView, rs: Seq<ProcessedWorkspace>) -> AnalyzerView
    decreases rs.len(),
{
    if rs.len() == 0 { s } else { merge_one(merge_all(s, rs.drop_last()), rs.last()) }
}

/// The classification of a member's manifest in a workspace with the given
/// dependency paths.
pub open spec fn member_class(m: WorkspaceMember, ws_deps: Seq<(String, String)>) -> ClassView {
    classify_upto(all_entries(m.cargo_toml), pair_views(ws_deps), all_entries(m.cargo_toml).len())
}

/// The view of a crate member's dependencies.
pub open spec fn member_class_view(c: CrateMember) -> ClassView {
    DependencyClassifier { dependencies: c.dependencies, dev_dependencies: c.dev_dependencies,
        build_dependencies: c.build_dependencies, target_dependencies: c.target_dependencies }@
}

/// The crate member that analysing a discovered member gives.
pub open spec fn analyzed_member(c: CrateMember, m: WorkspaceMember, ws_deps: Seq<(String, String)>) -> bool {
    c.name@ == m.name@ && c.path@ == m.path@ && member_class_view(c) == member_class(m, ws_deps)
}

impl WorkspaceAnalyzer {
    pub fn new() -> (r: Self)
        ensures
            r@.0.len() == 0 && r@.1.len() == 0 && r@.2.len() == 0 && r@.3.len() == 0,
            sets_sorted(r.crate_to_workspace@),
    {
        WorkspaceAnalyzer {
            workspaces: Vec::new(),
            crate_to_workspace: Vec::new(),
            crate_to_paths: Vec::new(),
            crate_path_to_workspace: Vec::new(),
        }
    }

    pub fn workspaces(&self) -> (r: &[(String, WorkspaceInfo)])
        ensures
            r@ == self.workspaces@,
    {
        self.workspaces.as_slice()
    }

    pub fn crate_to_workspace(&self) -> (r: &[(String, Vec<String>)])
        ensures
            r@ == self.crate_to_workspace@,
    {
        self.crate_to_workspace.as_slice()
    }

    pub fn crate_to_paths(&self) -> (r: &[(String, Vec<String>)])
        ensures
            r@ == self.crate_to_paths@,
    {
        self.crate_to_paths.as_slice()
    }

    pub fn crate_path_to_workspace(&self) -> (r: &[(String, String)])
        ensures
            r@ == self.crate_path_to_workspace@,
    {
        self.crate_path_to_workspace.as_slice()
    }

    /// The crate member of a discovered member: its dependencies classified
    /// against the workspace's dependency paths.
    pub fn analyze_crate_member(member: &WorkspaceMember, workspace_deps: &[(String, String)]) -> (r: CrateMember)
        ensures
            analyzed_member(r, *member, workspace_deps@),
    {
        let classifier = DependencyClassifier::classify_from_toml(&member.cargo_toml, workspace_deps);
        CrateMember {
            name: dup(&member.name),
            path: dup(&member.path),
            dependencies: classifier.dependencies,
            dev_dependencies: classifier.dev_dependencies,
            build_dependencies: classifier.build_dependencies,
            target_dependencies: classifier.target_dependencies,
        }
    }

    /// A discovered root as a workspace: its path, its info with every member
    /// analysed, and each member's name paired with the root's path.
    pub fn process_workspace_root(root: &WorkspaceRoot) -> (r: ProcessedWorkspace)
        ensures
            r.0@ == root.path@,
            r.1.name@ == root.name@,
            r.1.is_standalone == root.is_standalone,
            r.1.members@.len() == root.members@.len(),
            forall|i: int| 0 <= i < root.members@.len() ==>
                analyzed_member(#[trigger] r.1.members@[i], root.members@[i], root.workspace_dependencies@),
            r.2@.len() == root.members@.len(),
            forall|i: int| #![trigger r.2@[i]] 0 <= i < root.members@.len() ==> r.2@[i].0@ == root.members@[i].name@
                && r.2@[i].1@ == root.path@,
    {
        let mut members: Vec<CrateMember> = Vec::new();
        let mut mappings: Vec<(String, String)> = Vec::new();
        for i in 0..root.members.len()
            invariant
                members@.len() == i,
                forall|j: int| 0 <= j < i ==>
                    analyzed_member(#[trigger] members@[j], root.members@[j], root.workspace_dependencies@),
                mappings@.len() == i,
                forall|j: int| #![trigger mappings@[j]] 0 <= j < i ==> mappings@[j].0@ == root.members@[j].name@
                    && mappings@[j].1@ == root.path@,
        {
            let m = Self::analyze_crate_member(&root.members[i], root.workspace_dependencies.as_slice());
            members.push(m);
            let ghost before = mappings@;
            let pair = (dup(&root.members[i].name), dup(&root.path));
            mappings.push(pair);
            assert(mappings@ == before.push(pair));
        }
        let info = WorkspaceInfo { name: dup(&root.name), members, is_standalone: root.is_standalone };
        (dup(&root.path), info, mappings)
    }

    fn merge_member_paths(&mut self, members: &[CrateMember], ws: &String)
        ensures
            final(self)@ == merge_members(old(self)@, members@, ws@),
            final(self).workspaces == old(self).workspaces,
            final(self).crate_to_workspace == old(self).crate_to_workspace,
    {
        for i in 0..members.len()
            invariant
                self@ == merge_members(old(self)@, members@.take(i as int), ws@),
                self.workspaces == old(self).workspaces,
                self.crate_to_workspace == old(self).crate_to_workspace,
        {
            assert(members@.take(i + 1).drop_last() =~= members@.take(i as int));
            push_entry(&mut self.crate_to_paths, dup(&members[i].name), dup(&members[i].path));
            put_str_entry(&mut self.crate_path_to_workspace, dup(&members[i].path), dup(ws));
        }
        assert(members@.take(members.len() as int) =~= members@);
    }

    /// Merges processed workspaces into the maps, in order; a workspace path
    /// seen again replaces the earlier entry.
    pub fn merge_results(&mut self, results: Vec<ProcessedWorkspace>)
        ensures
            final(self)@ == merge_all(old(self)@, results@),
            sets_sorted(old(self).crate_to_workspace@) ==> sets_sorted(final(self).crate_to_workspace@),
    {
        let mut k: usize = 0;
        let n = results.len();
        let mut rest = results;
        assert(rest@.skip(0) =~= rest@);
        let ghost all = rest@;
        let ghost start = self@;
        while rest.len() > 0
            invariant
                all.len() == k + rest@.len(),
                all.len() == n,
                rest@ == all.skip(k as int),
                self@ == merge_all(start, all.take(k as int)),
                sets_sorted(old(self).crate_to_workspace@) ==> sets_sorted(self.crate_to_workspace@),
            decreases rest@.len(),
        {
            let (path, info, maps) = rest.remove(0);
            assert(all[k as int] == (path, info, maps));
            assert(all.take(k + 1).drop_last() =~= all.take(k as int));
            let ghost before = self@;
            self.merge_member_paths(info.members.as_slice(), &path);
            let ghost mid = self@;
            for j in 0..maps.len()
                invariant
                    list_views(self.crate_to_workspace@) == merge_mappings(mid.1, str_pairs(maps@).take(j as int)),
                    sets_sorted(old(self).crate_to_workspace@) ==> sets_sorted(self.crate_to_workspace@),
                    self.workspaces@ == mid.0,
                    list_views(self.crate_to_paths@) == mid.2,
                    str_pairs(self.crate_path_to_workspace@) == mid.3,
            {
                assert(str_pairs(maps@).take(j + 1).drop_last() =~= str_pairs(maps@).take(j as int));
                add_entry(&mut self.crate_to_workspace, dup(&maps[j].0), dup(&maps[j].1));
            }
            assert(str_pairs(maps@).take(maps.len() as int) =~= str_pairs(maps@));
            put_entry(&mut self.workspaces, path, info);
            k = k + 1;
            assert(rest@ =~= all.skip(k as int));
        }
        assert(all.take(k as int) =~= all);
    }

    /// The number of workspaces and of standalone crates.
    pub fn count_workspace_types(&self) -> (r: (usize, usize))
        ensures
            r.0 + r.1 == self.workspaces@.len(),
            r.1 == standalone_count(self.workspaces@),
    {
        let mut standalone: usize = 0;
        for i in 0..self.workspaces.len()
            invariant
                standalone == standalone_count(self.workspaces@.take(i as int)),
                standalone <= i,
        {
            assert(self.workspaces@.take(i + 1).drop_last() =~= self.workspaces@.take(i as int));
            if self.workspaces[i].1.is_standalone {
                standalone = standalone + 1;
            }
        }
        assert(self.workspaces@.take(self.workspaces.len() as int) =~= self.workspaces@);
        (self.workspaces.len() - standalone, standalone)
    }

    /// Analyses discovered roots and merges them, in order.
    pub fn add_workspace_roots(&mut self, roots: &[WorkspaceRoot])
        ensures
            exists|rs: Seq<ProcessedWorkspace>| rs.len() == roots@.len() && final(self)@ == merge_all(old(self)@, rs)
                && forall|i: int| #![trigger rs[i]] 0 <= i < rs.len() ==> rs[i].0@ == roots@[i].path@
                    && rs[i].1.name@ == roots@[i].name@ && rs[i].1.is_standalone == roots@[i].is_standalone,
            sets_sorted(old(self).crate_to_workspace@) ==> sets_sorted(final(self).crate_to_workspace@),
    {
        let mut results: Vec<ProcessedWorkspace> = Vec::new();
        for i in 0..roots.len()
            invariant
                results@.len() == i,
                forall|j: int| #![trigger results@[j]] 0 <= j < i ==> results@[j].0@ == roots@[j].path@
                    && results@[j].1.name@ == roots@[j].name@ && results@[j].1.is_standalone == roots@[j].is_standalone,
        {
            let p = Self::process_workspace_root(&roots[i]);
            let ghost before = results@;
            results.push(p);
            assert(results@ == before.push(p));
        }
        let ghost rs = results@;
        self.merge_results(results);
        assert(rs.len() == roots@.len() && self@ == merge_all(old(self)@, rs)
            && forall|i: int| #![trigger rs[i]] 0 <= i < rs.len() ==> rs[i].0@ == roots@[i].path@
                && rs[i].1.name@ == roots@[i].name@ && rs[i].1.is_standalone == roots@[i].is_standalone);
    }
}

/// The number of standalone crates among the workspaces.
pub open spec fn standalone_count(ws: Seq<(String, WorkspaceInfo)>) -> nat
    decreases ws.len(),
{
    if ws.len() == 0 {
        0
    } else {
        standalone_count(ws.drop_last()) + if ws.last().1.is_standalone { 1nat } else { 0nat }
    }
}

impl Default for WorkspaceAnalyzer {
    fn default() -> (r: Self)
        ensures
            r@.0.len() == 0 && r@.1.len() == 0 && r@.2.len() == 0 && r@.3.len() == 0,
            sets_sorted(r.crate_to_workspace@),
    {
        Self::new()
    }
}

} // verus!
