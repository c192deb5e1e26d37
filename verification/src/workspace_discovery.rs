//! Workspace discovery: what a directory with a manifest turns out to be (a
//! workspace root, a standalone crate, or neither), whether a crate lies in
//! a workspace's members, and the warnings collected on the way. Walking
//! the file system and reading manifests is left to the program, which
//! feeds the results in.

use vstd::prelude::*;

use crate::error::{is_config_error, FerrisWheelError};
use crate::paths::{
    file_name_of, joined_path, path_file_name, path_has_prefix, path_less, path_precedes, path_starts_with, path_strip_prefix, stripped_path,
};
use crate::toml_parser::{path_entries, CargoToml};
use crate::text::{dup, dup_all, push_str, str_eq, to_owned, views};

verus! {

/// A crate found in a workspace: its directory, name and manifest.
pub struct WorkspaceMember {
    pub path: String,
    pub name: String,
    pub cargo_toml: CargoToml,
}

impl WorkspaceMember {
    pub fn builder() -> (r: WorkspaceMemberBuilder)
        ensures
            r.path is None && r.name is None && r.cargo_toml is None,
    {
        WorkspaceMemberBuilder::default()
    }

    pub fn path(&self) -> (r: &String)
        ensures
            r == &self.path,
    {
        &self.path
    }

    pub fn name(&self) -> (r: &str)
        ensures
            r@ == self.name@,
    {
        self.name.as_str()
    }

    pub fn cargo_toml(&self) -> (r: &CargoToml)
        ensures
            r == &self.cargo_toml,
    {
        &self.cargo_toml
    }
}

/// Builder of a `WorkspaceMember`; every field is required.
pub struct WorkspaceMemberBuilder {
    pub path: Option<String>,
    pub name: Option<String>,
    pub cargo_toml: Option<CargoToml>,
}

impl Default for WorkspaceMemberBuilder {
    fn default() -> (r: Self)
        ensures
            r.path is None && r.name is None && r.cargo_toml is None,
    {
        WorkspaceMemberBuilder { path: None, name: None, cargo_toml: None }
    }
}

impl WorkspaceMemberBuilder {
    pub fn path(self, path: String) -> (r: Self)
        ensures
            r.path == Some(path) && r.name == self.name && r.cargo_toml == self.cargo_toml,
    {
        WorkspaceMemberBuilder { path: Some(path), ..self }
    }

    pub fn name(self, name: String) -> (r: Self)
        ensures
            r.name == Some(name) && r.path == self.path && r.cargo_toml == self.cargo_toml,
    {
        WorkspaceMemberBuilder { name: Some(name), ..self }
    }

    pub fn cargo_toml(self, cargo_toml: CargoToml) -> (r: Self)
        ensures
            r.cargo_toml == Some(cargo_toml) && r.path == self.path && r.name == self.name,
    {
        WorkspaceMemberBuilder { cargo_toml: Some(cargo_toml), ..self }
    }

    /// Path, name and manifest are required, in that order.
    pub fn build(self) -> (r: Result<WorkspaceMember, FerrisWheelError>)
        ensures
            (self.path is Some && self.name is Some && self.cargo_toml is Some) <==> r is Ok,
            r matches Ok(m) ==> m.path == self.path.unwrap() && m.name == self.name.unwrap()
                && m.cargo_toml == self.cargo_toml.unwrap(),
            self.path is None ==> (r matches Err(e) && is_config_error(e, "path is required"@)),
            self.path is Some && self.name is None ==> (r matches Err(e) && is_config_error(e, "name is required"@)),
            self.path is Some && self.name is Some && self.cargo_toml is None ==>
                (r matches Err(e) && is_config_error(e, "cargo_toml is required"@)),
    {
        let path = match self.path {
            Some(p) => p,
            None => return Err(FerrisWheelError::ConfigurationError { message: to_owned("path is required") }),
        };
        let name = match self.name {
            Some(n) => n,
            None => return Err(FerrisWheelError::ConfigurationError { message: to_owned("name is required") }),
        };
        let cargo_toml = match self.cargo_toml {
            Some(c) => c,
            None => return Err(FerrisWheelError::ConfigurationError { message: to_owned("cargo_toml is required") }),
        };
        Ok(WorkspaceMember { path, name, cargo_toml })
    }
}

/// Whether walking the file system skips a directory of this name: build
/// output, version control data and JavaScript packages.
pub fn is_skipped_dir(name: &str) -> (r: bool)
    ensures
        r == (name@ == "target"@ || name@ == ".git"@ || name@ == "node_modules"@),
{
    str_eq(name, "target") || str_eq(name, ".git") || str_eq(name, "node_modules")
}

/// Whether a member pattern is a glob to expand rather than one directory:
/// whether it holds a `*`.
pub fn is_glob_pattern(pattern: &str) -> (r: bool)
    ensures
        r == pattern@.contains('*'),
{
    let n = pattern.unicode_len();
    let mut i: usize = 0;
    while i < n
        invariant
            n == pattern@.len(),
            i <= n,
            forall|k: int| 0 <= k < i ==> pattern@[k] != '*',
        decreases n - i,
    {
        if pattern.get_char(i) == '*' {
            assert(pattern@[i as int] == '*');
            return true;
        }
        i = i + 1;
    }
    false
}

/// The member that the manifest of the directory at `path` describes: the
/// crate its package names; none where it has no package.
pub fn member_from_manifest(path: String, cargo_toml: CargoToml) -> (r: Option<WorkspaceMember>)
    ensures
        match cargo_toml.package {
            Some(p) => r matches Some(m) && m.path == path && m.name@ == p.name@ && m.cargo_toml == cargo_toml,
            None => r is None,
        },
{
    let name = match &cargo_toml.package {
        Some(p) => dup(&p.name),
        None => return None,
    };
    Some(WorkspaceMember { path, name, cargo_toml })
}

/// A workspace root or standalone crate found by discovery.
pub struct WorkspaceRoot {
    pub path: String,
    pub name: String,
    pub members: Vec<WorkspaceMember>,
    pub member_patterns: Vec<String>,
    pub exclude_patterns: Vec<String>,
    /// The workspace's dependencies that have a path: (name, path).
    pub workspace_dependencies: Vec<(String, String)>,
    pub is_standalone: bool,
}

impl WorkspaceRoot {
    pub fn builder() -> (r: WorkspaceRootBuilder)
        ensures
            r.path is None && r.name is None && r.members@.len() == 0 && r.member_patterns@.len() == 0
                && r.exclude_patterns@.len() == 0 && r.workspace_dependencies@.len() == 0 && !r.is_standalone,
    {
        WorkspaceRootBuilder::default()
    }

    pub fn path(&self) -> (r: &String)
        ensures
            r == &self.path,
    {
        &self.path
    }

    pub fn name(&self) -> (r: &str)
        ensures
            r@ == self.name@,
    {
        self.name.as_str()
    }

    pub fn members(&self) -> (r: &[WorkspaceMember])
        ensures
            r@ == self.members@,
    {
        self.members.as_slice()
    }

    pub fn workspace_dependencies(&self) -> (r: &[(String, String)])
        ensures
            r@ == self.workspace_dependencies@,
    {
        self.workspace_dependencies.as_slice()
    }

    pub fn is_standalone(&self) -> (r: bool)
        ensures
            r == self.is_standalone,
    {
        self.is_standalone
    }

    pub fn member_patterns(&self) -> (r: &[String])
        ensures
            r@ == self.member_patterns@,
    {
        self.member_patterns.as_slice()
    }

    pub fn exclude_patterns(&self) -> (r: &[String])
        ensures
            r@ == self.exclude_patterns@,
    {
        self.exclude_patterns.as_slice()
    }
}

/// Builder of a `WorkspaceRoot`; path and name are required.
pub struct WorkspaceRootBuilder {
    pub path: Option<String>,
    pub name: Option<String>,
    pub members: Vec<WorkspaceMember>,
    pub member_patterns: Vec<String>,
    pub exclude_patterns: Vec<String>,
    pub workspace_dependencies: Vec<(String, String)>,
    pub is_standalone: bool,
}

impl Default for WorkspaceRootBuilder {
    fn default() -> (r: Self)
        ensures
            r.path is None && r.name is None && r.members@.len() == 0 && r.member_patterns@.len() == 0
                && r.exclude_patterns@.len() == 0 && r.workspace_dependencies@.len() == 0 && !r.is_standalone,
    {
        WorkspaceRootBuilder {
            path: None,
            name: None,
            members: Vec::new(),
            member_patterns: Vec::new(),
            exclude_patterns: Vec::new(),
            workspace_dependencies: Vec::new(),
            is_standalone: false,
        }
    }
}

impl WorkspaceRootBuilder {
    pub fn path(self, path: String) -> (r: Self)
        ensures
            r == (Self { path: Some(path), ..self }),
    {
        Self { path: Some(path), ..self }
    }

    pub fn name(self, name: String) -> (r: Self)
        ensures
            r == (Self { name: Some(name), ..self }),
    {
        Self { name: Some(name), ..self }
    }

    pub fn members(self, members: Vec<WorkspaceMember>) -> (r: Self)
        ensures
            r == (Self { members, ..self }),
    {
        Self { members, ..self }
    }

    pub fn workspace_dependencies(self, deps: Vec<(String, String)>) -> (r: Self)
        ensures
            r == (Self { workspace_dependencies: deps, ..self }),
    {
        Self { workspace_dependencies: deps, ..self }
    }

    pub fn with_is_standalone(self, is_standalone: bool) -> (r: Self)
        ensures
            r == (Self { is_standalone, ..self }),
    {
        Self { is_standalone, ..self }
    }

    pub fn member_patterns(self, patterns: Vec<String>) -> (r: Self)
        ensures
            r == (Self { member_patterns: patterns, ..self }),
    {
        Self { member_patterns: patterns, ..self }
    }

    pub fn exclude_patterns(self, patterns: Vec<String>) -> (r: Self)
        ensures
            r == (Self { exclude_patterns: patterns, ..self }),
    {
        Self { exclude_patterns: patterns, ..self }
    }

    /// Path and name are required, in that order.
    pub fn build(self) -> (r: Result<WorkspaceRoot, &'static str>)
        ensures
            (self.path is Some && self.name is Some) <==> r is Ok,
            r matches Ok(w) ==> w.path == self.path.unwrap() && w.name == self.name.unwrap()
                && w.members == self.members && w.member_patterns == self.member_patterns
                && w.exclude_patterns == self.exclude_patterns
                && w.workspace_dependencies == self.workspace_dependencies && w.is_standalone == self.is_standalone,
            self.path is None ==> (r matches Err(m) && m@ == "path is required"@),
            self.path is Some && self.name is None ==> (r matches Err(m) && m@ == "name is required"@),
    {
        let path = match self.path {
            Some(p) => p,
            None => return Err("path is required"),
        };
        let name = match self.name {
            Some(n) => n,
            None => return Err("name is required"),
        };
        Ok(WorkspaceRoot {
            path,
            name,
            members: self.members,
            member_patterns: self.member_patterns,
            exclude_patterns: self.exclude_patterns,
            workspace_dependencies: self.workspace_dependencies,
            is_standalone: self.is_standalone,
        })
    }
}

/// What `glob::Pattern::new` and `Pattern::matches` give for a pattern and
/// a text: whether the pattern compiles, and whether the text matches it.
pub uninterp spec fn glob_outcome(pattern: Seq<char>, text: Seq<char>) -> Option<bool>;

/// Calls `glob::Pattern::new` on the pattern and, where it compiles,
/// `Pattern::matches` on the text; `None` where the pattern does not
/// compile. The outcome depends on the two strings alone.
#[verifier::external_body]
fn glob_match(pattern: &str, text: &str) -> (r: Option<bool>)
    ensures
        r == glob_outcome(pattern@, text@),
{
    glob::Pattern::new(pattern).ok().map(|p| p.matches(text))
}

/// A workspace root kept for member checks: its directory and its member
/// and exclude patterns.
pub struct DiscoveredWorkspace {
    pub path: String,
    pub member_patterns: Vec<String>,
    pub exclude_patterns: Vec<String>,
}

/// Whether a path relative to the workspace at `workspace_path` matches a
/// member or exclude pattern: where the pattern compiles as a glob, whether
/// it matches the joined path, else the relative one; where it does not,
/// whether the relative path begins with the pattern's components.
pub open spec fn pattern_matches(workspace_path: Seq<char>, relative_path: Seq<char>, pattern: Seq<char>) -> bool {
    match glob_outcome(pattern, joined_path(workspace_path, relative_path)) {
        Some(true) => true,
        Some(false) => match glob_outcome(pattern, relative_path) {
            Some(m) => m,
            None => false,
        },
        None => match glob_outcome(pattern, relative_path) {
            Some(m) => m,
            None => path_has_prefix(relative_path, pattern),
        },
    }
}

/// Whether an exclude pattern of the workspace matches the relative path.
pub open spec fn excluded(workspace_path: Seq<char>, rel: Seq<char>, w: DiscoveredWorkspace) -> bool {
    exists|k: int| 0 <= k < w.exclude_patterns@.len() && pattern_matches(workspace_path, rel, #[trigger] w.exclude_patterns@[k]@)
}

/// Whether a member pattern of the workspace matches the relative path.
pub open spec fn included(workspace_path: Seq<char>, rel: Seq<char>, w: DiscoveredWorkspace) -> bool {
    exists|k: int| 0 <= k < w.member_patterns@.len() && pattern_matches(workspace_path, rel, #[trigger] w.member_patterns@[k]@)
}

/// Whether the crate at `crate_path` is a member of the workspace: the
/// workspace's directory is a leading part of its path, and the rest of
/// its path is matched by no exclude pattern and by some member pattern.
pub open spec fn member_of(crate_path: Seq<char>, w: DiscoveredWorkspace) -> bool {
    path_has_prefix(crate_path, w.path@) && match stripped_path(crate_path, w.path@) {
        Some(rel) => !excluded(w.path@, rel, w) && included(w.path@, rel, w),
        None => false,
    }
}

/// The warning given for a standalone crate that lies within a workspace.
pub open spec fn skip_warning(name: Seq<char>, path: Seq<char>) -> Seq<char> {
    "Skipping '"@ + name + "' at "@ + path + " - it's a workspace member with an incorrect Cargo.lock"@
}

/// The state of discovery: the directories already taken as roots, the
/// warnings collected, and the workspaces found so far.
pub struct WorkspaceDiscovery {
    pub discovered_roots: Vec<String>,
    pub warnings: Vec<String>,
    pub discovered_workspaces: Vec<DiscoveredWorkspace>,
}

/// The candidates whose flag is not set, in order.
pub open spec fn kept_roots(c: Seq<WorkspaceRoot>, flags: Seq<bool>) -> Seq<WorkspaceRoot>
    decreases c.len(),
{
    if c.len() == 0 || flags.len() != c.len() {
        Seq::empty()
    } else if flags.last() {
        kept_roots(c.drop_last(), flags.drop_last())
    } else {
        kept_roots(c.drop_last(), flags.drop_last()).push(c.last())
    }
}

/// The warnings for the candidates whose flag is set, in order.
pub open spec fn skipped_warnings(c: Seq<WorkspaceRoot>, flags: Seq<bool>) -> Seq<Seq<char>>
    decreases c.len(),
{
    if c.len() == 0 || flags.len() != c.len() {
        Seq::empty()
    } else if flags.last() {
        skipped_warnings(c.drop_last(), flags.drop_last()).push(skip_warning(c.last().name@, c.last().path@))
    } else {
        skipped_warnings(c.drop_last(), flags.drop_last())
    }
}

impl WorkspaceDiscovery {
    pub fn new() -> (r: Self)
        ensures
            r.discovered_roots@.len() == 0,
            r.warnings@.len() == 0,
            r.discovered_workspaces@.len() == 0,
    {
        WorkspaceDiscovery { discovered_roots: Vec::new(), warnings: Vec::new(), discovered_workspaces: Vec::new() }
    }

    /// The warnings collected so far.
    pub fn warnings(&self) -> (r: &[String])
        ensures
            r@ == self.warnings@,
    {
        self.warnings.as_slice()
    }

    /// Adds a warning.
    pub fn add_warning(&mut self, warning: String)
        ensures
            final(self).warnings@ == old(self).warnings@.push(warning),
            final(self).discovered_roots == old(self).discovered_roots,
            final(self).discovered_workspaces == old(self).discovered_workspaces,
    {
        self.warnings.push(warning);
    }

    /// Whether the directory was taken as a root already.
    pub fn is_root(&self, dir: &str) -> (r: bool)
        ensures
            r == views(self.discovered_roots@).contains(dir@),
    {
        crate::text::contains_str(self.discovered_roots.as_slice(), dir)
    }

    /// Takes the directory as a root, unless it was one already; says
    /// whether it was new.
    pub fn mark_root(&mut self, dir: &str) -> (r: bool)
        ensures
            r == !views(old(self).discovered_roots@).contains(dir@),
            views(final(self).discovered_roots@) == if r {
                views(old(self).discovered_roots@).push(dir@)
            } else {
                views(old(self).discovered_roots@)
            },
            final(self).warnings == old(self).warnings,
            final(self).discovered_workspaces == old(self).discovered_workspaces,
    {
        if self.is_root(dir) {
            false
        } else {
            self.discovered_roots.push(to_owned(dir));
            assert(views(self.discovered_roots@) =~= views(old(self).discovered_roots@).push(dir@));
            true
        }
    }

    /// Keeps a workspace root for member checks.
    pub fn track_workspace(&mut self, root: &WorkspaceRoot)
        ensures
            final(self).discovered_workspaces@.len() == old(self).discovered_workspaces@.len() + 1,
            forall|i: int| 0 <= i < old(self).discovered_workspaces@.len() ==>
                final(self).discovered_workspaces@[i] == old(self).discovered_workspaces@[i],
            ({
                let w = final(self).discovered_workspaces@.last();
                w.path@ == root.path@ && views(w.member_patterns@) == views(root.member_patterns@)
                    && views(w.exclude_patterns@) == views(root.exclude_patterns@)
            }),
            final(self).discovered_roots == old(self).discovered_roots,
            final(self).warnings == old(self).warnings,
    {
        self.discovered_workspaces.push(DiscoveredWorkspace {
            path: dup(&root.path),
            member_patterns: dup_all(root.member_patterns.as_slice()),
            exclude_patterns: dup_all(root.exclude_patterns.as_slice()),
        });
    }

    /// Whether a path relative to a workspace matches a member or exclude
    /// pattern: a pattern that compiles is matched against the path joined
    /// to the workspace root, then against the relative path; one that
    /// does not is compared with the relative path component by component.
    pub fn matches_pattern(workspace_path: &str, relative_path: &str, pattern: &str) -> (r: bool)
        ensures
            r == pattern_matches(workspace_path@, relative_path@, pattern@),
    {
        let full = crate::paths::path_join(workspace_path, relative_path);
        match glob_match(pattern, full.as_str()) {
            Some(true) => true,
            Some(false) => match glob_match(pattern, relative_path) {
                Some(m) => m,
                None => false,
            },
            None => match glob_match(pattern, relative_path) {
                Some(m) => m,
                None => path_starts_with(relative_path, pattern),
            },
        }
    }

    /// Whether a crate lies in a workspace's members: within its directory,
    /// matched by no exclude pattern and by some member pattern.
    pub fn is_member_of_workspace(crate_path: &str, workspace: &DiscoveredWorkspace) -> (r: bool)
        ensures
            r == member_of(crate_path@, *workspace),
    {
        if !path_starts_with(crate_path, workspace.path.as_str()) {
            return false;
        }
        let relative = match path_strip_prefix(crate_path, workspace.path.as_str()) {
            Some(rel) => rel,
            None => return false,
        };
        let ghost wp = workspace.path@;
        let ghost rel = relative@;
        for i in 0..workspace.exclude_patterns.len()
            invariant
                wp == workspace.path@,
                rel == relative@,
                path_has_prefix(crate_path@, wp),
                stripped_path(crate_path@, wp) == Some(rel),
                forall|k: int| 0 <= k < i ==> !pattern_matches(wp, rel, #[trigger] workspace.exclude_patterns@[k]@),
        {
            if Self::matches_pattern(workspace.path.as_str(), relative.as_str(), workspace.exclude_patterns[i].as_str()) {
                assert(excluded(wp, rel, *workspace));
                return false;
            }
        }
        for i in 0..workspace.member_patterns.len()
            invariant
                wp == workspace.path@,
                rel == relative@,
                path_has_prefix(crate_path@, wp),
                stripped_path(crate_path@, wp) == Some(rel),
                !excluded(wp, rel, *workspace),
                forall|k: int| 0 <= k < i ==> !pattern_matches(wp, rel, #[trigger] workspace.member_patterns@[k]@),
        {
            if Self::matches_pattern(workspace.path.as_str(), relative.as_str(), workspace.member_patterns[i].as_str()) {
                assert(included(wp, rel, *workspace));
                return true;
            }
        }
        false
    }

    /// Whether a crate lies in the members of any workspace found so far.
    pub fn is_path_workspace_member(&self, crate_path: &str) -> (r: bool)
        ensures
            r == in_some_workspace(self.discovered_workspaces@, crate_path@),
    {
        for i in 0..self.discovered_workspaces.len()
            invariant
                forall|k: int| 0 <= k < i ==> !member_of(crate_path@, #[trigger] self.discovered_workspaces@[k]),
        {
            if Self::is_member_of_workspace(crate_path, &self.discovered_workspaces[i]) {
                return true;
            }
        }
        false
    }

    /// What a directory with a manifest turns out to be: a workspace root
    /// (named after the directory, its members still to be found), a
    /// standalone crate (named after its package, with itself as its one
    /// member), or neither.
    pub fn root_from_manifest(dir: &str, cargo_toml: CargoToml) -> (r: Option<WorkspaceRoot>)
        ensures
            cargo_toml.workspace is Some && cargo_toml.package is None ==> (r matches Some(w) && w.path@ == dir@
                && !w.is_standalone && w.members@.len() == 0
                && views(w.member_patterns@) == match cargo_toml.workspace {
                    Some(ws) => match ws.members { Some(m) => views(m@), None => Seq::empty() },
                    None => Seq::empty(),
                }
                && views(w.exclude_patterns@) == match cargo_toml.workspace {
                    Some(ws) => match ws.exclude { Some(m) => views(m@), None => Seq::empty() },
                    None => Seq::empty(),
                }
                && w.name@ == match file_name_of(dir@) {
                    Some(n) => n,
                    None => Seq::empty(),
                }
                && w.workspace_dependencies@.map_values(|e: (String, String)| (e.0@, e.1@)) == match cargo_toml.workspace {
                    Some(ws) => match ws.dependencies { Some(d) => path_entries(d@), None => Seq::empty() },
                    None => Seq::empty(),
                }),
            !(cargo_toml.workspace is Some && cargo_toml.package is None) ==> match cargo_toml.package {
                Some(p) => r matches Some(w) && w.path@ == dir@ && w.name@ == p.name@ && w.is_standalone
                    && w.members@.len() == 1 && w.members@[0].path@ == dir@ && w.members@[0].name@ == p.name@
                    && w.members@[0].cargo_toml == cargo_toml
                    && w.member_patterns@.len() == 0 && w.exclude_patterns@.len() == 0
                    && w.workspace_dependencies@.len() == 0,
                None => r is None,
            },
    {
        if cargo_toml.is_workspace_root() {
            let name = match path_file_name(dir) {
                Some(n) => n,
                None => String::new(),
            };
            assert(name@ == match file_name_of(dir@) {
                Some(n) => n,
                None => Seq::<char>::empty(),
            });
            let member_patterns = cargo_toml.get_workspace_members();
            let exclude_patterns = cargo_toml.get_workspace_excludes();
            let workspace_dependencies = cargo_toml.get_workspace_dependencies();
            Some(WorkspaceRoot {
                path: to_owned(dir),
                name,
                members: Vec::new(),
                member_patterns,
                exclude_patterns,
                workspace_dependencies,
                is_standalone: false,
            })
        } else {
            match &cargo_toml.package {
                Some(package) => {
                    let name = dup(&package.name);
                    let root_name = dup(&package.name);
                    let ghost toml = cargo_toml;
                    let member = WorkspaceMember { path: to_owned(dir), name, cargo_toml };
                    let mut members: Vec<WorkspaceMember> = Vec::new();
                    members.push(member);
                    Some(WorkspaceRoot {
                        path: to_owned(dir),
                        name: root_name,
                        members,
                        member_patterns: Vec::new(),
                        exclude_patterns: Vec::new(),
                        workspace_dependencies: Vec::new(),
                        is_standalone: true,
                    })
                },
                None => None,
            }
        }
    }

    /// Settles the standalone candidates: one that lies in the members of a
    /// workspace found so far is skipped with a warning; the others are
    /// kept, in order.
    pub fn settle_standalone(&mut self, candidates: Vec<WorkspaceRoot>) -> (r: Vec<WorkspaceRoot>)
        ensures
            r@ == kept_roots(candidates@, member_flags(old(self).discovered_workspaces@, candidates@)),
            views(final(self).warnings@) == views(old(self).warnings@) + skipped_warnings(candidates@,
                member_flags(old(self).discovered_workspaces@, candidates@)),
            final(self).discovered_roots == old(self).discovered_roots,
            final(self).discovered_workspaces == old(self).discovered_workspaces,
    {
        let ghost all = candidates@;
        let ghost w0 = views(self.warnings@);
        let n = candidates.len();
        let mut rest = candidates;
        let mut kept: Vec<WorkspaceRoot> = Vec::new();
        let ghost mut flags: Seq<bool> = Seq::empty();
        let mut i: usize = 0;
        while rest.len() > 0
            invariant
                n == all.len(),
                i + rest@.len() == all.len(),
                rest@ == all.skip(i as int),
                flags.len() == i,
                flags == member_flags(self.discovered_workspaces@, all.take(i as int)),
                kept@ == kept_roots(all.take(i as int), flags),
                views(self.warnings@) == w0 + skipped_warnings(all.take(i as int), flags),
                self.discovered_roots == old(self).discovered_roots,
                self.discovered_workspaces == old(self).discovered_workspaces,
                w0 == views(old(self).warnings@),
            decreases rest@.len(),
        {
            let root = rest.remove(0);
            let ghost old_flags = flags;
            let ghost old_kept = kept@;
            assert(root == all[i as int]);
            assert(all.take(i + 1).drop_last() =~= all.take(i as int));
            assert(all.take(i + 1).last() == all[i as int]);
            assert(rest@ =~= all.skip(i + 1));
            assert(member_flags(self.discovered_workspaces@, all.take(i + 1)) =~= member_flags(self.discovered_workspaces@,
                all.take(i as int)).push(in_some_workspace(self.discovered_workspaces@, root.path@)));
            if self.is_path_workspace_member(root.path.as_str()) {
                let mut warning = String::new();
                push_str(&mut warning, "Skipping '");
                push_str(&mut warning, root.name.as_str());
                push_str(&mut warning, "' at ");
                push_str(&mut warning, root.path.as_str());
                push_str(&mut warning, " - it's a workspace member with an incorrect Cargo.lock");
                assert(warning@ =~= skip_warning(root.name@, root.path@));
                let ghost before = views(self.warnings@);
                self.warnings.push(warning);
                assert(views(self.warnings@) =~= before.push(skip_warning(root.name@, root.path@)));
                proof { flags = flags.push(true); }
                assert(flags.drop_last() =~= old_flags);
                assert(kept@ == kept_roots(all.take(i + 1), flags));
                assert(views(self.warnings@) == w0 + skipped_warnings(all.take(i + 1), flags)) by {
                    assert(skipped_warnings(all.take(i + 1), flags) == skipped_warnings(all.take(i as int), old_flags).push(
                        skip_warning(all[i as int].name@, all[i as int].path@)));
                }
            } else {
                kept.push(root);
                proof { flags = flags.push(false); }
                assert(flags.drop_last() =~= old_flags);
                assert(kept@ =~= old_kept.push(all[i as int]));
                assert(kept@ == kept_roots(all.take(i + 1), flags));
                assert(skipped_warnings(all.take(i + 1), flags) == skipped_warnings(all.take(i as int), old_flags));
            }
            i = i + 1;
        }
        assert(all.take(all.len() as int) =~= all);
        kept
    }
}

/// Whether the crate at path `p` is a member of one of the workspaces.
pub open spec fn in_some_workspace(dw: Seq<DiscoveredWorkspace>, p: Seq<char>) -> bool {
    exists|k: int| 0 <= k < dw.len() && member_of(p, #[trigger] dw[k])
}

/// For each candidate, whether it lies in the members of one of the
/// workspaces (and so is skipped).
pub open spec fn member_flags(dw: Seq<DiscoveredWorkspace>, candidates: Seq<WorkspaceRoot>) -> Seq<bool> {
    candidates.map_values(|c: WorkspaceRoot| in_some_workspace(dw, c.path@))
}

/// Whether each root's path does not come before the path of the root just
/// before it: the roots are in the order of their paths, compared
/// component by component.
pub open spec fn roots_in_path_order(s: Seq<WorkspaceRoot>) -> bool {
    forall|i: int, j: int| #![trigger s[i], s[j]] 0 <= i && j == i + 1 && j < s.len() ==> !path_precedes(s[j].path@, s[i].path@)
}

/// The roots ordered by path, compared component by component: each root
/// is kept, as often as given, and no root's path comes before the path of
/// the root just before it.
pub fn sort_roots(roots: Vec<WorkspaceRoot>) -> (r: Vec<WorkspaceRoot>)
    ensures
        r@.to_multiset() == roots@.to_multiset(),
        roots_in_path_order(r@),
{
    broadcast use vstd::multiset::group_multiset_axioms;
    let ghost all = roots@;
    let mut rest = roots;
    let mut out: Vec<WorkspaceRoot> = Vec::new();
    assert(out@.to_multiset().add(rest@.to_multiset()) =~= all.to_multiset()) by {
        vstd::seq_lib::to_multiset_len(out@);
        vstd::multiset::lemma_multiset_empty_len(out@.to_multiset());
    }
    while rest.len() > 0
        invariant
            out@.to_multiset().add(rest@.to_multiset()) == all.to_multiset(),
            roots_in_path_order(out@),
        decreases rest@.len(),
    {
        let ghost r0 = rest@;
        let root = rest.remove(0);
        proof {
            vstd::seq_lib::to_multiset_remove(r0, 0);
            vstd::seq_lib::to_multiset_contains(r0, r0[0]);
        }
        let mut i: usize = 0;
        while i < out.len()
            invariant
                i <= out@.len(),
                forall|k: int| 0 <= k < i ==> !path_precedes(root.path@, #[trigger] out@[k].path@),
            ensures
                i <= out@.len(),
                forall|k: int| 0 <= k < i ==> !path_precedes(root.path@, #[trigger] out@[k].path@),
                i < out@.len() ==> !path_precedes(out@[i as int].path@, root.path@),
            decreases out@.len() - i,
        {
            if path_less(root.path.as_str(), out[i].path.as_str()) {
                break;
            }
            i = i + 1;
        }
        let ghost o0 = out@;
        let ghost x = root;
        out.insert(i, root);
        proof {
            vstd::seq_lib::to_multiset_insert(o0, i as int, r0[0]);
            let n = out@;
            assert forall|p: int, q: int| #![trigger n[p], n[q]] 0 <= p && q == p + 1 && q < n.len() implies
                !path_precedes(n[q].path@, n[p].path@) by {
                if q < i {
                    assert(n[p] == o0[p] && n[q] == o0[q]);
                } else if q == i {
                    assert(n[p] == o0[p] && n[q] == x);
                } else if p == i {
                    assert(n[p] == x && n[q] == o0[p]);
                } else {
                    assert(n[p] == o0[p - 1] && n[q] == o0[p]);
                    assert(o0[p - 1] == o0[p - 1] && o0[p] == o0[p]);
                }
            }
        }
        assert(out@.to_multiset().add(rest@.to_multiset()) =~= all.to_multiset());
    }
    proof {
        vstd::seq_lib::to_multiset_len(rest@);
        vstd::multiset::lemma_multiset_empty_len(rest@.to_multiset());
    }
    assert(out@.to_multiset() =~= all.to_multiset());
    out
}

} // verus!
