//! The parts of a `Cargo.toml` manifest that the analysis reads. Tables are
//! held as lists of (key, value) entries, in the order the manifest was
//! read; reading and deserialising the file is left to the program.

use vstd::prelude::*;

use crate::text::{dup, dup_all, views};

verus! {

/// A parsed `Cargo.toml`.
pub struct CargoToml {
    pub package: Option<Package>,
    pub workspace: Option<Workspace>,
    pub dependencies: Option<Vec<(String, Dependency)>>,
    pub dev_dependencies: Option<Vec<(String, Dependency)>>,
    pub build_dependencies: Option<Vec<(String, Dependency)>>,
    pub target: Option<Vec<(String, TargetDependencies)>>,
}

/// The `[package]` table.
pub struct Package {
    pub name: String,
}

/// The `[workspace]` table.
pub struct Workspace {
    pub members: Option<Vec<String>>,
    pub exclude: Option<Vec<String>>,
    pub workspace_package: Option<WorkspacePackage>,
    pub dependencies: Option<Vec<(String, Dependency)>>,
}

/// The `[workspace.package]` table.
pub struct WorkspacePackage {
    pub version: Option<String>,
}

/// The dependency tables of a `[target.<cfg>]` table.
pub struct TargetDependencies {
    pub dependencies: Option<Vec<(String, Dependency)>>,
    pub dev_dependencies: Option<Vec<(String, Dependency)>>,
    pub build_dependencies: Option<Vec<(String, Dependency)>>,
}

/// A dependency: a version string, or a table.
#[derive(Clone)]
pub enum Dependency {
    Simple(String),
    Detailed(DetailedDependency),
}

/// A dependency given as a table.
#[derive(Clone)]
pub struct DetailedDependency {
    pub path: Option<String>,
    pub workspace: Option<bool>,
    pub version: Option<String>,
    pub features: Option<Vec<String>>,
    pub default_features: Option<bool>,
    pub optional: Option<bool>,
}

impl Dependency {
    /// Whether the dependency is inherited from the workspace.
    pub fn is_workspace_flag(&self) -> (r: bool)
        ensures
            r == dep_view(*self).1,
    {
        CargoToml::is_workspace_dependency(self)
    }
}

/// Which table a dependency comes from.
pub enum DependencyType {
    Normal,
    Dev,
    Build,
    Target(String),
    TargetDev(String),
    TargetBuild(String),
}

/// The view of a dependency: its path, and whether it is inherited from the
/// workspace.
pub open spec fn dep_view(d: Dependency) -> (Option<Seq<char>>, bool) {
    match d {
        Dependency::Simple(_) => (None, false),
        Dependency::Detailed(t) => (match t.path { Some(p) => Some(p@), None => None },
            match t.workspace { Some(w) => w, None => false }),
    }
}

/// The kind of a dependency table: 0 normal, 1 dev, 2 build, 3 to 5 the
/// same three under a target, with the target's name.
pub type TypeView = (int, Seq<char>);

/// The view of a dependency type.
pub open spec fn type_view(t: DependencyType) -> TypeView {
    match t {
        DependencyType::Normal => (0, Seq::empty()),
        DependencyType::Dev => (1, Seq::empty()),
        DependencyType::Build => (2, Seq::empty()),
        DependencyType::Target(s) => (3, s@),
        DependencyType::TargetDev(s) => (4, s@),
        DependencyType::TargetBuild(s) => (5, s@),
    }
}

/// One entry of the dependency list: name, dependency view and table.
pub type DepEntry = (Seq<char>, (Option<Seq<char>>, bool), TypeView);

/// The entries of one table, tagged with its kind.
pub open spec fn table_entries(t: Option<Vec<(String, Dependency)>>, kind: int, target: Seq<char>) -> Seq<DepEntry> {
    match t {
        Some(v) => v@.map_values(|e: (String, Dependency)| (e.0@, dep_view(e.1), (kind, target))),
        None => Seq::empty(),
    }
}

/// The entries of the target tables, target by target: normal, dev, build.
pub open spec fn target_entries(targets: Seq<(String, TargetDependencies)>) -> Seq<DepEntry>
    decreases targets.len(),
{
    if targets.len() == 0 {
        Seq::empty()
    } else {
        let (name, t) = targets.last();
        target_entries(targets.drop_last()) + table_entries(t.dependencies, 3, name@)
            + table_entries(t.dev_dependencies, 4, name@) + table_entries(t.build_dependencies, 5, name@)
    }
}

/// All dependency entries: normal, dev and build tables, then the targets.
pub open spec fn all_entries(c: CargoToml) -> Seq<DepEntry> {
    table_entries(c.dependencies, 0, Seq::empty()) + table_entries(c.dev_dependencies, 1, Seq::empty())
        + table_entries(c.build_dependencies, 2, Seq::empty())
        + match c.target { Some(t) => target_entries(t@), None => Seq::empty() }
}

/// The view of a list of dependency entries.
pub open spec fn entry_views(v: Seq<(String, Dependency, DependencyType)>) -> Seq<DepEntry> {
    v.map_values(|e: (String, Dependency, DependencyType)| (e.0@, dep_view(e.1), type_view(e.2)))
}

fn dup_type(t: &DependencyType) -> (r: DependencyType)
    ensures
        type_view(r) == type_view(*t),
{
    match t {
        DependencyType::Normal => DependencyType::Normal,
        DependencyType::Dev => DependencyType::Dev,
        DependencyType::Build => DependencyType::Build,
        DependencyType::Target(s) => DependencyType::Target(dup(s)),
        DependencyType::TargetDev(s) => DependencyType::TargetDev(dup(s)),
        DependencyType::TargetBuild(s) => DependencyType::TargetBuild(dup(s)),
    }
}

fn dup_dependency(d: &Dependency) -> (r: Dependency)
    ensures
        dep_view(r) == dep_view(*d),
{
    match d {
        Dependency::Simple(v) => Dependency::Simple(dup(v)),
        Dependency::Detailed(t) => Dependency::Detailed(DetailedDependency {
            path: match &t.path { Some(p) => Some(dup(p)), None => None },
            workspace: t.workspace,
            version: match &t.version { Some(p) => Some(dup(p)), None => None },
            features: match &t.features { Some(f) => Some(dup_all(f.as_slice())), None => None },
            default_features: t.default_features,
            optional: t.optional,
        }),
    }
}

fn push_table(all: &mut Vec<(String, Dependency, DependencyType)>, table: &Option<Vec<(String, Dependency)>>,
    kind: &DependencyType)
    ensures
        entry_views(final(all)@) == entry_views(old(all)@) + table_entries(*table, type_view(*kind).0, type_view(*kind).1),
{
    match table {
        Some(v) => {
            let ghost start = entry_views(all@);
            let ghost te = table_entries(*table, type_view(*kind).0, type_view(*kind).1);
            for i in 0..v.len()
                invariant
                    te == v@.map_values(|e: (String, Dependency)| (e.0@, dep_view(e.1), type_view(*kind))),
                    entry_views(all@) == start + te.take(i as int),
            {
                let entry = (dup(&v[i].0), dup_dependency(&v[i].1), dup_type(kind));
                let ghost before = all@;
                all.push(entry);
                assert(entry_views(all@) =~= entry_views(before).push((entry.0@, dep_view(entry.1), type_view(entry.2))));
                assert(te.take(i + 1) =~= te.take(i as int).push(te[i as int]));
            }
            assert(te.take(v.len() as int) =~= te);
        },
        None => {
            assert(entry_views(all@) =~= entry_views(old(all)@) + Seq::<DepEntry>::empty());
        },
    }
}

impl CargoToml {
    /// A workspace root has a `[workspace]` table and no `[package]`.
    pub fn is_workspace_root(&self) -> (r: bool)
        ensures
            r == (self.workspace is Some && self.package is None),
    {
        self.workspace.is_some() && self.package.is_none()
    }

    /// The workspace members, or none.
    pub fn get_workspace_members(&self) -> (r: Vec<String>)
        ensures
            views(r@) == match self.workspace {
                Some(w) => match w.members { Some(m) => views(m@), None => Seq::empty() },
                None => Seq::empty(),
            },
    {
        match &self.workspace {
            Some(w) => match &w.members {
                Some(m) => dup_all(m.as_slice()),
                None => Vec::new(),
            },
            None => Vec::new(),
        }
    }

    /// The workspace excludes, or none.
    pub fn get_workspace_excludes(&self) -> (r: Vec<String>)
        ensures
            views(r@) == match self.workspace {
                Some(w) => match w.exclude { Some(m) => views(m@), None => Seq::empty() },
                None => Seq::empty(),
            },
    {
        match &self.workspace {
            Some(w) => match &w.exclude {
                Some(m) => dup_all(m.as_slice()),
                None => Vec::new(),
            },
            None => Vec::new(),
        }
    }

    /// The workspace dependencies that have a path: (name, path), in order.
    pub fn get_workspace_dependencies(&self) -> (r: Vec<(String, String)>)
        ensures
            r@.map_values(|e: (String, String)| (e.0@, e.1@)) == match self.workspace {
                Some(w) => match w.dependencies {
                    Some(d) => path_entries(d@),
                    None => Seq::empty(),
                },
                None => Seq::empty(),
            },
    {
        let mut r: Vec<(String, String)> = Vec::new();
        match &self.workspace {
            Some(w) => match &w.dependencies {
                Some(d) => {
                    for i in 0..d.len()
                        invariant
                            r@.map_values(|e: (String, String)| (e.0@, e.1@)) == path_entries(d@.take(i as int)),
                    {
                        assert(d@.take(i + 1).drop_last() =~= d@.take(i as int));
                        let ghost before = r@;
                        match Self::extract_path(&d[i].1) {
                            Some(p) => {
                                r.push((dup(&d[i].0), p));
                                assert(r@.map_values(|e: (String, String)| (e.0@, e.1@)) =~=
                                    before.map_values(|e: (String, String)| (e.0@, e.1@)).push((d@[i as int].0@, p@)));
                            },
                            None => {},
                        }
                    }
                    assert(d@.take(d.len() as int) =~= d@);
                },
                None => {},
            },
            None => {},
        }
        r
    }

    /// Every dependency with its table: normal, dev and build tables, then
    /// each target's three tables.
    pub fn get_all_dependencies(&self) -> (r: Vec<(String, Dependency, DependencyType)>)
        ensures
            entry_views(r@) == all_entries(*self),
    {
        let mut all: Vec<(String, Dependency, DependencyType)> = Vec::new();
        push_table(&mut all, &self.dependencies, &DependencyType::Normal);
        push_table(&mut all, &self.dev_dependencies, &DependencyType::Dev);
        push_table(&mut all, &self.build_dependencies, &DependencyType::Build);
        assert(entry_views(all@) =~= table_entries(self.dependencies, 0, Seq::empty())
            + table_entries(self.dev_dependencies, 1, Seq::empty()) + table_entries(self.build_dependencies, 2, Seq::empty()));
        match &self.target {
            Some(targets) => {
                let ghost head = entry_views(all@);
                for i in 0..targets.len()
                    invariant
                        entry_views(all@) == head + target_entries(targets@.take(i as int)),
                {
                    assert(targets@.take(i + 1).drop_last() =~= targets@.take(i as int));
                    let name = &targets[i].0;
                    let t = &targets[i].1;
                    let ghost before = entry_views(all@);
                    push_table(&mut all, &t.dependencies, &DependencyType::Target(dup(name)));
                    push_table(&mut all, &t.dev_dependencies, &DependencyType::TargetDev(dup(name)));
                    push_table(&mut all, &t.build_dependencies, &DependencyType::TargetBuild(dup(name)));
                    assert(entry_views(all@) =~= head + target_entries(targets@.take(i + 1)));
                }
                assert(targets@.take(targets.len() as int) =~= targets@);
            },
            None => {},
        }
        all
    }

    /// The path of a dependency given as a table with a path.
    pub fn extract_path(dep: &Dependency) -> (r: Option<String>)
        ensures
            match r { Some(p) => Some(p@), None => None } == dep_view(*dep).0,
    {
        match dep {
            Dependency::Simple(_) => None,
            Dependency::Detailed(detailed) => match &detailed.path {
                Some(p) => Some(dup(p)),
                None => None,
            },
        }
    }

    /// Whether a dependency is inherited from the workspace
    /// (`workspace = true`).
    pub fn is_workspace_dependency(dep: &Dependency) -> (r: bool)
        ensures
            r == dep_view(*dep).1,
    {
        match dep {
            Dependency::Simple(_) => false,
            Dependency::Detailed(detailed) => match detailed.workspace {
                Some(w) => w,
                None => false,
            },
        }
    }
}

/// The (name, path) entries of the dependencies that have a path.
pub open spec fn path_entries(d: Seq<(String, Dependency)>) -> Seq<(Seq<char>, Seq<char>)>
    decreases d.len(),
{
    if d.len() == 0 {
        Seq::empty()
    } else {
        let prev = path_entries(d.drop_last());
        match dep_view(d.last().1).0 {
            Some(p) => prev.push((d.last().0@, p)),
            None => prev,
        }
    }
}

} // verus!
