//! Sorting the dependencies of a manifest into normal, dev, build and
//! target-specific ones, keeping only those that point into the analysed
//! tree: dependencies with a path, and workspace dependencies that the
//! workspace gives a path.

use vstd::prelude::*;

use crate::analyzer::analyzer_impl::{dep_views, Dependency, DependencyBuilder, DependencyBuilderError, DependencyView};
use crate::toml_parser::{all_entries, entry_views, type_view, CargoToml, DepEntry, Dependency as TomlDependency, DependencyType as TomlDependencyType, TypeView, dep_view};
use crate::text::{dup, str_eq};

verus! {

/// The value of the first entry with key `k`, if any.
pub open spec fn assoc_get(m: Seq<(Seq<char>, Seq<char>)>, k: Seq<char>) -> Option<Seq<char>>
    decreases m.len(),
{
    if m.len() == 0 {
        None
    } else if m[0].0 == k {
        Some(m[0].1)
    } else {
        assoc_get(m.drop_first(), k)
    }
}

/// The view of a list of (key, value) string pairs.
pub open spec fn pair_views(m: Seq<(String, String)>) -> Seq<(Seq<char>, Seq<char>)> {
    m.map_values(|e: (String, String)| (e.0@, e.1@))
}

/// Looks up the value of the first entry with key `k`.
pub fn assoc_lookup<'a>(m: &'a [(String, String)], k: &str) -> (r: Option<&'a String>)
    ensures
        match r { Some(v) => Some(v@), None => None } == assoc_get(pair_views(m@), k@),
{
    let ghost mv = pair_views(m@);
    let mut i: usize = 0;
    assert(mv.skip(0) =~= mv);
    while i < m.len()
        invariant
            mv == pair_views(m@),
            i <= m.len(),
            assoc_get(mv, k@) == assoc_get(mv.skip(i as int), k@),
        decreases m.len() - i,
    {
        assert(mv.skip(i as int)[0] == (m@[i as int].0@, m@[i as int].1@));
        if str_eq(m[i].0.as_str(), k) {
            return Some(&m[i].1);
        }
        assert(mv.skip(i as int).drop_first() =~= mv.skip(i + 1));
        i = i + 1;
    }
    assert(mv.skip(i as int) =~= Seq::<(Seq<char>, Seq<char>)>::empty());
    None
}

/// A dependency entry is relevant when it is a workspace dependency that
/// the workspace knows, or has a path of its own.
pub open spec fn is_relevant(e: DepEntry, ws: Seq<(Seq<char>, Seq<char>)>) -> bool {
    if e.1.1 { assoc_get(ws, e.0) is Some } else { e.1.0 is Some }
}

/// The target of a dependency table kind, for the target tables.
pub open spec fn target_of(t: TypeView) -> Option<Seq<char>> {
    if t.0 >= 3 { Some(t.1) } else { None }
}

/// The dependency made from a relevant entry: its name, its path (the
/// workspace's for a workspace dependency), and the table's target.
pub open spec fn entry_dependency(e: DepEntry, ws: Seq<(Seq<char>, Seq<char>)>) -> DependencyView {
    (e.0, if e.1.1 { assoc_get(ws, e.0) } else { e.1.0 }, e.1.1, target_of(e.2))
}

/// The view of a classification: normal, dev, build and target groups.
pub type ClassView = (Seq<DependencyView>, Seq<DependencyView>, Seq<DependencyView>, Seq<(Seq<char>, Seq<DependencyView>)>);

/// The index of the group of target `t`, or -1.
pub open spec fn target_index(m: Seq<(Seq<char>, Seq<DependencyView>)>, t: Seq<char>, n: nat) -> int
    decreases n,
{
    if n == 0 {
        -1
    } else {
        let i = target_index(m, t, (n - 1) as nat);
        if i >= 0 { i } else if m[n - 1].0 == t { n - 1 } else { -1 }
    }
}

/// `m` with `d` appended to the group of target `t`, or to a new group.
pub open spec fn target_add(m: Seq<(Seq<char>, Seq<DependencyView>)>, t: Seq<char>, d: DependencyView) -> Seq<(Seq<char>, Seq<DependencyView>)> {
    let i = target_index(m, t, m.len());
    if i >= 0 { m.update(i, (t, m[i].1.push(d))) } else { m.push((t, seq![d])) }
}

/// Where `add_dependency` puts a dependency of the given table kind.
pub open spec fn class_add(c: ClassView, d: DependencyView, t: TypeView) -> ClassView {
    if t.0 == 0 {
        (c.0.push(d), c.1, c.2, c.3)
    } else if t.0 == 1 {
        (c.0, c.1.push(d), c.2, c.3)
    } else if t.0 == 2 {
        (c.0, c.1, c.2.push(d), c.3)
    } else if t.0 == 3 {
        (c.0, c.1, c.2, target_add(c.3, t.1, d))
    } else {
        match d.3 {
            Some(target) => (c.0, c.1, c.2, target_add(c.3, target, d)),
            None => c,
        }
    }
}

/// The classification of the relevant entries among the first `n`.
pub open spec fn classify_upto(entries: Seq<DepEntry>, ws: Seq<(Seq<char>, Seq<char>)>, n: nat) -> ClassView
    decreases n,
{
    if n == 0 {
        (Seq::empty(), Seq::empty(), Seq::empty(), Seq::empty())
    } else {
        let prev = classify_upto(entries, ws, (n - 1) as nat);
        let e = entries[n - 1];
        if is_relevant(e, ws) { class_add(prev, entry_dependency(e, ws), e.2) } else { prev }
    }
}

/// The dependencies of a crate, sorted by kind.
pub struct DependencyClassifier {
    pub dependencies: Vec<Dependency>,
    pub dev_dependencies: Vec<Dependency>,
    pub build_dependencies: Vec<Dependency>,
    pub target_dependencies: Vec<(String, Vec<Dependency>)>,
}

impl View for DependencyClassifier {
    type V = ClassView;

    open spec fn view(&self) -> ClassView {
        (dep_views(self.dependencies@), dep_views(self.dev_dependencies@), dep_views(self.build_dependencies@),
            self.target_dependencies@.map_values(|g: (String, Vec<Dependency>)| (g.0@, dep_views(g.1@))))
    }
}

impl Default for DependencyClassifier {
    fn default() -> (r: Self)
        ensures
            r@ == (Seq::<DependencyView>::empty(), Seq::<DependencyView>::empty(), Seq::<DependencyView>::empty(),
                Seq::<(Seq<char>, Seq<DependencyView>)>::empty()),
    {
        Self::new()
    }
}

fn target_slot(m: &Vec<(String, Vec<Dependency>)>, t: &str) -> (r: Option<usize>)
    ensures
        r matches Some(i) ==> i < m@.len() && i as int == target_index(
            m@.map_values(|g: (String, Vec<Dependency>)| (g.0@, dep_views(g.1@))), t@, m@.len()),
        r is None ==> target_index(m@.map_values(|g: (String, Vec<Dependency>)| (g.0@, dep_views(g.1@))), t@, m@.len()) < 0,
{
    let ghost mv = m@.map_values(|g: (String, Vec<Dependency>)| (g.0@, dep_views(g.1@)));
    let mut i: usize = 0;
    while i < m.len()
        invariant
            mv == m@.map_values(|g: (String, Vec<Dependency>)| (g.0@, dep_views(g.1@))),
            i <= m.len(),
            target_index(mv, t@, i as nat) < 0,
        decreases m.len() - i,
    {
        assert(mv[i as int].0 == m@[i as int].0@);
        if str_eq(m[i].0.as_str(), t) {
            proof { lemma_target_index_stable(mv, t@, (i + 1) as nat, mv.len()); }
            return Some(i);
        }
        i = i + 1;
    }
    None
}

proof fn lemma_target_index_stable(m: Seq<(Seq<char>, Seq<DependencyView>)>, t: Seq<char>, a: nat, b: nat)
    requires
        a <= b,
        target_index(m, t, a) >= 0,
    ensures
        target_index(m, t, b) == target_index(m, t, a),
    decreases b - a,
{
    if a < b {
        lemma_target_index_stable(m, t, a, (b - 1) as nat);
    }
}

proof fn lemma_target_index_bounds(m: Seq<(Seq<char>, Seq<DependencyView>)>, t: Seq<char>, n: nat)
    requires
        n <= m.len(),
    ensures
        -1 <= target_index(m, t, n) < n,
        target_index(m, t, n) >= 0 ==> m[target_index(m, t, n)].0 == t,
    decreases n,
{
    if n > 0 {
        lemma_target_index_bounds(m, t, (n - 1) as nat);
    }
}

fn push_target(m: &mut Vec<(String, Vec<Dependency>)>, t: String, d: Dependency)
    ensures
        final(m)@.map_values(|g: (String, Vec<Dependency>)| (g.0@, dep_views(g.1@)))
            == target_add(old(m)@.map_values(|g: (String, Vec<Dependency>)| (g.0@, dep_views(g.1@))), t@, d@),
{
    let ghost mv = m@.map_values(|g: (String, Vec<Dependency>)| (g.0@, dep_views(g.1@)));
    match target_slot(m, t.as_str()) {
        Some(i) => {
            proof { lemma_target_index_bounds(mv, t@, mv.len()); }
            let (name, mut deps) = m.remove(i);
            let ghost before = deps@;
            deps.push(d);
            assert(dep_views(deps@) =~= dep_views(before).push(d@));
            m.insert(i, (name, deps));
            assert(m@.map_values(|g: (String, Vec<Dependency>)| (g.0@, dep_views(g.1@))) =~= target_add(mv, t@, d@));
        },
        None => {
            let mut deps: Vec<Dependency> = Vec::new();
            deps.push(d);
            assert(dep_views(deps@) =~= seq![d@]);
            m.push((t, deps));
            assert(m@.map_values(|g: (String, Vec<Dependency>)| (g.0@, dep_views(g.1@))) =~= target_add(mv, t@, d@));
        },
    }
}

impl DependencyClassifier {
    pub fn new() -> (r: Self)
        ensures
            r@ == (Seq::<DependencyView>::empty(), Seq::<DependencyView>::empty(), Seq::<DependencyView>::empty(),
                Seq::<(Seq<char>, Seq<DependencyView>)>::empty()),
    {
        let r = DependencyClassifier {
            dependencies: Vec::new(),
            dev_dependencies: Vec::new(),
            build_dependencies: Vec::new(),
            target_dependencies: Vec::new(),
        };
        assert(r@.0 =~= Seq::<DependencyView>::empty());
        assert(r@.1 =~= Seq::<DependencyView>::empty());
        assert(r@.2 =~= Seq::<DependencyView>::empty());
        assert(r@.3 =~= Seq::<(Seq<char>, Seq<DependencyView>)>::empty());
        r
    }

    pub fn dependencies(&self) -> (r: &[Dependency])
        ensures
            r@ == self.dependencies@,
    {
        self.dependencies.as_slice()
    }

    pub fn dev_dependencies(&self) -> (r: &[Dependency])
        ensures
            r@ == self.dev_dependencies@,
    {
        self.dev_dependencies.as_slice()
    }

    pub fn build_dependencies(&self) -> (r: &[Dependency])
        ensures
            r@ == self.build_dependencies@,
    {
        self.build_dependencies.as_slice()
    }

    pub fn target_dependencies(&self) -> (r: &[(String, Vec<Dependency>)])
        ensures
            r@ == self.target_dependencies@,
    {
        self.target_dependencies.as_slice()
    }

    /// The normal dependencies, to change in place.
    pub fn dependencies_mut(&mut self) -> (r: &mut Vec<Dependency>)
        ensures
            *r == old(self).dependencies,
            final(self).dependencies == *final(r),
            final(self).dev_dependencies == old(self).dev_dependencies,
            final(self).build_dependencies == old(self).build_dependencies,
            final(self).target_dependencies == old(self).target_dependencies,
    {
        &mut self.dependencies
    }

    /// The dev-dependencies, to change in place.
    pub fn dev_dependencies_mut(&mut self) -> (r: &mut Vec<Dependency>)
        ensures
            *r == old(self).dev_dependencies,
            final(self).dev_dependencies == *final(r),
            final(self).dependencies == old(self).dependencies,
            final(self).build_dependencies == old(self).build_dependencies,
            final(self).target_dependencies == old(self).target_dependencies,
    {
        &mut self.dev_dependencies
    }

    /// The build dependencies, to change in place.
    pub fn build_dependencies_mut(&mut self) -> (r: &mut Vec<Dependency>)
        ensures
            *r == old(self).build_dependencies,
            final(self).build_dependencies == *final(r),
            final(self).dependencies == old(self).dependencies,
            final(self).dev_dependencies == old(self).dev_dependencies,
            final(self).target_dependencies == old(self).target_dependencies,
    {
        &mut self.build_dependencies
    }

    /// The target-specific dependencies, by target, to change in place.
    pub fn target_dependencies_mut(&mut self) -> (r: &mut Vec<(String, Vec<Dependency>)>)
        ensures
            *r == old(self).target_dependencies,
            final(self).target_dependencies == *final(r),
            final(self).dependencies == old(self).dependencies,
            final(self).dev_dependencies == old(self).dev_dependencies,
            final(self).build_dependencies == old(self).build_dependencies,
    {
        &mut self.target_dependencies
    }

    /// Classifies the relevant dependencies of a manifest, in manifest order;
    /// `workspace_deps` maps the workspace's dependency names to their paths.
    pub fn classify_from_toml(cargo_toml: &CargoToml, workspace_deps: &[(String, String)]) -> (r: Self)
        ensures
            r@ == classify_upto(all_entries(*cargo_toml), pair_views(workspace_deps@), all_entries(*cargo_toml).len()),
    {
        let mut classifier = Self::new();
        let all = cargo_toml.get_all_dependencies();
        let ghost ev = entry_views(all@);
        let ghost ws = pair_views(workspace_deps@);
        for i in 0..all.len()
            invariant
                ev == entry_views(all@),
                ev == all_entries(*cargo_toml),
                ws == pair_views(workspace_deps@),
                classifier@ == classify_upto(ev, ws, i as nat),
        {
            let (name, dep, dep_type) = (&all[i].0, &all[i].1, &all[i].2);
            assert(ev[i as int] == (name@, dep_view(*dep), type_view(*dep_type)));
            if Self::is_relevant_dependency(name.as_str(), dep, workspace_deps) {
                match Self::create_dependency(name.as_str(), dep_type) {
                    Ok(d) => {
                        let path = if TomlDependency::is_workspace_flag(dep) {
                            match assoc_lookup(workspace_deps, name.as_str()) {
                                Some(p) => Some(dup(p)),
                                None => None,
                            }
                        } else {
                            CargoToml::extract_path(dep)
                        };
                        let d = Dependency {
                            name: d.name,
                            path,
                            is_workspace: TomlDependency::is_workspace_flag(dep),
                            target: d.target,
                        };
                        assert(d@ == entry_dependency(ev[i as int], ws));
                        classifier.add_dependency(d, dup_type(dep_type));
                    },
                    Err(_) => {},
                }
            }
        }
        classifier
    }

    /// Whether a dependency points into the analysed tree: a workspace
    /// dependency that the workspace gives a path, or one with a path.
    pub fn is_relevant_dependency(dep_name: &str, dep: &TomlDependency, workspace_deps: &[(String, String)]) -> (r: bool)
        ensures
            r == is_relevant((dep_name@, dep_view(*dep), (0, Seq::empty())), pair_views(workspace_deps@)),
    {
        if CargoToml::is_workspace_dependency(dep) {
            assoc_lookup(workspace_deps, dep_name).is_some()
        } else {
            CargoToml::extract_path(dep).is_some()
        }
    }

    /// A dependency with the given name, restricted to the target of the
    /// table kind for the target tables.
    pub fn create_dependency(dep_name: &str, dep_type: &TomlDependencyType) -> (r: Result<Dependency, DependencyBuilderError>)
        ensures
            r matches Ok(d) && d@ == (dep_name@, None::<Seq<char>>, false, target_of(type_view(*dep_type))),
    {
        let builder = Dependency::builder().with_name(dep_name);
        let builder = match dep_type {
            TomlDependencyType::Target(t) | TomlDependencyType::TargetDev(t) | TomlDependencyType::TargetBuild(t) => {
                builder.with_target(t.as_str())
            },
            _ => builder,
        };
        builder.build()
    }

    /// Files a dependency under its kind; target dependencies under their
    /// target (dev and build ones under the dependency's own target).
    pub fn add_dependency(&mut self, dependency: Dependency, dep_type: TomlDependencyType)
        ensures
            final(self)@ == class_add(old(self)@, dependency@, type_view(dep_type)),
    {
        let ghost d = dependency@;
        match dep_type {
            TomlDependencyType::Normal => {
                self.dependencies.push(dependency);
                assert(self@.0 =~= old(self)@.0.push(d));
            },
            TomlDependencyType::Dev => {
                self.dev_dependencies.push(dependency);
                assert(self@.1 =~= old(self)@.1.push(d));
            },
            TomlDependencyType::Build => {
                self.build_dependencies.push(dependency);
                assert(self@.2 =~= old(self)@.2.push(d));
            },
            TomlDependencyType::Target(target) => {
                push_target(&mut self.target_dependencies, target, dependency);
            },
            TomlDependencyType::TargetDev(_) | TomlDependencyType::TargetBuild(_) => {
                match &dependency.target {
                    Some(t) => {
                        let t = dup(t);
                        push_target(&mut self.target_dependencies, t, dependency);
                    },
                    None => {},
                }
            },
        }
    }
}

fn dup_type(t: &TomlDependencyType) -> (r: TomlDependencyType)
    ensures
        type_view(r) == type_view(*t),
{
    match t {
        TomlDependencyType::Normal => TomlDependencyType::Normal,
        TomlDependencyType::Dev => TomlDependencyType::Dev,
        TomlDependencyType::Build => TomlDependencyType::Build,
        TomlDependencyType::Target(s) => TomlDependencyType::Target(dup(s)),
        TomlDependencyType::TargetDev(s) => TomlDependencyType::TargetDev(dup(s)),
        TomlDependencyType::TargetBuild(s) => TomlDependencyType::TargetBuild(dup(s)),
    }
}

/// The list of a classification that holds the plain dependencies of table
/// kind `t` (0 normal, 1 dev, 2 build).
pub open spec fn kind_list(c: ClassView, t: int) -> Seq<DependencyView> {
    if t == 0 { c.0 } else if t == 1 { c.1 } else { c.2 }
}

/// The dependency an entry of a plain table stands for, when it points into
/// the analysed tree: a workspace dependency whose name the workspace gives a
/// path (with that path), or a dependency with a path of its own.
pub open spec fn tree_dependency(e: DepEntry, ws: Seq<(Seq<char>, Seq<char>)>) -> Option<DependencyView> {
    if e.1.1 {
        match assoc_get(ws, e.0) {
            Some(p) => Some((e.0, Some(p), true, None)),
            None => None,
        }
    } else {
        match e.1.0 {
            Some(p) => Some((e.0, Some(p), false, None)),
            None => None,
        }
    }
}

/// Whether one of the first `n` entries, of table kind `t`, stands for `x`.
pub open spec fn from_entry(entries: Seq<DepEntry>, ws: Seq<(Seq<char>, Seq<char>)>, n: nat, t: int, x: DependencyView) -> bool {
    exists|k: int| 0 <= k < n && #[trigger] entries[k].2.0 == t && tree_dependency(entries[k], ws) == Some(x)
}

/// Each plain (normal, dev or build) dependency of the first `n` entries
/// that points into the tree is in the list of its kind; every dependency
/// in those lists comes from an entry of that kind that points into the tree.
pub proof fn law_classified_dependencies(entries: Seq<DepEntry>, ws: Seq<(Seq<char>, Seq<char>)>, n: nat)
    requires
        n <= entries.len(),
    ensures
        forall|k: int, t: int| 0 <= k < n && 0 <= t <= 2 && (#[trigger] entries[k]).2.0 == t
            && tree_dependency(entries[k], ws) is Some
            ==> #[trigger] kind_list(classify_upto(entries, ws, n), t).contains(tree_dependency(entries[k], ws).unwrap()),
        forall|t: int, i: int| 0 <= t <= 2 && 0 <= i < kind_list(classify_upto(entries, ws, n), t).len() ==>
            from_entry(entries, ws, n, t, #[trigger] kind_list(classify_upto(entries, ws, n), t)[i]),
    decreases n,
{
    if n > 0 {
        law_classified_dependencies(entries, ws, (n - 1) as nat);
        let prev = classify_upto(entries, ws, (n - 1) as nat);
        let c = classify_upto(entries, ws, n);
        let e = entries[n - 1];
        assert forall|t: int| 0 <= t <= 2 implies
            (#[trigger] kind_list(c, t) == kind_list(prev, t) || (e.2.0 == t && is_relevant(e, ws)
                && kind_list(c, t) == kind_list(prev, t).push(entry_dependency(e, ws))))
        by {}
        assert forall|k: int, t: int| 0 <= k < n && 0 <= t <= 2 && (#[trigger] entries[k]).2.0 == t
            && tree_dependency(entries[k], ws) is Some
            implies #[trigger] kind_list(c, t).contains(tree_dependency(entries[k], ws).unwrap())
        by {
            if k < n - 1 {
                let x = tree_dependency(entries[k], ws).unwrap();
                assert(kind_list(prev, t).contains(x));
                let j = choose|j: int| 0 <= j < kind_list(prev, t).len() && kind_list(prev, t)[j] == x;
                assert(kind_list(c, t)[j] == x);
            } else {
                assert(kind_list(c, t).last() == tree_dependency(e, ws).unwrap());
            }
        }
        assert forall|t: int, i: int| 0 <= t <= 2 && 0 <= i < kind_list(c, t).len() implies
            from_entry(entries, ws, n, t, #[trigger] kind_list(c, t)[i])
        by {
            if i < kind_list(prev, t).len() {
                assert(kind_list(c, t)[i] == kind_list(prev, t)[i]);
                assert(from_entry(entries, ws, (n - 1) as nat, t, kind_list(prev, t)[i]));
                let k = choose|k: int| 0 <= k < n - 1 && #[trigger] entries[k].2.0 == t
                    && tree_dependency(entries[k], ws) == Some(kind_list(prev, t)[i]);
                assert(0 <= k < n && entries[k].2.0 == t && tree_dependency(entries[k], ws) == Some(kind_list(c, t)[i]));
            } else {
                assert(kind_list(c, t)[i] == entry_dependency(e, ws));
                assert(tree_dependency(entries[n - 1], ws) == Some(kind_list(c, t)[i]));
            }
        }
    }
}

} // verus!
