//! Which crates and workspaces a set of changed files affects: the crates
//! the files belong to, and every crate that depends on those, directly or
//! through others.

use vstd::prelude::*;

use crate::analyzer::analyzer_impl::{CrateMember, Dependency, WorkspaceInfo};
use crate::commands::deps::first_workspace;
use crate::analyzer::dependency_classifier::{assoc_get, assoc_lookup, pair_views};
use crate::dependency_filter::DependencyFilter;
use crate::error::FerrisWheelError;
use crate::graph::builder::{flat_members, flatten_members};
use crate::graph::reach::{arc_ints, arcs_within, lemma_reaches_plus_first, lemma_reaches_plus_step, reachable_from, reaches_plus};
use crate::paths::{
    absolute_path, file_name_of, joined_path, parent_path, path_file_name, path_has_prefix, path_is_absolute, path_join,
    path_parent, path_starts_with,
};
use crate::text::{dup, insert_sorted_unique, lemma_sorted_insert_props, lemma_sorted_set_props, seq_lt, sorted_insert, sorted_set, str_eq, str_lt, strictly_sorted, to_owned, views};

verus! {

/// A crate, identified by its name and its canonical path.
#[derive(Debug, Clone, PartialEq, Eq, Hash, PartialOrd, Ord)]
pub struct CrateId {
    pub name: String,
    pub path: String,
}

impl View for CrateId {
    type V = (Seq<char>, Seq<char>);

    open spec fn view(&self) -> (Seq<char>, Seq<char>) {
        (self.name@, self.path@)
    }
}

impl CrateId {
    pub fn new(name: String, path: String) -> (r: Self)
        ensures
            r.name@ == name@,
            r.path@ == path@,
    {
        CrateId { name, path }
    }

    pub fn name(&self) -> (r: &str)
        ensures
            r@ == self.name@,
    {
        self.name.as_str()
    }

    pub fn path(&self) -> (r: &str)
        ensures
            r@ == self.path@,
    {
        self.path.as_str()
    }

    /// A copy of the identifier.
    pub fn duplicate(&self) -> (r: CrateId)
        ensures
            r@ == self@,
    {
        CrateId { name: dup(&self.name), path: dup(&self.path) }
    }
}

/// The views of a list of crate identifiers.
pub open spec fn id_views(v: Seq<CrateId>) -> Seq<(Seq<char>, Seq<char>)> {
    v.map_values(|c: CrateId| c@)
}

/// The canonical form of a path: its entry in the table, or the path itself
/// where it has none.
pub open spec fn canon(table: Seq<(Seq<char>, Seq<char>)>, p: Seq<char>) -> Seq<char> {
    match assoc_get(table, p) {
        Some(c) => c,
        None => p,
    }
}

/// The canonical form of a path.
pub fn canonical(table: &[(String, String)], p: &str) -> (r: String)
    ensures
        r@ == canon(pair_views(table@), p@),
{
    match assoc_lookup(table, p) {
        Some(c) => dup(c),
        None => to_owned(p),
    }
}

/// The crate of each member, in member order: its name and canonical path.
pub open spec fn member_ids(ws: Seq<(String, WorkspaceInfo)>, table: Seq<(Seq<char>, Seq<char>)>) -> Seq<(Seq<char>, Seq<char>)> {
    flat_members(ws).map_values(|e: (int, CrateMember)| (e.1.name@, canon(table, e.1.path@)))
}

/// The workspace path of each member's crate: the one recorded for its
/// canonical path, or else the path of the workspace it was found in.
pub open spec fn member_workspaces(
    ws: Seq<(String, WorkspaceInfo)>,
    c2w: Seq<(Seq<char>, Seq<char>)>,
    table: Seq<(Seq<char>, Seq<char>)>,
) -> Seq<Seq<char>> {
    flat_members(ws).map_values(|e: (int, CrateMember)|
        match assoc_get(c2w, canon(table, e.1.path@)) {
            Some(w) => w,
            None => ws[e.0].0@,
        })
}

/// The last of the first `n` crates whose path is `p`, or -1.
pub open spec fn path_node(ids: Seq<(Seq<char>, Seq<char>)>, p: Seq<char>, n: nat) -> int
    decreases n,
{
    if n == 0 {
        -1
    } else if ids[n - 1].1 == p {
        n - 1
    } else {
        path_node(ids, p, (n - 1) as nat)
    }
}

/// The last of the first `n` crates with the identifier `id`, or -1.
pub open spec fn id_node(ids: Seq<(Seq<char>, Seq<char>)>, id: (Seq<char>, Seq<char>), n: nat) -> int
    decreases n,
{
    if n == 0 {
        -1
    } else if ids[n - 1] == id {
        n - 1
    } else {
        id_node(ids, id, (n - 1) as nat)
    }
}

/// How many of the first `n` crates are named `x`.
pub open spec fn name_count(ids: Seq<(Seq<char>, Seq<char>)>, x: Seq<char>, n: nat) -> nat
    decreases n,
{
    if n == 0 {
        0
    } else {
        name_count(ids, x, (n - 1) as nat) + if ids[n - 1].0 == x { 1nat } else { 0nat }
    }
}

/// The last of the first `n` crates named `x`, or -1.
pub open spec fn name_node(ids: Seq<(Seq<char>, Seq<char>)>, x: Seq<char>, n: nat) -> int
    decreases n,
{
    if n == 0 {
        -1
    } else if ids[n - 1].0 == x {
        n - 1
    } else {
        name_node(ids, x, (n - 1) as nat)
    }
}

/// The crate a dependency without a path names: the only crate of that
/// name, if exactly one exists.
pub open spec fn named_target(ids: Seq<(Seq<char>, Seq<char>)>, x: Seq<char>) -> Option<int> {
    if name_count(ids, x, ids.len()) == 1 { Some(name_node(ids, x, ids.len())) } else { None }
}

/// A path made absolute: itself where it is absolute, else joined to `base`.
pub open spec fn absolute_from(base: Seq<char>, p: Seq<char>) -> Seq<char> {
    if absolute_path(p) { p } else { joined_path(base, p) }
}

/// Whether either path is made of the first whole components of the other.
pub open spec fn paths_nested(a: Seq<char>, b: Seq<char>) -> bool {
    path_has_prefix(a, b) || path_has_prefix(b, a)
}

/// The first of the first `n` crates whose path and `p` are nested, or -1.
pub open spec fn first_nested(ids: Seq<(Seq<char>, Seq<char>)>, p: Seq<char>, n: nat) -> int
    decreases n,
{
    if n == 0 {
        -1
    } else if first_nested(ids, p, (n - 1) as nat) >= 0 {
        first_nested(ids, p, (n - 1) as nat)
    } else if paths_nested(p, ids[n - 1].1) {
        n - 1
    } else {
        -1
    }
}

proof fn lemma_first_nested_stable(ids: Seq<(Seq<char>, Seq<char>)>, p: Seq<char>, a: nat, b: nat)
    requires
        a <= b,
        first_nested(ids, p, a) >= 0,
    ensures
        first_nested(ids, p, b) == first_nested(ids, p, a),
    decreases b - a,
{
    if a < b {
        lemma_first_nested_stable(ids, p, a, (b - 1) as nat);
    }
}

proof fn lemma_first_nested_bound(ids: Seq<(Seq<char>, Seq<char>)>, p: Seq<char>, n: nat)
    ensures
        first_nested(ids, p, n) < n,
    decreases n,
{
    if n > 0 {
        lemma_first_nested_bound(ids, p, (n - 1) as nat);
    }
}

/// The crate a dependency of the crate at `from_path`, in the workspace at
/// `workspace_path`, stands for. Without a path: the only crate of its
/// name. With one: the path made absolute against the workspace root
/// (`workspace = true`) or the crate, canonicalised, is looked up among the
/// crate paths (the last crate with it); failing that, the path before
/// canonicalising; failing that, the first crate whose path and it are
/// nested stands for the last crate with that crate's path.
pub open spec fn resolved_crate(ids: Seq<(Seq<char>, Seq<char>)>, dep: Dependency, from_path: Seq<char>,
    workspace_path: Seq<char>, table: Seq<(Seq<char>, Seq<char>)>) -> Option<int>
{
    match dep.path {
        None => named_target(ids, dep.name@),
        Some(dp) => {
            let absolute = absolute_from(if dep.is_workspace { workspace_path } else { from_path }, dp@);
            let cp = canon(table, absolute);
            if path_node(ids, cp, ids.len()) >= 0 {
                Some(path_node(ids, cp, ids.len()))
            } else if path_node(ids, absolute, ids.len()) >= 0 {
                Some(path_node(ids, absolute, ids.len()))
            } else if first_nested(ids, cp, ids.len()) >= 0 {
                Some(path_node(ids, ids[first_nested(ids, cp, ids.len())].1, ids.len()))
            } else {
                None
            }
        },
    }
}

/// The arcs from crate `from` to the crates that the first `n` dependencies
/// resolve to, in order.
pub open spec fn dependency_arcs(ids: Seq<(Seq<char>, Seq<char>)>, deps: Seq<Dependency>, from: int, from_path: Seq<char>,
    workspace_path: Seq<char>, table: Seq<(Seq<char>, Seq<char>)>, n: nat) -> Seq<(int, int)>
    decreases n,
{
    if n == 0 {
        Seq::empty()
    } else {
        let prev = dependency_arcs(ids, deps, from, from_path, workspace_path, table, (n - 1) as nat);
        match resolved_crate(ids, deps[n - 1], from_path, workspace_path, table) {
            Some(k) => prev.push((from, k)),
            None => prev,
        }
    }
}

/// The arcs from crate `from` for the first `n` groups of target-specific
/// dependencies, in order.
pub open spec fn target_dependency_arcs(ids: Seq<(Seq<char>, Seq<char>)>, groups: Seq<(String, Vec<Dependency>)>, from: int,
    from_path: Seq<char>, workspace_path: Seq<char>, table: Seq<(Seq<char>, Seq<char>)>, n: nat) -> Seq<(int, int)>
    decreases n,
{
    if n == 0 {
        Seq::empty()
    } else {
        target_dependency_arcs(ids, groups, from, from_path, workspace_path, table, (n - 1) as nat)
            + dependency_arcs(ids, groups[n - 1].1@, from, from_path, workspace_path, table, groups[n - 1].1@.len())
    }
}

/// The arcs of the `k`-th member: from its crate (the last one with its
/// canonical path) to what its normal dependencies resolve to, then its
/// dev, build and target-specific ones unless the filter leaves them out.
pub open spec fn member_arcs(ws: Seq<(String, WorkspaceInfo)>, table: Seq<(Seq<char>, Seq<char>)>, filter: DependencyFilter,
    k: int) -> Seq<(int, int)>
{
    let ids = member_ids(ws, table);
    let m = flat_members(ws)[k].1;
    let wp = ws[flat_members(ws)[k].0].0@;
    let cp = canon(table, m.path@);
    let from = path_node(ids, cp, ids.len());
    dependency_arcs(ids, m.dependencies@, from, cp, wp, table, m.dependencies@.len())
        + (if filter.excludes_dev() { Seq::empty() } else {
            dependency_arcs(ids, m.dev_dependencies@, from, cp, wp, table, m.dev_dependencies@.len())
        })
        + (if filter.excludes_build() { Seq::empty() } else {
            dependency_arcs(ids, m.build_dependencies@, from, cp, wp, table, m.build_dependencies@.len())
        })
        + (if filter.excludes_target() { Seq::empty() } else {
            target_dependency_arcs(ids, m.target_dependencies@, from, cp, wp, table, m.target_dependencies@.len())
        })
}

/// The arcs of the first `n` members, in member order.
pub open spec fn crate_arcs(ws: Seq<(String, WorkspaceInfo)>, table: Seq<(Seq<char>, Seq<char>)>, filter: DependencyFilter,
    n: nat) -> Seq<(int, int)>
    decreases n,
{
    if n == 0 {
        Seq::empty()
    } else {
        crate_arcs(ws, table, filter, (n - 1) as nat) + member_arcs(ws, table, filter, n - 1)
    }
}

/// The arcs with their direction turned round.
pub open spec fn reversed(arcs: Seq<(usize, usize)>) -> Seq<(usize, usize)> {
    arcs.map_values(|e: (usize, usize)| (e.1, e.0))
}

/// The crate-level dependency graph of the analysed workspaces, with the
/// workspace each crate belongs to.
pub struct AffectedAnalysis<'a> {
    pub workspaces: &'a [(String, WorkspaceInfo)],
    pub crates: Vec<CrateId>,
    pub crate_workspaces: Vec<String>,
    pub arcs: Vec<(usize, usize)>,
}

/// Looks up the last crate with the given path.
fn find_path_node(crates: &Vec<CrateId>, p: &str) -> (r: Option<usize>)
    ensures
        match r {
            Some(k) => k as int == path_node(id_views(crates@), p@, crates@.len()) && k < crates@.len(),
            None => path_node(id_views(crates@), p@, crates@.len()) < 0,
        },
{
    let ghost ids = id_views(crates@);
    let mut found: Option<usize> = None;
    for k in 0..crates.len()
        invariant
            ids == id_views(crates@),
            match found {
                Some(j) => j as int == path_node(ids, p@, k as nat) && j < k,
                None => path_node(ids, p@, k as nat) < 0,
            },
    {
        if str_eq(crates[k].path.as_str(), p) {
            found = Some(k);
        }
    }
    found
}

/// Looks up the last crate with the given identifier.
fn find_id_node(crates: &Vec<CrateId>, id: &CrateId) -> (r: Option<usize>)
    ensures
        match r {
            Some(k) => k as int == id_node(id_views(crates@), id@, crates@.len()) && k < crates@.len(),
            None => id_node(id_views(crates@), id@, crates@.len()) < 0,
        },
{
    let ghost ids = id_views(crates@);
    let mut found: Option<usize> = None;
    for k in 0..crates.len()
        invariant
            ids == id_views(crates@),
            match found {
                Some(j) => j as int == id_node(ids, id@, k as nat) && j < k,
                None => id_node(ids, id@, k as nat) < 0,
            },
    {
        if str_eq(crates[k].name.as_str(), id.name.as_str()) && str_eq(crates[k].path.as_str(), id.path.as_str()) {
            found = Some(k);
        }
    }
    found
}

proof fn lemma_path_node_found(ids: Seq<(Seq<char>, Seq<char>)>, p: Seq<char>, j: int, n: nat)
    requires
        0 <= j < n <= ids.len(),
        ids[j].1 == p,
    ensures
        j <= path_node(ids, p, n) < n,
    decreases n,
{
    if n - 1 != j {
        lemma_path_node_found(ids, p, j, (n - 1) as nat);
    }
}

proof fn lemma_path_node_hit(ids: Seq<(Seq<char>, Seq<char>)>, p: Seq<char>, n: nat)
    requires
        n <= ids.len(),
    ensures
        path_node(ids, p, n) >= 0 ==> ids[path_node(ids, p, n)].1 == p,
    decreases n,
{
    if n > 0 {
        lemma_path_node_hit(ids, p, (n - 1) as nat);
    }
}

proof fn lemma_path_node_bound(ids: Seq<(Seq<char>, Seq<char>)>, p: Seq<char>, n: nat)
    requires
        n <= ids.len(),
    ensures
        path_node(ids, p, n) < n,
    decreases n,
{
    if n > 0 {
        lemma_path_node_bound(ids, p, (n - 1) as nat);
    }
}

proof fn lemma_name_node_bounds(ids: Seq<(Seq<char>, Seq<char>)>, x: Seq<char>, n: nat)
    requires
        n <= ids.len(),
    ensures
        name_node(ids, x, n) < n,
        name_count(ids, x, n) > 0 ==> name_node(ids, x, n) >= 0,
    decreases n,
{
    if n > 0 {
        lemma_name_node_bounds(ids, x, (n - 1) as nat);
    }
}

/// The crate a dependency without a path names.
fn find_named(crates: &Vec<CrateId>, x: &str) -> (r: Option<usize>)
    ensures
        match named_target(id_views(crates@), x@) {
            Some(k) => r == Some(k as usize),
            None => r is None,
        },
        r matches Some(k) ==> k < crates@.len(),
{
    let ghost ids = id_views(crates@);
    let mut count: usize = 0;
    let mut last: Option<usize> = None;
    for k in 0..crates.len()
        invariant
            ids == id_views(crates@),
            count as nat == name_count(ids, x@, k as nat),
            count <= k,
            last is None ==> count == 0,
            match last {
                Some(j) => j as int == name_node(ids, x@, k as nat) && j < k,
                None => name_node(ids, x@, k as nat) < 0,
            },
    {
        if str_eq(crates[k].name.as_str(), x) {
            count = count + 1;
            last = Some(k);
        }
    }
    if count == 1 {
        last
    } else {
        None
    }
}

impl<'a> AffectedAnalysis<'a> {
    /// Every crate has a workspace path and every arc joins two crates.
    pub open spec fn wf(&self) -> bool {
        &&& self.crates@.len() == self.crate_workspaces@.len()
        &&& arcs_within(self.arcs@, self.crates@.len())
    }

    /// The identifiers of the crates.
    pub open spec fn ids(&self) -> Seq<(Seq<char>, Seq<char>)> {
        id_views(self.crates@)
    }

    /// The analysed workspaces with their paths.
    pub fn workspaces(&self) -> (r: &[(String, WorkspaceInfo)])
        ensures
            r@ == self.workspaces@,
    {
        self.workspaces
    }

    /// The crate that a dependency of the crate at `from_path`, in the
    /// workspace at `workspace_path`, stands for. A dependency without a
    /// path names the only crate of its name, if exactly one exists. A
    /// dependency with a path is resolved against the workspace root
    /// (`workspace = true`) or the crate's own directory, canonicalised, and
    /// looked up among the crate paths: exactly, and failing that by the
    /// first crate path that contains it or lies within it.
    fn resolve_dependency(
        crates: &Vec<CrateId>,
        dep: &Dependency,
        from_path: &str,
        workspace_path: &str,
        canonical_paths: &[(String, String)],
    ) -> (r: Option<usize>)
        ensures
            r matches Some(k) ==> k < crates@.len(),
            match resolved_crate(id_views(crates@), *dep, from_path@, workspace_path@, pair_views(canonical_paths@)) {
                Some(k) => 0 <= k < crates@.len() && r == Some(k as usize),
                None => r is None,
            },
    {
        let ghost ids = id_views(crates@);
        let ghost table = pair_views(canonical_paths@);
        match &dep.path {
            None => {
                proof { lemma_name_node_bounds(ids, dep.name@, ids.len()); }
                find_named(crates, dep.name.as_str())
            },
            Some(dep_path) => {
                let base = if dep.is_workspace { workspace_path } else { from_path };
                let absolute = if path_is_absolute(dep_path.as_str()) {
                    dup(dep_path)
                } else {
                    path_join(base, dep_path.as_str())
                };
                let canon_path = canonical(canonical_paths, absolute.as_str());
                if let Some(k) = find_path_node(crates, canon_path.as_str()) {
                    return Some(k);
                }
                if let Some(k) = find_path_node(crates, absolute.as_str()) {
                    return Some(k);
                }
                proof {
                    lemma_path_node_bound(ids, canon_path@, ids.len());
                    lemma_path_node_bound(ids, absolute@, ids.len());
                }
                for k in 0..crates.len()
                    invariant
                        dep.path == Some(*dep_path),
                        ids == id_views(crates@),
                        table == pair_views(canonical_paths@),
                        base@ == (if dep.is_workspace { workspace_path@ } else { from_path@ }),
                        absolute@ == absolute_from(base@, dep_path@),
                        canon_path@ == canon(table, absolute@),
                        path_node(ids, canon_path@, ids.len()) < 0,
                        path_node(ids, absolute@, ids.len()) < 0,
                        first_nested(ids, canon_path@, k as nat) < 0,
                {
                    let candidate = crates[k].path.as_str();
                    assert(ids[k as int].1 == candidate@);
                    if path_starts_with(canon_path.as_str(), candidate) || path_starts_with(candidate, canon_path.as_str()) {
                        proof {
                            lemma_path_node_found(id_views(crates@), candidate@, k as int, crates@.len());
                            assert(first_nested(ids, canon_path@, (k + 1) as nat) == k);
                            lemma_first_nested_stable(ids, canon_path@, (k + 1) as nat, crates@.len());
                        }
                        return find_path_node(crates, candidate);
                    }
                }
                None
            },
        }
    }

    /// Adds an arc from `from` for each dependency in `deps` that resolves
    /// to a crate, when `enabled` holds.
    fn connect_dependencies(
        crates: &Vec<CrateId>,
        arcs: &mut Vec<(usize, usize)>,
        deps: &[Dependency],
        enabled: bool,
        from: usize,
        from_path: &str,
        workspace_path: &str,
        canonical_paths: &[(String, String)],
    )
        requires
            from < crates@.len(),
            arcs_within(old(arcs)@, crates@.len()),
        ensures
            arcs_within(final(arcs)@, crates@.len()),
            !enabled ==> final(arcs)@ == old(arcs)@,
            enabled ==> arc_ints(final(arcs)@) == arc_ints(old(arcs)@) + dependency_arcs(id_views(crates@), deps@, from as int,
                from_path@, workspace_path@, pair_views(canonical_paths@), deps@.len()),
            forall|j: int| 0 <= j < old(arcs)@.len() ==> final(arcs)@[j] == old(arcs)@[j],
            forall|j: int| old(arcs)@.len() <= j < final(arcs)@.len() ==> (#[trigger] final(arcs)@[j]).0 == from,
    {
        if !enabled {
            return;
        }
        let ghost ids = id_views(crates@);
        let ghost table = pair_views(canonical_paths@);
        for i in 0..deps.len()
            invariant
                from < crates@.len(),
                ids == id_views(crates@),
                table == pair_views(canonical_paths@),
                arcs_within(arcs@, crates@.len()),
                old(arcs)@.len() <= arcs@.len(),
                forall|j: int| 0 <= j < old(arcs)@.len() ==> arcs@[j] == old(arcs)@[j],
                forall|j: int| old(arcs)@.len() <= j < arcs@.len() ==> (#[trigger] arcs@[j]).0 == from,
                arc_ints(arcs@) == arc_ints(old(arcs)@) + dependency_arcs(ids, deps@, from as int, from_path@, workspace_path@,
                    table, i as nat),
        {
            let ghost before = arcs@;
            let res = Self::resolve_dependency(crates, &deps[i], from_path, workspace_path, canonical_paths);
            assert(dependency_arcs(ids, deps@, from as int, from_path@, workspace_path@, table, (i + 1) as nat) == match
                resolved_crate(ids, deps@[i as int], from_path@, workspace_path@, table) {
                Some(k) => dependency_arcs(ids, deps@, from as int, from_path@, workspace_path@, table, i as nat).push((from as int, k)),
                None => dependency_arcs(ids, deps@, from as int, from_path@, workspace_path@, table, i as nat),
            });
            let ghost prev = dependency_arcs(ids, deps@, from as int, from_path@, workspace_path@, table, i as nat);
            if let Some(to) = res {
                arcs.push((from, to));
                assert(arc_ints(arcs@) =~= arc_ints(before).push((from as int, to as int)));
                let ghost k = resolved_crate(ids, deps@[i as int], from_path@, workspace_path@, table).unwrap();
                assert(resolved_crate(ids, deps@[i as int], from_path@, workspace_path@, table) is Some);
                assert(0 <= k < crates.len());
                assert(to == k as usize);
                assert(to as int == k);
                assert(arc_ints(arcs@) =~= (arc_ints(old(arcs)@) + prev).push((from as int, k)));
            } else {
                assert(resolved_crate(ids, deps@[i as int], from_path@, workspace_path@, table) is None);
            }
            assert(arc_ints(arcs@) =~= arc_ints(old(arcs)@) + dependency_arcs(ids, deps@, from as int, from_path@, workspace_path@,
                table, (i + 1) as nat));
        }
    }

    /// Builds the crate graph: one crate per member of each workspace,
    /// identified by its name and canonical path, with the workspace path
    /// recorded for that crate path (else the workspace it was found in),
    /// and an arc from each crate to each crate it depends on, leaving out
    /// the kinds of dependency the filter excludes.
    pub fn new(
        workspaces: &'a [(String, WorkspaceInfo)],
        crate_path_to_workspace: &[(String, String)],
        filter: DependencyFilter,
        canonical_paths: &[(String, String)],
    ) -> (r: Result<Self, FerrisWheelError>)
        ensures
            r matches Ok(a) && a.wf() && a.workspaces@ == workspaces@
                && a.ids() == member_ids(workspaces@, pair_views(canonical_paths@))
                && views(a.crate_workspaces@) == member_workspaces(workspaces@, pair_views(crate_path_to_workspace@),
                    pair_views(canonical_paths@))
                && arc_ints(a.arcs@) == crate_arcs(workspaces@, pair_views(canonical_paths@), filter,
                    flat_members(workspaces@).len()),
    {
        let ghost table = pair_views(canonical_paths@);
        let ghost c2w = pair_views(crate_path_to_workspace@);
        let ghost flat = flat_members(workspaces@);
        let fl = flatten_members(workspaces);
        let mut crates: Vec<CrateId> = Vec::new();
        let mut crate_workspaces: Vec<String> = Vec::new();
        for k in 0..fl.len()
            invariant
                fl@.len() == flat.len(),
                flat == flat_members(workspaces@),
                table == pair_views(canonical_paths@),
                c2w == pair_views(crate_path_to_workspace@),
                forall|k: int| #![trigger fl@[k]] 0 <= k < fl@.len() ==> fl@[k].0 < workspaces@.len()
                    && fl@[k].1 < workspaces@[fl@[k].0 as int].1.members@.len()
                    && flat[k] == (fl@[k].0 as int, workspaces@[fl@[k].0 as int].1.members@[fl@[k].1 as int]),
                id_views(crates@) == member_ids(workspaces@, table).take(k as int),
                views(crate_workspaces@) == member_workspaces(workspaces@, c2w, table).take(k as int),
        {
            let (i, j) = fl[k];
            let member = &workspaces[i].1.members[j];
            let cp = canonical(canonical_paths, member.path.as_str());
            let wp = match assoc_lookup(crate_path_to_workspace, cp.as_str()) {
                Some(w) => dup(w),
                None => dup(&workspaces[i].0),
            };
            let ghost ids0 = id_views(crates@);
            let ghost ws0 = views(crate_workspaces@);
            crates.push(CrateId { name: dup(&member.name), path: cp });
            crate_workspaces.push(wp);
            assert(id_views(crates@) =~= ids0.push(member_ids(workspaces@, table)[k as int]));
            assert(member_ids(workspaces@, table).take(k + 1) =~= member_ids(workspaces@, table).take(k as int).push(
                member_ids(workspaces@, table)[k as int]));
            assert(views(crate_workspaces@) =~= ws0.push(member_workspaces(workspaces@, c2w, table)[k as int]));
            assert(member_workspaces(workspaces@, c2w, table).take(k + 1) =~= member_workspaces(workspaces@, c2w, table).take(
                k as int).push(member_workspaces(workspaces@, c2w, table)[k as int]));
        }
        assert(member_ids(workspaces@, table).take(fl.len() as int) =~= member_ids(workspaces@, table));
        assert(member_workspaces(workspaces@, c2w, table).take(fl.len() as int) =~= member_workspaces(workspaces@, c2w, table));
        let mut arcs: Vec<(usize, usize)> = Vec::new();
        assert(arc_ints(arcs@) =~= crate_arcs(workspaces@, table, filter, 0));
        for k in 0..fl.len()
            invariant
                fl@.len() == flat.len(),
                flat == flat_members(workspaces@),
                crates@.len() == flat.len(),
                id_views(crates@) == member_ids(workspaces@, table),
                table == pair_views(canonical_paths@),
                forall|k: int| #![trigger fl@[k]] 0 <= k < fl@.len() ==> fl@[k].0 < workspaces@.len()
                    && fl@[k].1 < workspaces@[fl@[k].0 as int].1.members@.len()
                    && flat[k] == (fl@[k].0 as int, workspaces@[fl@[k].0 as int].1.members@[fl@[k].1 as int]),
                arcs_within(arcs@, crates@.len()),
                arc_ints(arcs@) == crate_arcs(workspaces@, table, filter, k as nat),
        {
            let ghost ids = id_views(crates@);
            let ghost base = arc_ints(arcs@);
            let (i, j) = fl[k];
            assert(flat[k as int] == (i as int, workspaces@[i as int].1.members@[j as int]));
            let member = &workspaces[i].1.members[j];
            let ws_path = workspaces[i].0.as_str();
            let cp = canonical(canonical_paths, member.path.as_str());
            proof {
                assert(id_views(crates@)[k as int].1 == cp@);
                lemma_path_node_found(id_views(crates@), cp@, k as int, crates@.len());
            }
            let from = match find_path_node(&crates, cp.as_str()) {
                Some(f) => f,
                None => k,
            };
            let from_path = crates[from].path.as_str();
            proof {
                lemma_path_node_hit(ids, cp@, ids.len());
                assert(ids[from as int] == crates@[from as int]@);
                assert(from_path@ == cp@);
            }
            let ghost fi = from as int;
            let ghost wp = ws_path@;
            let ghost m = *member;
            Self::connect_dependencies(&crates, &mut arcs, member.dependencies.as_slice(), true, from, from_path, ws_path,
                canonical_paths);
            let ghost a1 = arc_ints(arcs@);
            Self::connect_dependencies(&crates, &mut arcs, member.dev_dependencies.as_slice(), filter.include_dev(), from,
                from_path, ws_path, canonical_paths);
            let ghost a2 = arc_ints(arcs@);
            assert(a2 == a1 + (if filter.excludes_dev() { Seq::<(int, int)>::empty() } else {
                dependency_arcs(ids, m.dev_dependencies@, fi, cp@, wp, table, m.dev_dependencies@.len())
            }));
            Self::connect_dependencies(&crates, &mut arcs, member.build_dependencies.as_slice(), filter.include_build(),
                from, from_path, ws_path, canonical_paths);
            let ghost a3 = arc_ints(arcs@);
            assert(a3 == a2 + (if filter.excludes_build() { Seq::<(int, int)>::empty() } else {
                dependency_arcs(ids, m.build_dependencies@, fi, cp@, wp, table, m.build_dependencies@.len())
            }));
            if filter.include_target() {
                for t in 0..member.target_dependencies.len()
                    invariant
                        from < crates@.len(),
                        ids == id_views(crates@),
                        table == pair_views(canonical_paths@),
                        m == *member,
                        fi == from as int,
                        wp == ws_path@,
                        from_path@ == cp@,
                        arcs_within(arcs@, crates@.len()),
                        arc_ints(arcs@) == a3 + target_dependency_arcs(ids, m.target_dependencies@, fi, cp@, wp, table, t as nat),
                {
                    let ghost before = arc_ints(arcs@);
                    Self::connect_dependencies(&crates, &mut arcs, member.target_dependencies[t].1.as_slice(), true, from,
                        from_path, ws_path, canonical_paths);
                    assert(arc_ints(arcs@) =~= a3 + target_dependency_arcs(ids, m.target_dependencies@, fi, cp@, wp, table,
                        (t + 1) as nat));
                }
            } else {
                assert(a3 =~= a3 + Seq::<(int, int)>::empty());
            }
            proof {
                assert(m == flat[k as int].1);
                assert(wp == workspaces@[flat[k as int].0].0@);
                assert(fi == path_node(ids, canon(table, m.path@), ids.len()));
                assert(arc_ints(arcs@) =~= base + member_arcs(workspaces@, table, filter, k as int));
                assert(crate_arcs(workspaces@, table, filter, (k + 1) as nat) == base + member_arcs(workspaces@, table, filter,
                    k as int));
            }
        }
        Ok(AffectedAnalysis { workspaces, crates, crate_workspaces, arcs })
    }
}

/// The position of the first of the first `n` workspaces whose path is `p`,
/// or -1.
pub open spec fn workspace_at(ws: Seq<(String, WorkspaceInfo)>, p: Seq<char>, n: nat) -> int
    decreases n,
{
    if n == 0 {
        -1
    } else if workspace_at(ws, p, (n - 1) as nat) >= 0 {
        workspace_at(ws, p, (n - 1) as nat)
    } else if ws[n - 1].0@ == p {
        n - 1
    } else {
        -1
    }
}

proof fn lemma_workspace_at_stable(ws: Seq<(String, WorkspaceInfo)>, p: Seq<char>, a: nat, b: nat)
    requires
        a <= b,
        workspace_at(ws, p, a) >= 0,
    ensures
        workspace_at(ws, p, b) == workspace_at(ws, p, a),
    decreases b - a,
{
    if a < b {
        lemma_workspace_at_stable(ws, p, a, (b - 1) as nat);
    }
}

/// Whether the crates of `s` hold no identifier twice.
pub open spec fn distinct_ids(s: Seq<CrateId>) -> bool {
    id_views(s).no_duplicates()
}

/// The result of a change-impact analysis: the crates the changed files
/// belong to, every crate affected through reverse dependencies, their
/// workspaces, and the files that belong to no crate.
pub struct AffectedResult {
    pub directly_affected_crates: Vec<CrateId>,
    pub all_affected_crates: Vec<CrateId>,
    pub directly_affected_workspaces: Vec<String>,
    pub all_affected_workspaces: Vec<String>,
    pub unmatched_files: Vec<String>,
}

/// Whether a list of crates holds the given identifier.
pub fn contains_id(v: &Vec<CrateId>, id: &CrateId) -> (r: bool)
    ensures
        r == id_views(v@).contains(id@),
{
    let ghost iv = id_views(v@);
    for i in 0..v.len()
        invariant
            iv == id_views(v@),
            forall|j: int| 0 <= j < i ==> iv[j] != id@,
    {
        if str_eq(v[i].name.as_str(), id.name.as_str()) && str_eq(v[i].path.as_str(), id.path.as_str()) {
            assert(iv[i as int] == id@);
            return true;
        }
    }
    false
}

/// Adds a crate to a list without repetitions, unless already there.
fn push_unique_id(v: &mut Vec<CrateId>, id: CrateId)
    requires
        distinct_ids(old(v)@),
    ensures
        distinct_ids(final(v)@),
        id_views(final(v)@).to_set() == id_views(old(v)@).to_set().insert(id@),
{
    if contains_id(v, &id) {
        assert(id_views(v@).to_set() =~= id_views(v@).to_set().insert(id@));
        return;
    }
    let ghost before = id_views(v@);
    v.push(id);
    assert(id_views(v@) =~= before.push(id@));
    assert(id_views(v@).to_set() =~= before.to_set().insert(id@)) by {
        assert forall|x| id_views(v@).to_set().contains(x) implies before.to_set().insert(id@).contains(x) by {
            let j = choose|j: int| 0 <= j < id_views(v@).len() && id_views(v@)[j] == x;
            if j < before.len() {
                assert(before[j] == x);
            }
        }
        assert forall|x| before.to_set().insert(id@).contains(x) implies id_views(v@).to_set().contains(x) by {
            if x == id@ {
                assert(id_views(v@)[before.len() as int] == x);
            } else {
                let j = choose|j: int| 0 <= j < before.len() && before[j] == x;
                assert(id_views(v@)[j] == x);
            }
        }
    }
}

impl<'a> AffectedAnalysis<'a> {
    /// The name of the workspace a crate belongs to: the workspace at the
    /// path recorded for the last crate with this identifier.
    pub open spec fn workspace_name_of(&self, id: (Seq<char>, Seq<char>)) -> Option<Seq<char>> {
        let k = id_node(self.ids(), id, self.crates@.len());
        if k < 0 {
            None
        } else {
            let i = workspace_at(self.workspaces@, self.crate_workspaces@[k]@, self.workspaces@.len());
            if i < 0 { None } else { Some(self.workspaces@[i].1.name@) }
        }
    }

    /// `x` depends on `d`, directly or through others: the crate of `x` is
    /// reached from the last crate with identifier `d` by following
    /// dependency arcs backwards.
    pub open spec fn reached(&self, d: (Seq<char>, Seq<char>), x: (Seq<char>, Seq<char>)) -> bool {
        let s = id_node(self.ids(), d, self.crates@.len());
        s >= 0 && exists|v: int| 0 <= v < self.crates@.len() && self.ids()[v] == x
            && #[trigger] reaches_plus(arc_ints(reversed(self.arcs@)), s, v)
    }

    /// The affected crates: the directly affected ones, and every crate that
    /// depends on one of them.
    pub open spec fn all_affected(&self, direct: Set<(Seq<char>, Seq<char>)>) -> Set<(Seq<char>, Seq<char>)> {
        Set::new(|x: (Seq<char>, Seq<char>)| direct.contains(x) || exists|d: (Seq<char>, Seq<char>)| #[trigger] direct.contains(d) && self.reached(d, x))
    }

    /// The names of the workspaces of a set of crates.
    pub open spec fn names_of(&self, crates: Set<(Seq<char>, Seq<char>)>) -> Set<Seq<char>> {
        Set::new(|w: Seq<char>| exists|x: (Seq<char>, Seq<char>)| #[trigger] crates.contains(x) && self.workspace_name_of(x) == Some(w))
    }

    /// What a result holds, given the crates directly affected.
    pub open spec fn result_of(&self, direct: Set<(Seq<char>, Seq<char>)>, r: AffectedResult) -> bool {
        &&& distinct_ids(r.directly_affected_crates@)
        &&& id_views(r.directly_affected_crates@).to_set() == direct
        &&& distinct_ids(r.all_affected_crates@)
        &&& id_views(r.all_affected_crates@).to_set() == self.all_affected(direct)
        &&& strictly_sorted(views(r.directly_affected_workspaces@))
        &&& views(r.directly_affected_workspaces@).to_set() == self.names_of(direct)
        &&& strictly_sorted(views(r.all_affected_workspaces@))
        &&& views(r.all_affected_workspaces@).to_set() == self.names_of(self.all_affected(direct))
    }

    /// The name of the workspace a crate belongs to.
    pub fn workspace_name(&self, crate_id: &CrateId) -> (r: Option<String>)
        requires
            self.wf(),
        ensures
            match r {
                Some(w) => self.workspace_name_of(crate_id@) == Some(w@),
                None => self.workspace_name_of(crate_id@) is None,
            },
    {
        match find_id_node(&self.crates, crate_id) {
            None => None,
            Some(k) => {
                let w = self.crate_workspaces[k].as_str();
                let mut i: usize = 0;
                while i < self.workspaces.len()
                    invariant
                        self.wf(),
                        k as int == id_node(self.ids(), crate_id@, self.crates@.len()),
                        k < self.crates@.len(),
                        w@ == self.crate_workspaces@[k as int]@,
                        i <= self.workspaces@.len(),
                        workspace_at(self.workspaces@, w@, i as nat) < 0,
                    decreases self.workspaces@.len() - i,
                {
                    if str_eq(self.workspaces[i].0.as_str(), w) {
                        proof {
                            lemma_workspace_at_stable(self.workspaces@, w@, (i + 1) as nat, self.workspaces@.len());
                        }
                        return Some(dup(&self.workspaces[i].1.name));
                    }
                    i = i + 1;
                }
                None
            },
        }
    }

    /// The names of the workspaces of the given crates, each once, in
    /// increasing order.
    fn workspace_names(&self, crates: &Vec<CrateId>) -> (r: Vec<String>)
        requires
            self.wf(),
        ensures
            strictly_sorted(views(r@)),
            views(r@).to_set() == self.names_of(id_views(crates@).to_set()),
    {
        let ghost cv = id_views(crates@);
        let mut r: Vec<String> = Vec::new();
        for i in 0..crates.len()
            invariant
                self.wf(),
                cv == id_views(crates@),
                strictly_sorted(views(r@)),
                views(r@).to_set() == self.names_of(cv.take(i as int).to_set()),
        {
            let ghost before = views(r@);
            let name = self.workspace_name(&crates[i]);
            let ghost t0 = cv.take(i as int);
            let ghost t1 = cv.take(i + 1);
            let ghost prev = t0.to_set();
            let ghost next = t1.to_set();
            assert(t1 =~= t0.push(cv[i as int]));
            assert(next =~= prev.insert(cv[i as int])) by {
                assert forall|x| next.contains(x) implies prev.insert(cv[i as int]).contains(x) by {
                    let j = choose|j: int| 0 <= j < t1.len() && t1[j] == x;
                    if j < i {
                        assert(t0[j] == x);
                    }
                }
                assert forall|x| prev.insert(cv[i as int]).contains(x) implies next.contains(x) by {
                    if x == cv[i as int] {
                        assert(t1[i as int] == x);
                    } else {
                        let j = choose|j: int| 0 <= j < t0.len() && t0[j] == x;
                        assert(t1[j] == x);
                    }
                }
            }
            match name {
                Some(w) => {
                    proof { lemma_sorted_insert_props(before, w@); }
                    insert_sorted_unique(&mut r, w);
                    assert(views(r@).to_set() =~= self.names_of(next)) by {
                        assert forall|y| views(r@).to_set().contains(y) implies self.names_of(next).contains(y) by {
                            if before.to_set().contains(y) {
                                let x = choose|x: (Seq<char>, Seq<char>)| #[trigger] prev.contains(x) && self.workspace_name_of(x) == Some(y);
                                assert(next.contains(x));
                            } else {
                                assert(y == w@);
                                assert(next.contains(cv[i as int]));
                            }
                        }
                        assert forall|y| self.names_of(next).contains(y) implies views(r@).to_set().contains(y) by {
                            let x = choose|x: (Seq<char>, Seq<char>)| #[trigger] next.contains(x) && self.workspace_name_of(x) == Some(y);
                            if x != cv[i as int] {
                                assert(prev.contains(x));
                                assert(self.names_of(prev).contains(y));
                            }
                        }
                    }
                },
                None => {
                    assert(views(r@).to_set() =~= self.names_of(next)) by {
                        assert forall|y| self.names_of(next).contains(y) implies views(r@).to_set().contains(y) by {
                            let x = choose|x: (Seq<char>, Seq<char>)| #[trigger] next.contains(x) && self.workspace_name_of(x) == Some(y);
                            assert(x != cv[i as int]);
                            assert(prev.contains(x));
                            assert(self.names_of(prev).contains(y));
                        }
                        assert forall|y| views(r@).to_set().contains(y) implies self.names_of(next).contains(y) by {
                            let x = choose|x: (Seq<char>, Seq<char>)| #[trigger] prev.contains(x) && self.workspace_name_of(x) == Some(y);
                            assert(next.contains(x));
                        }
                    }
                },
            }
        }
        assert(cv.take(crates.len() as int) =~= cv);
        r
    }
}

proof fn lemma_take_to_set<A>(s: Seq<A>, i: int)
    requires
        0 <= i < s.len(),
    ensures
        s.take(i + 1).to_set() == s.take(i).to_set().insert(s[i]),
{
    let t0 = s.take(i);
    let t1 = s.take(i + 1);
    assert(t1.to_set() =~= t0.to_set().insert(s[i])) by {
        assert forall|x| t1.to_set().contains(x) implies t0.to_set().insert(s[i]).contains(x) by {
            let j = choose|j: int| 0 <= j < t1.len() && t1[j] == x;
            if j < i {
                assert(t0[j] == x);
            }
        }
        assert forall|x| t0.to_set().insert(s[i]).contains(x) implies t1.to_set().contains(x) by {
            if x == s[i] {
                assert(t1[i] == x);
            } else {
                let j = choose|j: int| 0 <= j < t0.len() && t0[j] == x;
                assert(t1[j] == x);
            }
        }
    }
}

/// The arcs with their direction turned round.
fn reverse_arcs(arcs: &Vec<(usize, usize)>) -> (r: Vec<(usize, usize)>)
    ensures
        r@ == reversed(arcs@),
{
    let mut r: Vec<(usize, usize)> = Vec::new();
    for k in 0..arcs.len()
        invariant
            r@ == reversed(arcs@).take(k as int),
    {
        let (a, b) = arcs[k];
        r.push((b, a));
        assert(r@ =~= reversed(arcs@).take(k + 1));
    }
    assert(reversed(arcs@).take(arcs.len() as int) =~= reversed(arcs@));
    r
}

impl<'a> AffectedAnalysis<'a> {
    /// The affected crates when the first `j` of `dv` have been followed.
    pub open spec fn affected_upto(&self, dset: Set<(Seq<char>, Seq<char>)>, dv: Seq<(Seq<char>, Seq<char>)>, j: int) -> Set<(Seq<char>, Seq<char>)> {
        Set::new(|x: (Seq<char>, Seq<char>)| dset.contains(x) || exists|jj: int| 0 <= jj < j && #[trigger] self.reached(dv[jj], x))
    }

    /// The result for the given directly affected crates: these crates,
    /// every crate that depends on one of them, directly or through others,
    /// and the workspaces of both; the unmatched files are handed through.
    pub fn affected_from(&self, direct: &[CrateId], unmatched_files: Vec<String>) -> (r: AffectedResult)
        requires
            self.wf(),
        ensures
            self.result_of(id_views(direct@).to_set(), r),
            r.unmatched_files@ == unmatched_files@,
    {
        let ghost dset = id_views(direct@).to_set();
        let mut d: Vec<CrateId> = Vec::new();
        for i in 0..direct.len()
            invariant
                distinct_ids(d@),
                id_views(d@).to_set() == id_views(direct@).take(i as int).to_set(),
        {
            proof { lemma_take_to_set(id_views(direct@), i as int); }
            push_unique_id(&mut d, direct[i].duplicate());
        }
        assert(id_views(direct@).take(direct.len() as int) =~= id_views(direct@));
        let ghost dv = id_views(d@);
        let mut all: Vec<CrateId> = Vec::new();
        for i in 0..d.len()
            invariant
                dv == id_views(d@),
                distinct_ids(all@),
                id_views(all@).to_set() == dv.take(i as int).to_set(),
        {
            proof { lemma_take_to_set(dv, i as int); }
            push_unique_id(&mut all, d[i].duplicate());
        }
        assert(dv.take(d.len() as int) =~= dv);
        assert(dv.to_set() == dset);
        assert(self.affected_upto(dset, dv, 0) =~= dset);
        let n = self.crates.len();
        let rev = reverse_arcs(&self.arcs);
        assert(arcs_within(rev@, n as nat)) by {
            assert forall|k: int| 0 <= k < rev@.len() implies (#[trigger] rev@[k]).0 < n && rev@[k].1 < n by {
                assert(self.arcs@[k].0 < n && self.arcs@[k].1 < n);
            }
        }
        for j in 0..d.len()
            invariant
                self.wf(),
                n == self.crates@.len(),
                rev@ == reversed(self.arcs@),
                arcs_within(rev@, n as nat),
                dv == id_views(d@),
                dv.to_set() == dset,
                distinct_ids(all@),
                id_views(all@).to_set() == self.affected_upto(dset, dv, j as int),
        {
            let ghost before = self.affected_upto(dset, dv, j as int);
            match find_id_node(&self.crates, &d[j]) {
                None => {
                    assert(self.affected_upto(dset, dv, j + 1) =~= before) by {
                        assert forall|x| self.affected_upto(dset, dv, j + 1).contains(x) implies before.contains(x) by {
                            if !dset.contains(x) {
                                let jj = choose|jj: int| 0 <= jj < j + 1 && #[trigger] self.reached(dv[jj], x);
                                assert(jj != j);
                            }
                        }
                    }
                },
                Some(s) => {
                    let flags = reachable_from(&rev, n, s);
                    let ghost ids = self.ids();
                    for v in 0..n
                        invariant
                            self.wf(),
                            n == self.crates@.len(),
                            ids == self.ids(),
                            flags@.len() == n,
                            distinct_ids(all@),
                            id_views(all@).to_set() == before.union(
                                Set::new(|x: (Seq<char>, Seq<char>)| exists|vv: int| 0 <= vv < v && ids[vv] == x && #[trigger] flags@[vv])),
                    {
                        let ghost prev = id_views(all@).to_set();
                        if flags[v] {
                            push_unique_id(&mut all, self.crates[v].duplicate());
                        }
                        assert(id_views(all@).to_set() =~= before.union(
                            Set::new(|x: (Seq<char>, Seq<char>)| exists|vv: int| 0 <= vv < v + 1 && ids[vv] == x && #[trigger] flags@[vv]))) by {
                            let lo = Set::new(|x: (Seq<char>, Seq<char>)| exists|vv: int| 0 <= vv < v && ids[vv] == x && #[trigger] flags@[vv]);
                            let hi = Set::new(|x: (Seq<char>, Seq<char>)| exists|vv: int| 0 <= vv < v + 1 && ids[vv] == x && #[trigger] flags@[vv]);
                            assert forall|x| hi.contains(x) implies id_views(all@).to_set().contains(x) by {
                                let vv = choose|vv: int| 0 <= vv < v + 1 && ids[vv] == x && #[trigger] flags@[vv];
                                if vv < v {
                                    assert(lo.contains(x));
                                }
                            }
                            assert forall|x| id_views(all@).to_set().contains(x) implies before.union(hi).contains(x) by {
                                if prev.contains(x) && !before.contains(x) {
                                    let vv = choose|vv: int| 0 <= vv < v && ids[vv] == x && #[trigger] flags@[vv];
                                    assert(hi.contains(x));
                                }
                                if !prev.contains(x) {
                                    assert(ids[v as int] == x);
                                    assert(hi.contains(x));
                                }
                            }
                        }
                    }
                    let ghost full = Set::new(|x: (Seq<char>, Seq<char>)| exists|vv: int| 0 <= vv < n && ids[vv] == x && #[trigger] flags@[vv]);
                    assert(self.affected_upto(dset, dv, j + 1) =~= before.union(full)) by {
                        assert forall|x| self.affected_upto(dset, dv, j + 1).contains(x) implies before.union(full).contains(x) by {
                            if !dset.contains(x) {
                                let jj = choose|jj: int| 0 <= jj < j + 1 && #[trigger] self.reached(dv[jj], x);
                                if jj == j {
                                    let vv = choose|vv: int| 0 <= vv < self.crates@.len() && self.ids()[vv] == x
                                        && #[trigger] reaches_plus(arc_ints(reversed(self.arcs@)), s as int, vv);
                                    assert(flags@[vv]);
                                    assert(full.contains(x));
                                } else {
                                    assert(before.contains(x));
                                }
                            }
                        }
                        assert forall|x| before.union(full).contains(x) implies self.affected_upto(dset, dv, j + 1).contains(x) by {
                            if full.contains(x) && !before.contains(x) {
                                let vv = choose|vv: int| 0 <= vv < n && ids[vv] == x && #[trigger] flags@[vv];
                                assert(reaches_plus(arc_ints(reversed(self.arcs@)), s as int, vv));
                                assert(self.reached(dv[j as int], x));
                            }
                            if before.contains(x) && !dset.contains(x) {
                                let jj = choose|jj: int| 0 <= jj < j && #[trigger] self.reached(dv[jj], x);
                                assert(0 <= jj < j + 1);
                            }
                        }
                    }
                },
            }
        }
        assert(self.affected_upto(dset, dv, d.len() as int) =~= self.all_affected(dset)) by {
            assert forall|x| self.all_affected(dset).contains(x) implies self.affected_upto(dset, dv, d.len() as int).contains(x) by {
                if !dset.contains(x) {
                    let e = choose|e: (Seq<char>, Seq<char>)| #[trigger] dset.contains(e) && self.reached(e, x);
                    assert(dv.to_set().contains(e));
                    let jj = choose|jj: int| 0 <= jj < dv.len() && dv[jj] == e;
                    assert(self.reached(dv[jj], x));
                }
            }
            assert forall|x| self.affected_upto(dset, dv, d.len() as int).contains(x) implies self.all_affected(dset).contains(x) by {
                if !dset.contains(x) {
                    let jj = choose|jj: int| 0 <= jj < d.len() && #[trigger] self.reached(dv[jj], x);
                    assert(dv.to_set().contains(dv[jj]));
                }
            }
        }
        let directly_affected_workspaces = self.workspace_names(&d);
        let all_affected_workspaces = self.workspace_names(&all);
        AffectedResult {
            directly_affected_crates: d,
            all_affected_crates: all,
            directly_affected_workspaces,
            all_affected_workspaces,
            unmatched_files,
        }
    }
}

/// Every crate in `v` from position `from` on is one of `ids`.
pub open spec fn known_from(ids: Seq<(Seq<char>, Seq<char>)>, v: Seq<CrateId>, from: int) -> bool {
    forall|i: int| from <= i < v.len() ==> ids.contains(#[trigger] v[i]@)
}

/// The first of the first `n` workspaces whose root, made absolute from
/// `cwd` and canonicalised, is the directory that holds `file`, or -1.
pub open spec fn root_workspace(ws: Seq<(String, WorkspaceInfo)>, cwd: Seq<char>, table: Seq<(Seq<char>, Seq<char>)>,
    file: Seq<char>, n: nat) -> int
    decreases n,
{
    if n == 0 {
        -1
    } else if root_workspace(ws, cwd, table, file, (n - 1) as nat) >= 0 {
        root_workspace(ws, cwd, table, file, (n - 1) as nat)
    } else if parent_path(file) == Some(canon(table, absolute_from(cwd, ws[n - 1].0@))) {
        n - 1
    } else {
        -1
    }
}

proof fn lemma_root_workspace_bounds(ws: Seq<(String, WorkspaceInfo)>, cwd: Seq<char>, table: Seq<(Seq<char>, Seq<char>)>,
    file: Seq<char>, n: nat)
    ensures
        root_workspace(ws, cwd, table, file, n) < n,
    decreases n,
{
    if n > 0 {
        lemma_root_workspace_bounds(ws, cwd, table, file, (n - 1) as nat);
    }
}

proof fn lemma_root_workspace_stable(ws: Seq<(String, WorkspaceInfo)>, cwd: Seq<char>, table: Seq<(Seq<char>, Seq<char>)>,
    file: Seq<char>, a: nat, b: nat)
    requires
        a <= b,
        root_workspace(ws, cwd, table, file, a) >= 0,
    ensures
        root_workspace(ws, cwd, table, file, b) == root_workspace(ws, cwd, table, file, a),
    decreases b - a,
{
    if a < b {
        lemma_root_workspace_stable(ws, cwd, table, file, a, (b - 1) as nat);
    }
}

/// The first `n` crates whose workspace path, canonicalised, is `root`.
pub open spec fn crates_of_root(ids: Seq<(Seq<char>, Seq<char>)>, cws: Seq<Seq<char>>, table: Seq<(Seq<char>, Seq<char>)>,
    root: Seq<char>, n: nat) -> Seq<(Seq<char>, Seq<char>)>
    decreases n,
{
    if n == 0 {
        Seq::empty()
    } else if canon(table, cws[n - 1]) == root {
        crates_of_root(ids, cws, table, root, (n - 1) as nat).push(ids[n - 1])
    } else {
        crates_of_root(ids, cws, table, root, (n - 1) as nat)
    }
}

/// Whether the crate path `p` holds the file `f`, given as is or in its
/// canonical form `cf`.
pub open spec fn holds_file(f: Seq<char>, cf: Seq<char>, p: Seq<char>) -> bool {
    path_has_prefix(cf, p) || path_has_prefix(f, p)
}

/// Among the first `n` crates, the first one with the longest path that
/// holds the file, or -1.
pub open spec fn longest_holder(ids: Seq<(Seq<char>, Seq<char>)>, f: Seq<char>, cf: Seq<char>, n: nat) -> int
    decreases n,
{
    if n == 0 {
        -1
    } else {
        let b = longest_holder(ids, f, cf, (n - 1) as nat);
        if holds_file(f, cf, ids[n - 1].1) && (b < 0 || ids[n - 1].1.len() > ids[b].1.len()) { n - 1 } else { b }
    }
}

proof fn lemma_longest_holder_bounds(ids: Seq<(Seq<char>, Seq<char>)>, f: Seq<char>, cf: Seq<char>, n: nat)
    ensures
        -1 <= longest_holder(ids, f, cf, n) < n,
    decreases n,
{
    if n > 0 {
        lemma_longest_holder_bounds(ids, f, cf, (n - 1) as nat);
    }
}

/// Whether the last component of the path is `Cargo.lock` or `Cargo.toml`.
pub open spec fn is_manifest_name(abs: Seq<char>) -> bool {
    match file_name_of(abs) {
        Some(n) => n == "Cargo.lock"@ || n == "Cargo.toml"@,
        None => false,
    }
}

impl<'a> AffectedAnalysis<'a> {
    /// The crates a changed file maps to, `None` where it maps to none. The
    /// file is made absolute from `cwd` and canonicalised; a `Cargo.toml` or
    /// `Cargo.lock` directly in a workspace root (the first such workspace)
    /// stands for the crates of that workspace; any other file for the
    /// crate with the longest path that holds it (the last crate with that
    /// path).
    pub open spec fn file_crates(&self, cwd: Seq<char>, table: Seq<(Seq<char>, Seq<char>)>, file: Seq<char>)
        -> Option<Seq<(Seq<char>, Seq<char>)>>
    {
        let abs = canon(table, absolute_from(cwd, file));
        let w = root_workspace(self.workspaces@, cwd, table, abs, self.workspaces@.len());
        let ids = self.ids();
        if is_manifest_name(abs) && w >= 0 {
            Some(crates_of_root(ids, views(self.crate_workspaces@), table,
                canon(table, absolute_from(cwd, self.workspaces@[w].0@)), ids.len()))
        } else {
            let b = longest_holder(ids, abs, canon(table, abs), ids.len());
            if b >= 0 { Some(seq![ids[path_node(ids, ids[b].1, ids.len())]]) } else { None }
        }
    }

    /// The crates the first `n` files map to, in order.
    pub open spec fn matched_upto(&self, cwd: Seq<char>, table: Seq<(Seq<char>, Seq<char>)>, files: Seq<Seq<char>>, n: nat)
        -> Seq<(Seq<char>, Seq<char>)>
        decreases n,
    {
        if n == 0 {
            Seq::empty()
        } else {
            self.matched_upto(cwd, table, files, (n - 1) as nat) + match self.file_crates(cwd, table, files[n - 1]) {
                Some(c) => c,
                None => Seq::empty(),
            }
        }
    }

    /// Those of the first `n` files that map to no crate, in order.
    pub open spec fn unmatched_upto(&self, cwd: Seq<char>, table: Seq<(Seq<char>, Seq<char>)>, files: Seq<Seq<char>>, n: nat)
        -> Seq<Seq<char>>
        decreases n,
    {
        if n == 0 {
            Seq::empty()
        } else if self.file_crates(cwd, table, files[n - 1]) is None {
            self.unmatched_upto(cwd, table, files, (n - 1) as nat).push(files[n - 1])
        } else {
            self.unmatched_upto(cwd, table, files, (n - 1) as nat)
        }
    }
}

impl<'a> AffectedAnalysis<'a> {
    /// When `abs_file` lies directly in the root of an analysed workspace
    /// (the first one found), adds every crate whose workspace is that root
    /// and returns `true`.
    fn handle_workspace_cargo_file(
        &self,
        abs_file: &str,
        cwd: &str,
        canonical_paths: &[(String, String)],
        direct: &mut Vec<CrateId>,
    ) -> (r: bool)
        requires
            self.wf(),
        ensures
            old(direct)@.len() <= final(direct)@.len(),
            forall|i: int| 0 <= i < old(direct)@.len() ==> final(direct)@[i] == old(direct)@[i],
            known_from(self.ids(), final(direct)@, old(direct)@.len() as int),
            !r ==> final(direct)@ == old(direct)@,
            ({
                let table = pair_views(canonical_paths@);
                let w = root_workspace(self.workspaces@, cwd@, table, abs_file@, self.workspaces@.len());
                &&& r == (w >= 0)
                &&& r ==> id_views(final(direct)@) == id_views(old(direct)@) + crates_of_root(self.ids(),
                    views(self.crate_workspaces@), table, canon(table, absolute_from(cwd@, self.workspaces@[w].0@)),
                    self.crates@.len())
            }),
    {
        let ghost table = pair_views(canonical_paths@);
        let ghost cws = views(self.crate_workspaces@);
        for w in 0..self.workspaces.len()
            invariant
                self.wf(),
                direct@ == old(direct)@,
                table == pair_views(canonical_paths@),
                cws == views(self.crate_workspaces@),
                root_workspace(self.workspaces@, cwd@, table, abs_file@, w as nat) < 0,
        {
            let ws_path = self.workspaces[w].0.as_str();
            let abs_ws = if path_is_absolute(ws_path) {
                to_owned(ws_path)
            } else {
                path_join(cwd, ws_path)
            };
            let abs_ws = canonical(canonical_paths, abs_ws.as_str());
            assert(abs_ws@ == canon(table, absolute_from(cwd@, self.workspaces@[w as int].0@)));
            let at_root = match path_parent(abs_file) {
                Some(parent) => str_eq(parent.as_str(), abs_ws.as_str()),
                None => false,
            };
            if at_root {
                proof {
                    assert(root_workspace(self.workspaces@, cwd@, table, abs_file@, (w + 1) as nat) == w);
                    lemma_root_workspace_stable(self.workspaces@, cwd@, table, abs_file@, (w + 1) as nat,
                        self.workspaces@.len());
                }
                for k in 0..self.crates.len()
                    invariant
                        self.wf(),
                        table == pair_views(canonical_paths@),
                        cws == views(self.crate_workspaces@),
                        old(direct)@.len() <= direct@.len(),
                        forall|i: int| 0 <= i < old(direct)@.len() ==> direct@[i] == old(direct)@[i],
                        known_from(self.ids(), direct@, old(direct)@.len() as int),
                        id_views(direct@) == id_views(old(direct)@) + crates_of_root(self.ids(), cws, table, abs_ws@, k as nat),
                {
                    let cw = canonical(canonical_paths, self.crate_workspaces[k].as_str());
                    assert(cws[k as int] == self.crate_workspaces@[k as int]@);
                    let ghost before = direct@;
                    if str_eq(cw.as_str(), abs_ws.as_str()) {
                        let id = self.crates[k].duplicate();
                        assert(self.ids()[k as int] == id@);
                        direct.push(id);
                        assert(id_views(direct@) =~= id_views(before).push(id@));
                    }
                    assert(id_views(direct@) =~= id_views(old(direct)@) + crates_of_root(self.ids(), cws, table, abs_ws@,
                        (k + 1) as nat));
                }
                return true;
            }
            assert(root_workspace(self.workspaces@, cwd@, table, abs_file@, (w + 1) as nat) < 0);
        }
        false
    }

    /// The crate whose path is the longest one that holds the file (as
    /// given or canonicalised), if any.
    fn find_crate_for_file(&self, abs_file: &str, canonical_paths: &[(String, String)]) -> (r: Option<usize>)
        requires
            self.wf(),
        ensures
            r matches Some(k) ==> k < self.crates@.len(),
            ({
                let ids = self.ids();
                let b = longest_holder(ids, abs_file@, canon(pair_views(canonical_paths@), abs_file@), ids.len());
                &&& b < 0 ==> r is None
                &&& b >= 0 ==> (r matches Some(k) && k as int == path_node(ids, ids[b].1, ids.len()))
            }),
            ({
                let ids = self.ids();
                let cf = canon(pair_views(canonical_paths@), abs_file@);
                &&& r matches Some(k) ==> holds_file(abs_file@, cf, ids[k as int].1)
                    && forall|j: int| 0 <= j < ids.len() && holds_file(abs_file@, cf, #[trigger] ids[j].1)
                        ==> ids[j].1.len() <= ids[k as int].1.len()
                &&& r is None ==> forall|j: int| 0 <= j < ids.len() ==> !holds_file(abs_file@, cf, #[trigger] ids[j].1)
            }),
    {
        let ghost ids = self.ids();
        proof {
            let cf = canon(pair_views(canonical_paths@), abs_file@);
            lemma_longest_holder_is_longest(ids, abs_file@, cf, ids.len());
            let b = longest_holder(ids, abs_file@, cf, ids.len());
            if b >= 0 {
                lemma_path_node_has_path(ids, ids[b].1, ids.len());
            }
        }
        let canon_file = canonical(canonical_paths, abs_file);
        let mut best: Option<(usize, usize)> = None;
        for k in 0..self.crates.len()
            invariant
                ids == self.ids(),
                ids.len() == self.crates@.len(),
                canon_file@ == canon(pair_views(canonical_paths@), abs_file@),
                match best {
                    None => longest_holder(ids, abs_file@, canon_file@, k as nat) < 0,
                    Some(b) => b.1 < k && b.1 as int == longest_holder(ids, abs_file@, canon_file@, k as nat)
                        && b.0 as int == ids[b.1 as int].1.len(),
                },
        {
            let p = self.crates[k].path.as_str();
            assert(ids[k as int].1 == p@);
            if path_starts_with(canon_file.as_str(), p) || path_starts_with(abs_file, p) {
                let len = p.unicode_len();
                match best {
                    None => {
                        best = Some((len, k));
                    },
                    Some((best_len, _)) => {
                        if len > best_len {
                            best = Some((len, k));
                        }
                    },
                }
            }
        }
        match best {
            None => None,
            Some((_, k)) => {
                proof { lemma_path_node_found(ids, ids[k as int].1, k as int, ids.len()); }
                find_path_node(&self.crates, self.crates[k].path.as_str())
            },
        }
    }

    /// Maps each changed file to a crate: a `Cargo.toml` or `Cargo.lock` at
    /// a workspace root stands for all the crates of that workspace; any
    /// other file belongs to the crate with the longest path that holds it.
    /// Relative files are taken from `cwd`. Returns the crates found and
    /// the files that belong to none.
    fn match_files(&self, files: &[String], cwd: &str, canonical_paths: &[(String, String)]) -> (r: (Vec<CrateId>, Vec<String>))
        requires
            self.wf(),
        ensures
            known_from(self.ids(), r.0@, 0),
            forall|i: int| 0 <= i < r.1@.len() ==> views(files@).contains(#[trigger] r.1@[i]@),
            id_views(r.0@) == self.matched_upto(cwd@, pair_views(canonical_paths@), views(files@), files@.len()),
            views(r.1@) == self.unmatched_upto(cwd@, pair_views(canonical_paths@), views(files@), files@.len()),
    {
        let ghost table = pair_views(canonical_paths@);
        let ghost fv = views(files@);
        let mut direct: Vec<CrateId> = Vec::new();
        let mut unmatched: Vec<String> = Vec::new();
        for i in 0..files.len()
            invariant
                self.wf(),
                table == pair_views(canonical_paths@),
                fv == views(files@),
                known_from(self.ids(), direct@, 0),
                forall|j: int| 0 <= j < unmatched@.len() ==> views(files@).contains(#[trigger] unmatched@[j]@),
                id_views(direct@) == self.matched_upto(cwd@, table, fv, i as nat),
                views(unmatched@) == self.unmatched_upto(cwd@, table, fv, i as nat),
        {
            let ghost d0 = id_views(direct@);
            let ghost u0 = views(unmatched@);
            let file = files[i].as_str();
            assert(fv[i as int] == file@);
            let abs = if path_is_absolute(file) {
                to_owned(file)
            } else {
                path_join(cwd, file)
            };
            let abs = canonical(canonical_paths, abs.as_str());
            let is_cargo_file = match path_file_name(abs.as_str()) {
                Some(name) => str_eq(name.as_str(), "Cargo.lock") || str_eq(name.as_str(), "Cargo.toml"),
                None => false,
            };
            assert(is_cargo_file == is_manifest_name(abs@));
            let handled = if is_cargo_file {
                self.handle_workspace_cargo_file(abs.as_str(), cwd, canonical_paths, &mut direct)
            } else {
                false
            };
            if !handled {
                match self.find_crate_for_file(abs.as_str(), canonical_paths) {
                    Some(k) => {
                        let id = self.crates[k].duplicate();
                        assert(self.ids()[k as int] == id@);
                        direct.push(id);
                        assert(id_views(direct@) =~= d0.push(id@));
                        assert(id_views(direct@) =~= d0 + seq![id@]);
                    },
                    None => {
                        let f = dup(&files[i]);
                        assert(views(files@)[i as int] == f@);
                        unmatched.push(f);
                        assert(views(unmatched@) =~= u0.push(f@));
                        assert(id_views(direct@) =~= d0 + Seq::<(Seq<char>, Seq<char>)>::empty());
                    },
                }
            }
            assert(id_views(direct@) == self.matched_upto(cwd@, table, fv, (i + 1) as nat));
            assert(views(unmatched@) == self.unmatched_upto(cwd@, table, fv, (i + 1) as nat));
        }
        (direct, unmatched)
    }

    /// Analyses which crates and workspaces the changed files affect:
    /// the crates the files belong to, and every crate that depends on one
    /// of those, directly or through others. Relative files are taken from
    /// `cwd`; `canonical_paths` gives the canonical form of paths.
    pub fn analyze_affected_files(&self, files: &[String], cwd: &str, canonical_paths: &[(String, String)]) -> (r: AffectedResult)
        requires
            self.wf(),
        ensures
            self.result_of(id_views(r.directly_affected_crates@).to_set(), r),
            id_views(r.directly_affected_crates@).to_set() == self.matched_upto(cwd@, pair_views(canonical_paths@), views(files@),
                files@.len()).to_set(),
            views(r.unmatched_files@) == self.unmatched_upto(cwd@, pair_views(canonical_paths@), views(files@), files@.len()),
            known_from(self.ids(), r.directly_affected_crates@, 0),
            forall|i: int| 0 <= i < r.unmatched_files@.len() ==> views(files@).contains(#[trigger] r.unmatched_files@[i]@),
    {
        let (direct, unmatched) = self.match_files(files, cwd, canonical_paths);
        let r = self.affected_from(direct.as_slice(), unmatched);
        assert forall|i: int| 0 <= i < r.directly_affected_crates@.len() implies
            self.ids().contains(#[trigger] r.directly_affected_crates@[i]@) by {
            assert(id_views(r.directly_affected_crates@).to_set().contains(r.directly_affected_crates@[i]@)) by {
                assert(id_views(r.directly_affected_crates@)[i] == r.directly_affected_crates@[i]@);
            }
            let j = choose|j: int| 0 <= j < direct@.len() && id_views(direct@)[j] == r.directly_affected_crates@[i]@;
            assert(direct@[j]@ == r.directly_affected_crates@[i]@);
        }
        r
    }
}

/// A workspace in the JSON report: its name and path.
#[derive(Debug, Clone, PartialEq, Eq)]
pub struct AffectedWorkspace {
    pub name: String,
    pub path: String,
}

/// A crate in the JSON report: its name, its workspace, whether a changed
/// file belongs to it, and whether it is a standalone crate.
#[derive(Debug, Clone)]
pub struct AffectedCrate {
    pub name: String,
    pub workspace: String,
    pub is_directly_affected: bool,
    pub is_standalone: bool,
}

/// The JSON report of a change-impact analysis.
#[derive(Debug, Clone)]
pub struct AffectedJsonReport {
    pub affected_crates: Vec<AffectedCrate>,
    pub affected_workspaces: Vec<AffectedWorkspace>,
    pub directly_affected_crates: Vec<String>,
    pub directly_affected_workspaces: Vec<AffectedWorkspace>,
}

/// The view of a reported crate.
pub type CrateRow = (Seq<char>, Seq<char>, bool, bool);

/// The views of reported crates.
pub open spec fn row_views(v: Seq<AffectedCrate>) -> Seq<CrateRow> {
    v.map_values(|c: AffectedCrate| (c.name@, c.workspace@, c.is_directly_affected, c.is_standalone))
}

/// The views of reported workspaces.
pub open spec fn workspace_rows(v: Seq<AffectedWorkspace>) -> Seq<(Seq<char>, Seq<char>)> {
    v.map_values(|w: AffectedWorkspace| (w.name@, w.path@))
}

/// Whether row `a` comes after row `b` by name, then by workspace.
pub open spec fn row_after(a: CrateRow, b: CrateRow) -> bool {
    seq_lt(b.0, a.0) || (b.0 == a.0 && seq_lt(b.1, a.1))
}

/// `s` with `x` inserted before the first row that comes after it.
pub open spec fn row_insert(s: Seq<CrateRow>, x: CrateRow) -> Seq<CrateRow>
    decreases s.len(),
{
    if s.len() == 0 {
        seq![x]
    } else if row_after(s[0], x) {
        seq![x] + s
    } else {
        seq![s[0]] + row_insert(s.drop_first(), x)
    }
}

/// The rows ordered by name, then by workspace, equal rows kept in order.
pub open spec fn rows_ordered(items: Seq<CrateRow>) -> Seq<CrateRow>
    decreases items.len(),
{
    if items.len() == 0 {
        Seq::empty()
    } else {
        row_insert(rows_ordered(items.drop_last()), items.last())
    }
}

proof fn lemma_row_insert_at(s: Seq<CrateRow>, x: CrateRow, i: int)
    requires
        0 <= i <= s.len(),
        forall|k: int| 0 <= k < i ==> !row_after(#[trigger] s[k], x),
        i < s.len() ==> row_after(s[i], x),
    ensures
        row_insert(s, x) == s.insert(i, x),
    decreases s.len(),
{
    if s.len() == 0 {
        assert(s.insert(i, x) =~= seq![x]);
    } else if i == 0 {
        assert(s.insert(0, x) =~= seq![x] + s);
    } else {
        assert(!row_after(s[0], x));
        let t = s.drop_first();
        assert forall|k: int| 0 <= k < i - 1 implies !row_after(#[trigger] t[k], x) by {
            assert(t[k] == s[k + 1]);
        }
        lemma_row_insert_at(t, x, i - 1);
        assert(seq![s[0]] + t.insert(i - 1, x) =~= s.insert(i, x));
    }
}

/// Whether reported crate `a` comes after `b` by name, then by workspace.
fn crate_after(a: &AffectedCrate, b: &AffectedCrate) -> (r: bool)
    ensures
        r == row_after((a.name@, a.workspace@, a.is_directly_affected, a.is_standalone),
            (b.name@, b.workspace@, b.is_directly_affected, b.is_standalone)),
{
    str_lt(b.name.as_str(), a.name.as_str())
        || (str_eq(b.name.as_str(), a.name.as_str()) && str_lt(b.workspace.as_str(), a.workspace.as_str()))
}

/// Inserts a reported crate before the first one that comes after it.
fn insert_row(v: &mut Vec<AffectedCrate>, x: AffectedCrate)
    ensures
        row_views(final(v)@) == row_insert(row_views(old(v)@), (x.name@, x.workspace@, x.is_directly_affected, x.is_standalone)),
{
    let ghost s = row_views(v@);
    let ghost xv = (x.name@, x.workspace@, x.is_directly_affected, x.is_standalone);
    let mut i: usize = 0;
    while i < v.len() && !crate_after(&v[i], &x)
        invariant
            s == row_views(v@),
            s == row_views(old(v)@),
            xv == (x.name@, x.workspace@, x.is_directly_affected, x.is_standalone),
            i <= v.len(),
            forall|k: int| 0 <= k < i ==> !row_after(#[trigger] s[k], xv),
        decreases v.len() - i,
    {
        i = i + 1;
    }
    proof {
        lemma_row_insert_at(s, xv, i as int);
    }
    v.insert(i, x);
    assert(row_views(v@) =~= s.insert(i as int, xv));
}

impl<'a> AffectedAnalysis<'a> {
    /// The position of the workspace a crate belongs to, or -1.
    pub open spec fn workspace_index_of(&self, id: (Seq<char>, Seq<char>)) -> int {
        let k = id_node(self.ids(), id, self.crates@.len());
        if k < 0 { -1 } else { workspace_at(self.workspaces@, self.crate_workspaces@[k]@, self.workspaces@.len()) }
    }

    /// The reported row of an affected crate.
    pub open spec fn crate_row(&self, direct: Set<(Seq<char>, Seq<char>)>, x: (Seq<char>, Seq<char>)) -> CrateRow {
        let i = self.workspace_index_of(x);
        (x.0, if i < 0 { "unknown"@ } else { self.workspaces@[i].1.name@ }, direct.contains(x),
            i >= 0 && self.workspaces@[i].1.is_standalone)
    }

    /// The reported entry of a workspace name: the name and the path of the
    /// first workspace of that name, or `(unknown)`.
    pub open spec fn workspace_row(&self, w: Seq<char>) -> (Seq<char>, Seq<char>) {
        let i = first_workspace(self.workspaces@, w, self.workspaces@.len());
        (w, if i < 0 { "(unknown)"@ } else { self.workspaces@[i].0@ })
    }

    fn workspace_index(&self, crate_id: &CrateId) -> (r: Option<usize>)
        requires
            self.wf(),
        ensures
            match r {
                Some(i) => i as int == self.workspace_index_of(crate_id@) && i < self.workspaces@.len(),
                None => self.workspace_index_of(crate_id@) < 0,
            },
    {
        match find_id_node(&self.crates, crate_id) {
            None => None,
            Some(k) => {
                let w = self.crate_workspaces[k].as_str();
                let mut i: usize = 0;
                while i < self.workspaces.len()
                    invariant
                        self.wf(),
                        k as int == id_node(self.ids(), crate_id@, self.crates@.len()),
                        k < self.crates@.len(),
                        w@ == self.crate_workspaces@[k as int]@,
                        i <= self.workspaces@.len(),
                        workspace_at(self.workspaces@, w@, i as nat) < 0,
                    decreases self.workspaces@.len() - i,
                {
                    if str_eq(self.workspaces[i].0.as_str(), w) {
                        proof {
                            lemma_workspace_at_stable(self.workspaces@, w@, (i + 1) as nat, self.workspaces@.len());
                        }
                        return Some(i);
                    }
                    i = i + 1;
                }
                None
            },
        }
    }

    /// The path of the first workspace with the given name, or `(unknown)`.
    fn workspace_path_named(&self, name: &str) -> (r: String)
        ensures
            r@ == self.workspace_row(name@).1,
    {
        let mut j: usize = 0;
        while j < self.workspaces.len()
            invariant
                j <= self.workspaces@.len(),
                first_workspace(self.workspaces@, name@, j as nat) < 0,
            decreases self.workspaces@.len() - j,
        {
            if str_eq(self.workspaces[j].1.name.as_str(), name) {
                proof {
                    crate::commands::deps::lemma_first_workspace_stable(self.workspaces@, name@, (j + 1) as nat,
                        self.workspaces@.len());
                }
                return dup(&self.workspaces[j].0);
            }
            j = j + 1;
        }
        to_owned("(unknown)")
    }

    /// The reported entries of a list of workspace names.
    fn workspace_entries(&self, names: &Vec<String>) -> (r: Vec<AffectedWorkspace>)
        ensures
            workspace_rows(r@) == views(names@).map_values(|w: Seq<char>| self.workspace_row(w)),
    {
        let mut r: Vec<AffectedWorkspace> = Vec::new();
        for i in 0..names.len()
            invariant
                workspace_rows(r@) == views(names@).map_values(|w: Seq<char>| self.workspace_row(w)).take(i as int),
        {
            let p = self.workspace_path_named(names[i].as_str());
            let ghost before = r@;
            let ghost all = views(names@).map_values(|w: Seq<char>| self.workspace_row(w));
            assert(workspace_rows(before).len() == before.len());
            assert(all.take(i as int).len() == i);
            let entry = AffectedWorkspace { name: dup(&names[i]), path: p };
            assert((entry.name@, entry.path@) == all[i as int]);
            r.push(entry);
            assert(workspace_rows(r@)[i as int] == all[i as int]);
            assert(workspace_rows(r@) =~= views(names@).map_values(|w: Seq<char>| self.workspace_row(w)).take(i + 1));
        }
        assert(views(names@).map_values(|w: Seq<char>| self.workspace_row(w)).take(names.len() as int)
            =~= views(names@).map_values(|w: Seq<char>| self.workspace_row(w)));
        r
    }
}

impl AffectedResult {
    /// What the JSON report holds: the rows of the affected crates, the
    /// entries of the affected workspaces, the names of the directly
    /// affected crates and the entries of the directly affected workspaces.
    pub open spec fn to_json_report_spec(&self, analysis: &AffectedAnalysis) -> (
        Seq<CrateRow>,
        Seq<(Seq<char>, Seq<char>)>,
        Seq<Seq<char>>,
        Seq<(Seq<char>, Seq<char>)>,
    ) {
        (
            rows_ordered(id_views(self.all_affected_crates@).map_values(
                |x: (Seq<char>, Seq<char>)| analysis.crate_row(id_views(self.directly_affected_crates@).to_set(), x))),
            views(self.all_affected_workspaces@).map_values(|w: Seq<char>| analysis.workspace_row(w)),
            sorted_set(id_views(self.directly_affected_crates@).map_values(|x: (Seq<char>, Seq<char>)| x.0)),
            views(self.directly_affected_workspaces@).map_values(|w: Seq<char>| analysis.workspace_row(w)),
        )
    }

    /// The JSON report: the affected crates by name and workspace, with
    /// their workspace and whether they are directly affected or
    /// standalone; the affected workspaces with their paths; the names of
    /// the directly affected crates, each once, in order; and the directly
    /// affected workspaces with their paths.
    pub fn to_json_report(&self, analysis: &AffectedAnalysis) -> (r: AffectedJsonReport)
        requires
            analysis.wf(),
        ensures
            row_views(r.affected_crates@) == self.to_json_report_spec(analysis).0,
            workspace_rows(r.affected_workspaces@) == self.to_json_report_spec(analysis).1,
            views(r.directly_affected_crates@) == self.to_json_report_spec(analysis).2,
            workspace_rows(r.directly_affected_workspaces@) == self.to_json_report_spec(analysis).3,
    {
        let ghost dset = id_views(self.directly_affected_crates@).to_set();
        let ghost rows = id_views(self.all_affected_crates@).map_values(|x: (Seq<char>, Seq<char>)| analysis.crate_row(dset, x));
        let mut affected_crates: Vec<AffectedCrate> = Vec::new();
        for i in 0..self.all_affected_crates.len()
            invariant
                analysis.wf(),
                dset == id_views(self.directly_affected_crates@).to_set(),
                rows == id_views(self.all_affected_crates@).map_values(|x: (Seq<char>, Seq<char>)| analysis.crate_row(dset, x)),
                row_views(affected_crates@) == rows_ordered(rows.take(i as int)),
        {
            let id = &self.all_affected_crates[i];
            let (workspace, is_standalone) = match analysis.workspace_index(id) {
                Some(w) => (dup(&analysis.workspaces[w].1.name), analysis.workspaces[w].1.is_standalone),
                None => (to_owned("unknown"), false),
            };
            let is_direct = contains_id(&self.directly_affected_crates, id);
            proof {
                assert(id_views(self.directly_affected_crates@).to_set().contains(id@)
                    == id_views(self.directly_affected_crates@).contains(id@));
            }
            insert_row(&mut affected_crates, AffectedCrate { name: dup(&id.name), workspace, is_directly_affected: is_direct, is_standalone });
            assert(rows.take(i + 1).drop_last() =~= rows.take(i as int));
            assert(rows.take(i + 1).last() == rows[i as int]);
        }
        assert(rows.take(self.all_affected_crates.len() as int) =~= rows);
        let affected_workspaces = analysis.workspace_entries(&self.all_affected_workspaces);
        let ghost names = id_views(self.directly_affected_crates@).map_values(|x: (Seq<char>, Seq<char>)| x.0);
        let mut directly_affected_crates: Vec<String> = Vec::new();
        for i in 0..self.directly_affected_crates.len()
            invariant
                names == id_views(self.directly_affected_crates@).map_values(|x: (Seq<char>, Seq<char>)| x.0),
                strictly_sorted(views(directly_affected_crates@)),
                views(directly_affected_crates@) == sorted_set(names.take(i as int)),
        {
            proof { lemma_sorted_set_props(names.take(i as int)); }
            insert_sorted_unique(&mut directly_affected_crates, dup(&self.directly_affected_crates[i].name));
            assert(names.take(i + 1).drop_last() =~= names.take(i as int));
        }
        assert(names.take(self.directly_affected_crates.len() as int) =~= names);
        let directly_affected_workspaces = analysis.workspace_entries(&self.directly_affected_workspaces);
        AffectedJsonReport { affected_crates, affected_workspaces, directly_affected_crates, directly_affected_workspaces }
    }
}

/// Whatever depends on an affected crate is affected: when crate `v`
/// depends on crate `t`, and `t` is the crate of a directly affected
/// identifier `d` or depends on it, directly or through others, then `v`
/// is affected too.
pub proof fn law_dependents_are_affected(
    a: &AffectedAnalysis,
    direct: Set<(Seq<char>, Seq<char>)>,
    d: (Seq<char>, Seq<char>),
    t: usize,
    v: usize,
)
    requires
        a.wf(),
        direct.contains(d),
        id_node(a.ids(), d, a.crates@.len()) >= 0,
        t as int == id_node(a.ids(), d, a.crates@.len())
            || reaches_plus(arc_ints(reversed(a.arcs@)), id_node(a.ids(), d, a.crates@.len()), t as int),
        a.arcs@.contains((v, t)),
    ensures
        a.all_affected(direct).contains(a.ids()[v as int]),
{
    let rev = arc_ints(reversed(a.arcs@));
    let s = id_node(a.ids(), d, a.crates@.len());
    let k = choose|k: int| 0 <= k < a.arcs@.len() && a.arcs@[k] == (v, t);
    assert(a.arcs@[k].0 < a.crates@.len());
    assert(rev[k] == (t as int, v as int));
    assert(rev.contains((t as int, v as int)));
    if t as int == s {
        lemma_reaches_plus_first(rev, s, v as int);
    } else {
        lemma_reaches_plus_step(rev, s, t as int, v as int);
    }
    assert(a.reached(d, a.ids()[v as int]));
}

/// Every directly affected crate is affected.
pub proof fn law_direct_are_affected(a: &AffectedAnalysis, direct: Set<(Seq<char>, Seq<char>)>, x: (Seq<char>, Seq<char>))
    requires
        direct.contains(x),
    ensures
        a.all_affected(direct).contains(x),
{
}

/// What `longest_holder` picks among the first `n` crates: a crate whose
/// path holds the file, with no holder of a longer path; -1 when no crate
/// holds it.
proof fn lemma_longest_holder_is_longest(ids: Seq<(Seq<char>, Seq<char>)>, f: Seq<char>, cf: Seq<char>, n: nat)
    requires
        n <= ids.len(),
    ensures
        ({
            let b = longest_holder(ids, f, cf, n);
            &&& -1 <= b < n
            &&& b >= 0 ==> holds_file(f, cf, ids[b].1)
            &&& b >= 0 ==> forall|k: int| 0 <= k < n && holds_file(f, cf, #[trigger] ids[k].1) ==> ids[k].1.len() <= ids[b].1.len()
            &&& b < 0 ==> forall|k: int| 0 <= k < n ==> !holds_file(f, cf, #[trigger] ids[k].1)
        }),
    decreases n,
{
    if n > 0 {
        lemma_longest_holder_is_longest(ids, f, cf, (n - 1) as nat);
    }
}

proof fn lemma_path_node_has_path(ids: Seq<(Seq<char>, Seq<char>)>, p: Seq<char>, n: nat)
    requires
        n <= ids.len(),
    ensures
        -1 <= path_node(ids, p, n) < n,
        path_node(ids, p, n) >= 0 ==> ids[path_node(ids, p, n)].1 == p,
    decreases n,
{
    if n > 0 {
        lemma_path_node_has_path(ids, p, (n - 1) as nat);
    }
}

impl<'a> AffectedAnalysis<'a> {
    /// A changed file that is not a manifest at a workspace root maps to the
    /// most specific crate that holds it: one analysed crate whose path holds
    /// the file (as given or canonical), such that no crate holding the file
    /// has a longer path; and it maps to none exactly when no crate holds it.
    pub proof fn law_file_maps_to_most_specific_crate(&self, cwd: Seq<char>, table: Seq<(Seq<char>, Seq<char>)>,
        file: Seq<char>)
        requires
            ({
                let abs = canon(table, absolute_from(cwd, file));
                !(is_manifest_name(abs) && root_workspace(self.workspaces@, cwd, table, abs, self.workspaces@.len()) >= 0)
            }),
        ensures
            ({
                let abs = canon(table, absolute_from(cwd, file));
                let ids = self.ids();
                match self.file_crates(cwd, table, file) {
                    Some(s) => s.len() == 1 && ids.contains(s[0]) && holds_file(abs, canon(table, abs), s[0].1)
                        && forall|k: int| 0 <= k < ids.len() && holds_file(abs, canon(table, abs), #[trigger] ids[k].1)
                            ==> ids[k].1.len() <= s[0].1.len(),
                    None => forall|k: int| 0 <= k < ids.len() ==> !holds_file(abs, canon(table, abs), #[trigger] ids[k].1),
                }
            }),
    {
        let abs = canon(table, absolute_from(cwd, file));
        let ids = self.ids();
        let cf = canon(table, abs);
        lemma_longest_holder_is_longest(ids, abs, cf, ids.len());
        let b = longest_holder(ids, abs, cf, ids.len());
        if b >= 0 {
            lemma_path_node_found(ids, ids[b].1, b, ids.len());
            lemma_path_node_has_path(ids, ids[b].1, ids.len());
            let j = path_node(ids, ids[b].1, ids.len());
            let s = seq![ids[j]];
            assert(self.file_crates(cwd, table, file) == Some(s));
            assert(s[0] == ids[j]);
            assert(ids.contains(ids[j]));
        }
    }
}

} // verus!
