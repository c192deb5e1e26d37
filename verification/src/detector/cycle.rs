//! A detected cycle: the workspaces that take part in it, the crate-level
//! edges between them, and those edges grouped by direction.

use vstd::prelude::*;

use crate::detector::detector_impl::endpoint_names;
use crate::detector::laws::lemma_endpoint_names_has;
use crate::text::{
    dup, insert_sorted_unique, lemma_sorted_insert_props, lemma_sorted_set_props, opt_view, sorted_insert, sorted_set, str_eq,
    strictly_sorted, views,
};

verus! {

/// The view of a cycle edge: source workspace, target workspace, source
/// crate, target crate and dependency type.
pub type EdgeView = (Seq<char>, Seq<char>, Seq<char>, Seq<char>, Seq<char>);

/// A dependency edge that is part of a cycle.
#[derive(Debug, Clone, PartialEq, Eq)]
pub struct CycleEdge {
    pub from_workspace: String,
    pub to_workspace: String,
    pub from_crate: String,
    pub to_crate: String,
    pub dependency_type: String,
}

impl View for CycleEdge {
    type V = EdgeView;

    open spec fn view(&self) -> EdgeView {
        (self.from_workspace@, self.to_workspace@, self.from_crate@, self.to_crate@, self.dependency_type@)
    }
}

/// The views of a sequence of cycle edges.
pub open spec fn edge_views(s: Seq<CycleEdge>) -> Seq<EdgeView> {
    s.map_values(|e: CycleEdge| e@)
}

impl CycleEdge {
    /// A copy of the edge.
    pub fn duplicate(&self) -> (r: CycleEdge)
        ensures
            r@ == self@,
    {
        CycleEdge {
            from_workspace: dup(&self.from_workspace),
            to_workspace: dup(&self.to_workspace),
            from_crate: dup(&self.from_crate),
            to_crate: dup(&self.to_crate),
            dependency_type: dup(&self.dependency_type),
        }
    }

    pub fn from_crate(&self) -> (r: &str)
        ensures
            r@ == self.from_crate@,
    {
        self.from_crate.as_str()
    }

    pub fn to_crate(&self) -> (r: &str)
        ensures
            r@ == self.to_crate@,
    {
        self.to_crate.as_str()
    }

    pub fn dependency_type(&self) -> (r: &str)
        ensures
            r@ == self.dependency_type@,
    {
        self.dependency_type.as_str()
    }
}

/// Copies of a list of cycle edges.
pub fn duplicate_edges(edges: &[CycleEdge]) -> (r: Vec<CycleEdge>)
    ensures
        edge_views(r@) == edge_views(edges@),
{
    let mut r: Vec<CycleEdge> = Vec::new();
    for i in 0..edges.len()
        invariant
            r@.len() == i,
            edge_views(r@) == edge_views(edges@).take(i as int),
    {
        let d = edges[i].duplicate();
        let ghost before = r@;
        r.push(d);
        assert(r@ == before.push(d));
        assert(edge_views(r@) =~= edge_views(edges@).take(i + 1)) by {
            assert(edge_views(r@)[i as int] == d@);
            assert(edge_views(edges@)[i as int] == edges@[i as int]@);
        }
    }
    assert(edge_views(edges@).take(edges.len() as int) =~= edge_views(edges@));
    r
}

/// The edges of one direction: source workspace, target workspace, edges.
pub type DirectionGroup = (Seq<char>, Seq<char>, Seq<EdgeView>);

/// The index of the group of direction `from` → `to` among the first `n`
/// groups, or -1.
pub open spec fn group_index(groups: Seq<DirectionGroup>, from: Seq<char>, to: Seq<char>, n: nat) -> int
    decreases n,
{
    if n == 0 {
        -1
    } else {
        let i = group_index(groups, from, to, (n - 1) as nat);
        if i >= 0 {
            i
        } else if groups[n - 1].0 == from && groups[n - 1].1 == to {
            n - 1
        } else {
            -1
        }
    }
}

/// `groups` with `e` added to the group of its direction, or to a new group
/// at the end.
pub open spec fn add_to_groups(groups: Seq<DirectionGroup>, e: EdgeView) -> Seq<DirectionGroup> {
    let i = group_index(groups, e.0, e.1, groups.len());
    if i >= 0 {
        groups.update(i, (groups[i].0, groups[i].1, groups[i].2.push(e)))
    } else {
        groups.push((e.0, e.1, seq![e]))
    }
}

/// The edges grouped by direction, the groups in order of first appearance
/// and the edges of each group in the order they were given.
pub open spec fn group_by_direction(edges: Seq<EdgeView>) -> Seq<DirectionGroup>
    decreases edges.len(),
{
    if edges.len() == 0 {
        Seq::empty()
    } else {
        add_to_groups(group_by_direction(edges.drop_last()), edges.last())
    }
}

pub proof fn lemma_group_index_bounds(groups: Seq<DirectionGroup>, from: Seq<char>, to: Seq<char>, n: nat)
    requires
        n <= groups.len(),
    ensures
        -1 <= group_index(groups, from, to, n) < n,
        group_index(groups, from, to, n) >= 0 ==> groups[group_index(groups, from, to, n)].0 == from
            && groups[group_index(groups, from, to, n)].1 == to,
        group_index(groups, from, to, n) < 0 ==> forall|k: int| 0 <= k < n ==>
            !(#[trigger] groups[k].0 == from && groups[k].1 == to),
    decreases n,
{
    if n > 0 {
        lemma_group_index_bounds(groups, from, to, (n - 1) as nat);
    }
}

pub proof fn lemma_group_index_stable(groups: Seq<DirectionGroup>, from: Seq<char>, to: Seq<char>, m: nat, n: nat)
    requires
        m <= n,
        group_index(groups, from, to, m) >= 0,
    ensures
        group_index(groups, from, to, n) == group_index(groups, from, to, m),
    decreases n - m,
{
    if m < n {
        lemma_group_index_stable(groups, from, to, m, (n - 1) as nat);
    }
}

/// Edges grouped by direction; each direction appears once.
#[derive(Debug, Clone)]
pub struct DirectionMap {
    entries: Vec<DirectionEntry>,
}

#[derive(Debug, Clone)]
struct DirectionEntry {
    from: String,
    to: String,
    edges: Vec<CycleEdge>,
}

impl View for DirectionEntry {
    type V = DirectionGroup;

    closed spec fn view(&self) -> DirectionGroup {
        (self.from@, self.to@, edge_views(self.edges@))
    }
}

impl View for DirectionMap {
    type V = Seq<DirectionGroup>;

    closed spec fn view(&self) -> Seq<DirectionGroup> {
        self.entries@.map_values(|e: DirectionEntry| e@)
    }
}

impl DirectionMap {
    /// An empty map.
    pub fn new() -> (r: Self)
        ensures
            r@ == Seq::<DirectionGroup>::empty(),
    {
        let r = DirectionMap { entries: Vec::new() };
        assert(r@ =~= Seq::<DirectionGroup>::empty());
        r
    }

    /// The number of directions.
    pub fn len(&self) -> (r: usize)
        ensures
            r == self@.len(),
    {
        self.entries.len()
    }

    /// The position of the direction `from` → `to`.
    pub fn position(&self, from: &str, to: &str) -> (r: Option<usize>)
        ensures
            r matches Some(i) ==> i as int == group_index(self@, from@, to@, self@.len()) && i < self@.len(),
            r is None ==> group_index(self@, from@, to@, self@.len()) < 0,
    {
        let mut i: usize = 0;
        while i < self.entries.len()
            invariant
                i <= self.entries.len(),
                self@.len() == self.entries.len(),
                group_index(self@, from@, to@, i as nat) < 0,
            decreases self.entries.len() - i,
        {
            assert(self@[i as int] == self.entries@[i as int]@);
            if str_eq(self.entries[i].from.as_str(), from) && str_eq(self.entries[i].to.as_str(), to) {
                proof {
                    lemma_group_index_stable(self@, from@, to@, (i + 1) as nat, self@.len());
                }
                return Some(i);
            }
            i = i + 1;
        }
        None
    }

    /// Whether the direction `key.0` → `key.1` has edges.
    pub fn contains_key(&self, key: &(String, String)) -> (r: bool)
        ensures
            r == (group_index(self@, key.0@, key.1@, self@.len()) >= 0),
    {
        self.position(key.0.as_str(), key.1.as_str()).is_some()
    }

    /// The edges of the direction `key.0` → `key.1`.
    pub fn get(&self, key: &(String, String)) -> (r: Option<&Vec<CycleEdge>>)
        ensures
            r is Some == (group_index(self@, key.0@, key.1@, self@.len()) >= 0),
            r matches Some(v) ==> edge_views(v@) == self@[group_index(self@, key.0@, key.1@, self@.len())].2,
    {
        match self.position(key.0.as_str(), key.1.as_str()) {
            Some(i) => {
                assert(self@[i as int] == self.entries@[i as int]@);
                Some(&self.entries[i].edges)
            },
            None => None,
        }
    }

    /// The directions, in order of first appearance.
    pub fn keys(&self) -> (r: Vec<(String, String)>)
        ensures
            r@.len() == self@.len(),
            forall|i: int| 0 <= i < r@.len() ==> (#[trigger] r@[i]).0@ == self@[i].0 && r@[i].1@ == self@[i].1,
    {
        let mut r: Vec<(String, String)> = Vec::new();
        for i in 0..self.entries.len()
            invariant
                self@.len() == self.entries.len(),
                r@.len() == i,
                forall|k: int| 0 <= k < i ==> (#[trigger] r@[k]).0@ == self@[k].0 && r@[k].1@ == self@[k].1,
        {
            assert(self@[i as int] == self.entries@[i as int]@);
            r.push((dup(&self.entries[i].from), dup(&self.entries[i].to)));
        }
        r
    }

    /// The `i`-th direction: source workspace, target workspace and edges.
    pub fn entry(&self, i: usize) -> (r: (&String, &String, &Vec<CycleEdge>))
        requires
            i < self@.len(),
        ensures
            r.0@ == self@[i as int].0,
            r.1@ == self@[i as int].1,
            edge_views(r.2@) == self@[i as int].2,
    {
        assert(self@[i as int] == self.entries@[i as int]@);
        let e = &self.entries[i];
        (&e.from, &e.to, &e.edges)
    }

    /// Adds an edge to the group of its direction.
    pub fn add(&mut self, e: CycleEdge)
        ensures
            final(self)@ == add_to_groups(old(self)@, e@),
    {
        let ghost old_view = self@;
        match self.position(e.from_workspace.as_str(), e.to_workspace.as_str()) {
            Some(i) => {
                proof {
                    lemma_group_index_bounds(old_view, e@.0, e@.1, old_view.len());
                }
                let mut entry = self.entries.remove(i);
                assert(entry@ == old_view[i as int]);
                let ghost before = edge_views(entry.edges@);
                entry.edges.push(e);
                assert(edge_views(entry.edges@) =~= before.push(e@));
                self.entries.insert(i, entry);
                assert(self@ =~= add_to_groups(old_view, e@));
            },
            None => {
                let from = dup(&e.from_workspace);
                let to = dup(&e.to_workspace);
                let mut edges: Vec<CycleEdge> = Vec::new();
                edges.push(e);
                let entry = DirectionEntry { from, to, edges };
                assert(edge_views(entry.edges@) =~= seq![e@]);
                self.entries.push(entry);
                assert(self@ =~= add_to_groups(old_view, e@));
            },
        }
    }
}


/// The view of a cycle: its workspace names in increasing order, and its
/// edges in the order they were found.
pub type CycleView = (Seq<Seq<char>>, Seq<EdgeView>);

/// The names include both workspaces of every edge.
pub open spec fn names_cover(names: Seq<Seq<char>>, edges: Seq<EdgeView>) -> bool {
    forall|k: int| 0 <= k < edges.len() ==> names.contains((#[trigger] edges[k]).0) && names.contains(edges[k].1)
}

/// A dependency cycle between workspaces.
#[derive(Debug)]
pub struct WorkspaceCycle {
    workspace_names: Vec<String>,
    edges: Vec<CycleEdge>,
    edges_by_direction: DirectionMap,
}

impl View for WorkspaceCycle {
    type V = CycleView;

    closed spec fn view(&self) -> CycleView {
        (views(self.workspace_names@), edge_views(self.edges@))
    }
}

impl WorkspaceCycle {
    /// The names are strictly increasing and include the workspaces of
    /// every edge, and the direction map groups the edges.
    #[verifier::type_invariant]
    closed spec fn wf(&self) -> bool {
        &&& strictly_sorted(views(self.workspace_names@))
        &&& names_cover(views(self.workspace_names@), edge_views(self.edges@))
        &&& self.edges_by_direction@ == group_by_direction(edge_views(self.edges@))
    }

    /// The edges grouped by direction.
    pub closed spec fn directions(&self) -> Seq<DirectionGroup> {
        self.edges_by_direction@
    }

    pub fn builder() -> (r: WorkspaceCycleBuilder)
        ensures
            r@ == (Seq::<Seq<char>>::empty(), Seq::<EdgeView>::empty()),
    {
        WorkspaceCycleBuilder::new()
    }

    /// The workspaces of the cycle, in increasing order; they include both
    /// workspaces of every edge.
    pub fn workspace_names(&self) -> (r: &[String])
        ensures
            views(r@) == self@.0,
            strictly_sorted(self@.0),
            names_cover(self@.0, self@.1),
    {
        proof { use_type_invariant(self); }
        self.workspace_names.as_slice()
    }

    /// The edges of the cycle.
    pub fn edges(&self) -> (r: &[CycleEdge])
        ensures
            edge_views(r@) == self@.1,
    {
        self.edges.as_slice()
    }

    /// The edges of the cycle grouped by direction.
    pub fn edges_by_direction(&self) -> (r: &DirectionMap)
        ensures
            r@ == self.directions(),
            r@ == group_by_direction(self@.1),
    {
        proof { use_type_invariant(self); }
        &self.edges_by_direction
    }

    /// A copy of the cycle.
    pub fn duplicate(&self) -> (r: WorkspaceCycle)
        ensures
            r@ == self@,
    {
        proof { use_type_invariant(self); }
        let mut names: Vec<String> = Vec::new();
        for i in 0..self.workspace_names.len()
            invariant
                names@.len() == i,
                views(names@) == views(self.workspace_names@).take(i as int),
        {
            let n = dup(&self.workspace_names[i]);
            let ghost before = names@;
            names.push(n);
            assert(names@ == before.push(n));
            assert(views(names@) =~= views(self.workspace_names@).take(i + 1)) by {
                assert(views(names@)[i as int] == n@);
            }
        }
        assert(views(self.workspace_names@).take(self.workspace_names.len() as int)
            =~= views(self.workspace_names@));
        let edges = duplicate_edges(self.edges.as_slice());
        let mut map = DirectionMap::new();
        for i in 0..edges.len()
            invariant
                map@ == group_by_direction(edge_views(edges@).take(i as int)),
        {
            assert(edge_views(edges@).take(i + 1).drop_last() =~= edge_views(edges@).take(i as int));
            map.add(edges[i].duplicate());
        }
        assert(edge_views(edges@).take(edges.len() as int) =~= edge_views(edges@));
        WorkspaceCycle { workspace_names: names, edges, edges_by_direction: map }
    }
}

impl Clone for WorkspaceCycle {
    fn clone(&self) -> (r: Self)
        ensures
            r@ == self@,
    {
        self.duplicate()
    }
}

/// Collects the edges of a cycle; the workspace names are kept as a set.
pub struct WorkspaceCycleBuilder {
    workspace_names: Vec<String>,
    edges: Vec<CycleEdge>,
    edges_by_direction: DirectionMap,
}

impl View for WorkspaceCycleBuilder {
    type V = CycleView;

    closed spec fn view(&self) -> CycleView {
        (views(self.workspace_names@), edge_views(self.edges@))
    }
}

impl WorkspaceCycleBuilder {
    #[verifier::type_invariant]
    closed spec fn wf(&self) -> bool {
        &&& strictly_sorted(views(self.workspace_names@))
        &&& names_cover(views(self.workspace_names@), edge_views(self.edges@))
        &&& self.edges_by_direction@ == group_by_direction(edge_views(self.edges@))
    }

    pub fn new() -> (r: Self)
        ensures
            r@ == (Seq::<Seq<char>>::empty(), Seq::<EdgeView>::empty()),
    {
        let r = WorkspaceCycleBuilder {
            workspace_names: Vec::new(),
            edges: Vec::new(),
            edges_by_direction: DirectionMap::new(),
        };
        assert(views(r.workspace_names@) =~= Seq::<Seq<char>>::empty());
        assert(edge_views(r.edges@) =~= Seq::<EdgeView>::empty());
        r
    }

    /// Starts an edge; the edge builder adds it to this cycle.
    pub fn add_edge(self) -> (r: CycleEdgeBuilder<WorkspaceCycleBuilder>)
        ensures
            r.parent_spec()@ == self@,
            r.is_blank(),
    {
        CycleEdgeBuilder::new(self)
    }

    /// Sets the workspace names to the distinct given names, together with
    /// the workspaces of the edges already added (none, for any builder
    /// outside this crate: edges are only added through an edge builder,
    /// which never hands its cycle builder back).
    pub fn with_workspace_names(self, names: Vec<String>) -> (r: Self)
        ensures
            r@ == (sorted_set(views(names@) + endpoint_names(self@.1)), self@.1),
    {
        proof { use_type_invariant(&self); }
        let WorkspaceCycleBuilder { workspace_names: _, edges, edges_by_direction } = self;
        let mut set: Vec<String> = Vec::new();
        assert(views(set@) =~= sorted_set(views(names@).take(0)));
        let rest = names;
        let ghost all = views(rest@);
        let mut idx: usize = 0;
        while idx < rest.len()
            invariant
                all == views(rest@),
                idx <= rest.len(),
                views(set@) == sorted_set(all.take(idx as int)),
                strictly_sorted(views(set@)),
            decreases rest.len() - idx,
        {
            let n = dup(&rest[idx]);
            insert_sorted_unique(&mut set, n);
            assert(all.take(idx + 1).drop_last() =~= all.take(idx as int));
            idx = idx + 1;
        }
        assert(all.take(rest.len() as int) =~= all);
        let ghost ev = edge_views(edges@);
        assert(all + endpoint_names(ev.take(0)) =~= all) by {
            assert(ev.take(0) =~= Seq::<EdgeView>::empty());
        }
        for j in 0..edges.len()
            invariant
                ev == edge_views(edges@),
                strictly_sorted(views(set@)),
                views(set@) == sorted_set(all + endpoint_names(ev.take(j as int))),
        {
            let ghost before = all + endpoint_names(ev.take(j as int));
            assert(ev.take(j + 1).drop_last() =~= ev.take(j as int));
            assert(ev.take(j + 1).last() == edges@[j as int]@);
            assert(endpoint_names(ev.take(j + 1)) == endpoint_names(ev.take(j as int))
                + seq![edges@[j as int]@.0, edges@[j as int]@.1]);
            let ghost after = all + endpoint_names(ev.take(j + 1));
            assert(after =~= before.push(edges@[j as int]@.0).push(edges@[j as int]@.1));
            assert(after.drop_last() =~= before.push(edges@[j as int]@.0));
            assert(before.push(edges@[j as int]@.0).drop_last() =~= before);
            let a = dup(&edges[j].from_workspace);
            let b = dup(&edges[j].to_workspace);
            assert(a@ == edges@[j as int]@.0 && b@ == edges@[j as int]@.1);
            insert_sorted_unique(&mut set, a);
            insert_sorted_unique(&mut set, b);
            assert(sorted_set(before.push(edges@[j as int]@.0)) == sorted_insert(sorted_set(before), edges@[j as int]@.0));
            assert(sorted_set(after) == sorted_insert(sorted_set(before.push(edges@[j as int]@.0)), edges@[j as int]@.1));
        }
        assert(ev.take(edges.len() as int) =~= ev);
        proof {
            let full = all + endpoint_names(ev);
            lemma_sorted_set_props(full);
            assert forall|k: int| 0 <= k < ev.len() implies views(set@).contains((#[trigger] ev[k]).0)
                && views(set@).contains(ev[k].1) by {
                lemma_endpoint_names_has(ev, k);
                let en = endpoint_names(ev);
                let i = choose|i: int| 0 <= i < en.len() && en[i] == ev[k].0;
                let i2 = choose|i2: int| 0 <= i2 < en.len() && en[i2] == ev[k].1;
                assert(full[all.len() + i] == ev[k].0);
                assert(full[all.len() + i2] == ev[k].1);
                assert(full.to_set().contains(ev[k].0));
                assert(full.to_set().contains(ev[k].1));
                assert(views(set@).to_set().contains(ev[k].0));
                assert(views(set@).to_set().contains(ev[k].1));
            }
        }
        WorkspaceCycleBuilder { workspace_names: set, edges, edges_by_direction }
    }

    /// Adds an edge, and its two workspaces to the names.
    pub(crate) fn add_edge_internal(&mut self, edge: CycleEdge)
        ensures
            final(self)@ == (sorted_insert(sorted_insert(old(self)@.0, edge@.0), edge@.1),
                old(self)@.1.push(edge@)),
    {
        proof { use_type_invariant(&*self); }
        let from = dup(&edge.from_workspace);
        let to = dup(&edge.to_workspace);
        let copy = edge.duplicate();
        let mut current = WorkspaceCycleBuilder::new();
        std::mem::swap(&mut current, self);
        proof { use_type_invariant(&current); }
        let WorkspaceCycleBuilder { workspace_names: mut names, mut edges, edges_by_direction: mut map } = current;
        let ghost n0 = views(names@);
        insert_sorted_unique(&mut names, from);
        let ghost n1 = views(names@);
        insert_sorted_unique(&mut names, to);
        let ghost before = edges@;
        edges.push(edge);
        assert(edge_views(edges@) =~= edge_views(before).push(copy@));
        assert(edge_views(edges@).drop_last() =~= edge_views(before));
        proof {
            lemma_sorted_insert_props(n0, copy@.0);
            lemma_sorted_insert_props(n1, copy@.1);
            let nv = views(names@);
            let ev = edge_views(edges@);
            assert forall|k: int| 0 <= k < ev.len() implies nv.contains((#[trigger] ev[k]).0) && nv.contains(ev[k].1) by {
                if k < before.len() {
                    assert(ev[k] == edge_views(before)[k]);
                    assert(n0.to_set().contains(ev[k].0) && n0.to_set().contains(ev[k].1));
                } else {
                    assert(ev[k] == copy@);
                }
                assert(nv.to_set().contains(ev[k].0));
                assert(nv.to_set().contains(ev[k].1));
            }
        }
        map.add(copy);
        *self = WorkspaceCycleBuilder { workspace_names: names, edges, edges_by_direction: map };
    }

    /// The edges added so far.
    pub fn edges(&self) -> (r: &[CycleEdge])
        ensures
            edge_views(r@) == self@.1,
    {
        self.edges.as_slice()
    }

    /// The cycle.
    pub fn build(self) -> (r: WorkspaceCycle)
        ensures
            r@ == self@,
    {
        proof { use_type_invariant(&self); }
        WorkspaceCycle {
            workspace_names: self.workspace_names,
            edges: self.edges,
            edges_by_direction: self.edges_by_direction,
        }
    }
}

/// Builds one edge of a cycle; every field must be set before the edge is
/// added.
pub struct CycleEdgeBuilder<T> {
    parent: T,
    from_workspace: Option<String>,
    to_workspace: Option<String>,
    from_crate: Option<String>,
    to_crate: Option<String>,
    dependency_type: Option<String>,
}

impl<T> CycleEdgeBuilder<T> {
    /// The builder of the cycle this edge goes into.
    pub closed spec fn parent_spec(&self) -> T {
        self.parent
    }

    /// The fields set so far: source and target workspace, source and
    /// target crate, and dependency type.
    pub closed spec fn fields(&self) -> (Option<Seq<char>>, Option<Seq<char>>, Option<Seq<char>>, Option<Seq<char>>,
        Option<Seq<char>>)
    {
        (opt_view(self.from_workspace), opt_view(self.to_workspace), opt_view(self.from_crate), opt_view(self.to_crate),
            opt_view(self.dependency_type))
    }

    /// No field is set yet.
    pub open spec fn is_blank(&self) -> bool {
        self.fields() == (None::<Seq<char>>, None::<Seq<char>>, None::<Seq<char>>, None::<Seq<char>>, None::<Seq<char>>)
    }

    fn new(parent: T) -> (r: Self)
        ensures
            r.parent_spec() == parent,
            r.is_blank(),
    {
        CycleEdgeBuilder {
            parent,
            from_workspace: None,
            to_workspace: None,
            from_crate: None,
            to_crate: None,
            dependency_type: None,
        }
    }

    pub fn from_workspace(self, ws: &str) -> (r: Self)
        ensures
            r.fields() == (Some(ws@), self.fields().1, self.fields().2, self.fields().3, self.fields().4),
            r.parent_spec() == self.parent_spec(),
    {
        CycleEdgeBuilder { from_workspace: Some(crate::text::to_owned(ws)), ..self }
    }

    pub fn to_workspace(self, ws: &str) -> (r: Self)
        ensures
            r.fields() == (self.fields().0, Some(ws@), self.fields().2, self.fields().3, self.fields().4),
            r.parent_spec() == self.parent_spec(),
    {
        CycleEdgeBuilder { to_workspace: Some(crate::text::to_owned(ws)), ..self }
    }

    pub fn from_crate(self, cr: &str) -> (r: Self)
        ensures
            r.fields() == (self.fields().0, self.fields().1, Some(cr@), self.fields().3, self.fields().4),
            r.parent_spec() == self.parent_spec(),
    {
        CycleEdgeBuilder { from_crate: Some(crate::text::to_owned(cr)), ..self }
    }

    pub fn to_crate(self, cr: &str) -> (r: Self)
        ensures
            r.fields() == (self.fields().0, self.fields().1, self.fields().2, Some(cr@), self.fields().4),
            r.parent_spec() == self.parent_spec(),
    {
        CycleEdgeBuilder { to_crate: Some(crate::text::to_owned(cr)), ..self }
    }

    pub fn dependency_type(self, dt: &str) -> (r: Self)
        ensures
            r.fields() == (self.fields().0, self.fields().1, self.fields().2, self.fields().3, Some(dt@)),
            r.parent_spec() == self.parent_spec(),
    {
        CycleEdgeBuilder { dependency_type: Some(crate::text::to_owned(dt)), ..self }
    }
}

impl<T> CycleEdgeBuilder<T> {
    /// Every field of the edge is set.
    pub open spec fn complete(&self) -> bool {
        self.fields().0 is Some && self.fields().1 is Some && self.fields().2 is Some
            && self.fields().3 is Some && self.fields().4 is Some
    }

    /// The edge that the fields describe.
    pub open spec fn edge_view(&self) -> EdgeView {
        (self.fields().0.unwrap(), self.fields().1.unwrap(), self.fields().2.unwrap(), self.fields().3.unwrap(),
            self.fields().4.unwrap())
    }
}

/// The cycle with `e` added, as `add_edge_internal` adds it.
pub open spec fn with_edge(c: CycleView, e: EdgeView) -> CycleView {
    (sorted_insert(sorted_insert(c.0, e.0), e.1), c.1.push(e))
}

impl CycleEdgeBuilder<WorkspaceCycleBuilder> {
    /// Adds this edge to the cycle and starts the next one.
    pub fn add_edge(self) -> (r: CycleEdgeBuilder<WorkspaceCycleBuilder>)
        requires
            self.complete(),
        ensures
            r.parent_spec()@ == with_edge(self.parent_spec()@, self.edge_view()),
            r.is_blank(),
    {
        let parent = self.build_and_add();
        CycleEdgeBuilder::new(parent)
    }

    /// Adds this edge to the cycle and builds the cycle.
    pub fn build(self) -> (r: WorkspaceCycle)
        requires
            self.complete(),
        ensures
            r@ == with_edge(self.parent_spec()@, self.edge_view()),
    {
        let parent = self.build_and_add();
        parent.build()
    }

    fn build_and_add(self) -> (r: WorkspaceCycleBuilder)
        requires
            self.complete(),
        ensures
            r@ == with_edge(self.parent_spec()@, self.edge_view()),
    {
        let CycleEdgeBuilder { mut parent, from_workspace, to_workspace, from_crate, to_crate, dependency_type } = self;
        let edge = CycleEdge {
            from_workspace: from_workspace.unwrap(),
            to_workspace: to_workspace.unwrap(),
            from_crate: from_crate.unwrap(),
            to_crate: to_crate.unwrap(),
            dependency_type: dependency_type.unwrap(),
        };
        parent.add_edge_internal(edge);
        parent
    }
}

} // verus!
