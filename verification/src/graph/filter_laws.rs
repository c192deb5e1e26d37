//! What the graph builder keeps out of the workspace graph: the kinds of
//! dependencies that its filter excludes never become edges.

use vstd::prelude::*;

use crate::analyzer::analyzer_impl::{CrateMember, Dependency, WorkspaceInfo};
use crate::dependency_filter::DependencyFilter;
use crate::graph::builder::{
    cross_edges, cross_jobs, cross_result, dep_jobs, flat_members, intra_dep_edges, intra_edges_upto, intra_member_edges,
    intra_target_edges, crate_index, job_edges, member_jobs, shifted, target_jobs, GraphEdgeView, Job, LookupView,
};
use crate::graph::types::DependencyType;

verus! {

/// An edge that the filter lets through: not of an excluded kind, and
/// without a target when target-specific dependencies are excluded.
pub open spec fn edge_passes(filter: DependencyFilter, e: GraphEdgeView) -> bool {
    &&& filter.excludes_dev() ==> e.2.2 != DependencyType::Dev
    &&& filter.excludes_build() ==> e.2.2 != DependencyType::Build
    &&& filter.excludes_target() ==> e.2.3 is None
}

proof fn lemma_dep_jobs_typed(i: int, m: CrateMember, ws_path: Seq<char>, deps: Seq<Dependency>, ty: DependencyType,
    target: Option<Seq<char>>, filter: DependencyFilter, n: nat)
    ensures
        forall|q: int| 0 <= q < dep_jobs(i, m, ws_path, deps, ty, target, filter, n).len() ==>
            (#[trigger] dep_jobs(i, m, ws_path, deps, ty, target, filter, n)[q]).3 == ty
            && (filter.excludes_target() ==> dep_jobs(i, m, ws_path, deps, ty, target, filter, n)[q].2.3 is None),
    decreases n,
{
    if n > 0 {
        lemma_dep_jobs_typed(i, m, ws_path, deps, ty, target, filter, (n - 1) as nat);
    }
}

proof fn lemma_target_jobs_typed(i: int, m: CrateMember, ws_path: Seq<char>, filter: DependencyFilter, n: nat)
    requires
        n <= m.target_dependencies@.len(),
    ensures
        forall|q: int| 0 <= q < target_jobs(i, m, ws_path, filter, n).len() ==>
            (#[trigger] target_jobs(i, m, ws_path, filter, n)[q]).3 == DependencyType::Normal,
    decreases n,
{
    if n > 0 {
        let g = m.target_dependencies@[n - 1];
        lemma_target_jobs_typed(i, m, ws_path, filter, (n - 1) as nat);
        lemma_dep_jobs_typed(i, m, ws_path, g.1@, DependencyType::Normal, Some(g.0@), filter, g.1@.len());
    }
}

/// The jobs of a crate, as edges would carry them, all pass the filter.
pub open spec fn job_passes(filter: DependencyFilter, j: Job) -> bool {
    &&& filter.excludes_dev() ==> j.3 != DependencyType::Dev
    &&& filter.excludes_build() ==> j.3 != DependencyType::Build
    &&& filter.excludes_target() ==> j.2.3 is None
}

proof fn lemma_member_jobs_pass(i: int, m: CrateMember, ws_path: Seq<char>, filter: DependencyFilter)
    ensures
        forall|q: int| 0 <= q < member_jobs(i, m, ws_path, filter).len() ==>
            job_passes(filter, #[trigger] member_jobs(i, m, ws_path, filter)[q]),
{
    let a = dep_jobs(i, m, ws_path, m.dependencies@, DependencyType::Normal, None, filter, m.dependencies@.len());
    let b = if filter.excludes_dev() { Seq::empty() } else {
        dep_jobs(i, m, ws_path, m.dev_dependencies@, DependencyType::Dev, None, filter, m.dev_dependencies@.len())
    };
    let c = if filter.excludes_build() { Seq::empty() } else {
        dep_jobs(i, m, ws_path, m.build_dependencies@, DependencyType::Build, None, filter, m.build_dependencies@.len())
    };
    let d = if filter.excludes_target() { Seq::empty() } else {
        target_jobs(i, m, ws_path, filter, m.target_dependencies@.len())
    };
    lemma_dep_jobs_typed(i, m, ws_path, m.dependencies@, DependencyType::Normal, None, filter, m.dependencies@.len());
    lemma_dep_jobs_typed(i, m, ws_path, m.dev_dependencies@, DependencyType::Dev, None, filter, m.dev_dependencies@.len());
    lemma_dep_jobs_typed(i, m, ws_path, m.build_dependencies@, DependencyType::Build, None, filter, m.build_dependencies@.len());
    lemma_target_jobs_typed(i, m, ws_path, filter, m.target_dependencies@.len());
    let all = member_jobs(i, m, ws_path, filter);
    assert(all == a + b + c + d);
    assert forall|q: int| 0 <= q < all.len() implies job_passes(filter, #[trigger] all[q]) by {
        if q < a.len() {
            assert(all[q] == a[q]);
        } else if q < a.len() + b.len() {
            assert(all[q] == b[q - a.len()]);
        } else if q < a.len() + b.len() + c.len() {
            assert(all[q] == c[q - a.len() - b.len()]);
        } else {
            assert(all[q] == d[q - a.len() - b.len() - c.len()]);
        }
    }
}

proof fn lemma_cross_jobs_pass(ws: Seq<(String, WorkspaceInfo)>, filter: DependencyFilter, n: nat)
    requires
        n <= flat_members(ws).len(),
    ensures
        forall|q: int| 0 <= q < cross_jobs(ws, filter, n).len() ==> job_passes(filter, #[trigger] cross_jobs(ws, filter, n)[q]),
    decreases n,
{
    if n > 0 {
        lemma_cross_jobs_pass(ws, filter, (n - 1) as nat);
        let fm = flat_members(ws)[n - 1];
        lemma_member_jobs_pass(fm.0, fm.1, ws[fm.0].0@, filter);
        let a = cross_jobs(ws, filter, (n - 1) as nat);
        let b = member_jobs(fm.0, fm.1, ws[fm.0].0@, filter);
        assert(cross_jobs(ws, filter, n) == a + b);
        assert forall|q: int| 0 <= q < (a + b).len() implies job_passes(filter, #[trigger] (a + b)[q]) by {
            if q < a.len() {
                assert((a + b)[q] == a[q]);
            } else {
                assert((a + b)[q] == b[q - a.len()]);
            }
        }
    }
}

proof fn lemma_job_edges_carry(ws: Seq<(String, WorkspaceInfo)>, job: Job, targets: Seq<Seq<char>>, n: nat)
    ensures
        forall|q: int| 0 <= q < job_edges(ws, job, targets, n).len() ==>
            (#[trigger] job_edges(ws, job, targets, n)[q]).2.2 == job.3 && job_edges(ws, job, targets, n)[q].2.3 == job.2.3,
    decreases n,
{
    if n > 0 {
        lemma_job_edges_carry(ws, job, targets, (n - 1) as nat);
        let prev = job_edges(ws, job, targets, (n - 1) as nat);
        let cur = job_edges(ws, job, targets, n);
        assert forall|q: int| 0 <= q < cur.len() implies (#[trigger] cur[q]).2.2 == job.3 && cur[q].2.3 == job.2.3 by {
            if q < prev.len() {
                assert(cur[q] == prev[q]);
            }
        }
    }
}

proof fn lemma_cross_edges_pass(ws: Seq<(String, WorkspaceInfo)>, jobs: Seq<Job>, res: Seq<Seq<Seq<char>>>,
    filter: DependencyFilter, n: nat)
    requires
        n <= jobs.len(),
        n <= res.len(),
        forall|q: int| 0 <= q < jobs.len() ==> job_passes(filter, #[trigger] jobs[q]),
    ensures
        forall|q: int| 0 <= q < cross_edges(ws, jobs, res, n).len() ==> edge_passes(filter, #[trigger] cross_edges(ws, jobs, res, n)[q]),
    decreases n,
{
    if n > 0 {
        lemma_cross_edges_pass(ws, jobs, res, filter, (n - 1) as nat);
        lemma_job_edges_carry(ws, jobs[n - 1], res[n - 1], res[n - 1].len());
        assert(job_passes(filter, jobs[n - 1]));
        let a = cross_edges(ws, jobs, res, (n - 1) as nat);
        let b = job_edges(ws, jobs[n - 1], res[n - 1], res[n - 1].len());
        assert(cross_edges(ws, jobs, res, n) == a + b);
        assert forall|q: int| 0 <= q < (a + b).len() implies edge_passes(filter, #[trigger] (a + b)[q]) by {
            if q < a.len() {
                assert((a + b)[q] == a[q]);
            } else {
                assert((a + b)[q] == b[q - a.len()]);
            }
        }
    }
}

/// Building the workspace graph adds no edge that the filter excludes: with
/// dev (or build) dependencies excluded no new edge has that type, and with
/// target-specific dependencies excluded no new edge has a target.
pub proof fn law_cross_graph_respects_filter(ws: Seq<(String, WorkspaceInfo)>, filter: DependencyFilter, tab: LookupView,
    old_edges: Seq<GraphEdgeView>, off: int, new_edges: Seq<GraphEdgeView>, res: Seq<Seq<Seq<char>>>)
    requires
        cross_result(ws, filter, tab, old_edges, off, new_edges, res),
    ensures
        forall|k: int| old_edges.len() <= k < new_edges.len() ==> edge_passes(filter, #[trigger] new_edges[k]),
{
    let jobs = cross_jobs(ws, filter, flat_members(ws).len());
    lemma_cross_jobs_pass(ws, filter, flat_members(ws).len());
    lemma_cross_edges_pass(ws, jobs, res, filter, jobs.len());
    let es = cross_edges(ws, jobs, res, jobs.len());
    assert forall|k: int| old_edges.len() <= k < new_edges.len() implies edge_passes(filter, #[trigger] new_edges[k]) by {
        let q = k - old_edges.len();
        assert(new_edges[k] == shifted(es, off)[q]);
        assert(shifted(es, off)[q].2 == es[q].2);
        assert(edge_passes(filter, es[q]));
    }
}

proof fn lemma_intra_dep_edges_typed(ws: Seq<(String, WorkspaceInfo)>, wi: int, from: int, crate_name: Seq<char>,
    deps: Seq<Dependency>, ty: DependencyType, target: Option<Seq<char>>, filter: DependencyFilter, n: nat)
    ensures
        forall|q: int| 0 <= q < intra_dep_edges(ws, wi, from, crate_name, deps, ty, target, filter, n).len() ==>
            (#[trigger] intra_dep_edges(ws, wi, from, crate_name, deps, ty, target, filter, n)[q]).2.2 == ty
            && (filter.excludes_target() && target is None
                ==> intra_dep_edges(ws, wi, from, crate_name, deps, ty, target, filter, n)[q].2.3 is None),
    decreases n,
{
    if n > 0 {
        lemma_intra_dep_edges_typed(ws, wi, from, crate_name, deps, ty, target, filter, (n - 1) as nat);
        let prev = intra_dep_edges(ws, wi, from, crate_name, deps, ty, target, filter, (n - 1) as nat);
        let cur = intra_dep_edges(ws, wi, from, crate_name, deps, ty, target, filter, n);
        assert forall|q: int| 0 <= q < cur.len() implies (#[trigger] cur[q]).2.2 == ty
            && (filter.excludes_target() && target is None ==> cur[q].2.3 is None) by {
            if q < prev.len() {
                assert(cur[q] == prev[q]);
            }
        }
    }
}

proof fn lemma_intra_target_edges_typed(ws: Seq<(String, WorkspaceInfo)>, wi: int, from: int, crate_name: Seq<char>,
    groups: Seq<(String, Vec<Dependency>)>, filter: DependencyFilter, n: nat)
    requires
        n <= groups.len(),
    ensures
        forall|q: int| 0 <= q < intra_target_edges(ws, wi, from, crate_name, groups, filter, n).len() ==>
            (#[trigger] intra_target_edges(ws, wi, from, crate_name, groups, filter, n)[q]).2.2 == DependencyType::Normal,
    decreases n,
{
    if n > 0 {
        let g = groups[n - 1];
        lemma_intra_target_edges_typed(ws, wi, from, crate_name, groups, filter, (n - 1) as nat);
        lemma_intra_dep_edges_typed(ws, wi, from, crate_name, g.1@, DependencyType::Normal, Some(g.0@), filter, g.1@.len());
        let a = intra_target_edges(ws, wi, from, crate_name, groups, filter, (n - 1) as nat);
        let b = intra_dep_edges(ws, wi, from, crate_name, g.1@, DependencyType::Normal, Some(g.0@), filter, g.1@.len());
        assert(intra_target_edges(ws, wi, from, crate_name, groups, filter, n) == a + b);
        assert forall|q: int| 0 <= q < (a + b).len() implies (#[trigger] (a + b)[q]).2.2 == DependencyType::Normal by {
            if q < a.len() {
                assert((a + b)[q] == a[q]);
            } else {
                assert((a + b)[q] == b[q - a.len()]);
            }
        }
    }
}

proof fn lemma_intra_member_edges_pass(ws: Seq<(String, WorkspaceInfo)>, wi: int, m: CrateMember, filter: DependencyFilter)
    ensures
        forall|q: int| 0 <= q < intra_member_edges(ws, wi, m, filter).len() ==>
            edge_passes(filter, #[trigger] intra_member_edges(ws, wi, m, filter)[q]),
{
    let flat = flat_members(ws);
    let from = crate_index(flat, m.name@, flat.len());
    let a = intra_dep_edges(ws, wi, from, m.name@, m.dependencies@, DependencyType::Normal, None, filter, m.dependencies@.len());
    let b = if filter.excludes_dev() { Seq::empty() } else {
        intra_dep_edges(ws, wi, from, m.name@, m.dev_dependencies@, DependencyType::Dev, None, filter, m.dev_dependencies@.len())
    };
    let c = if filter.excludes_build() { Seq::empty() } else {
        intra_dep_edges(ws, wi, from, m.name@, m.build_dependencies@, DependencyType::Build, None, filter, m.build_dependencies@.len())
    };
    let d = if filter.excludes_target() { Seq::empty() } else {
        intra_target_edges(ws, wi, from, m.name@, m.target_dependencies@, filter, m.target_dependencies@.len())
    };
    lemma_intra_dep_edges_typed(ws, wi, from, m.name@, m.dependencies@, DependencyType::Normal, None, filter, m.dependencies@.len());
    lemma_intra_dep_edges_typed(ws, wi, from, m.name@, m.dev_dependencies@, DependencyType::Dev, None, filter, m.dev_dependencies@.len());
    lemma_intra_dep_edges_typed(ws, wi, from, m.name@, m.build_dependencies@, DependencyType::Build, None, filter, m.build_dependencies@.len());
    lemma_intra_target_edges_typed(ws, wi, from, m.name@, m.target_dependencies@, filter, m.target_dependencies@.len());
    let all = intra_member_edges(ws, wi, m, filter);
    assert(all == a + b + c + d);
    assert forall|q: int| 0 <= q < all.len() implies edge_passes(filter, #[trigger] all[q]) by {
        if q < a.len() {
            assert(all[q] == a[q]);
        } else if q < a.len() + b.len() {
            assert(all[q] == b[q - a.len()]);
        } else if q < a.len() + b.len() + c.len() {
            assert(all[q] == c[q - a.len() - b.len()]);
        } else {
            assert(all[q] == d[q - a.len() - b.len() - c.len()]);
        }
    }
}

/// The intra-workspace graph has no edge that the filter excludes: with dev
/// (or build) dependencies excluded no edge of the first `n` crates has that
/// type, and with target-specific dependencies excluded no edge has a target.
pub proof fn law_intra_graph_respects_filter(ws: Seq<(String, WorkspaceInfo)>, filter: DependencyFilter, n: nat)
    requires
        n <= flat_members(ws).len(),
    ensures
        forall|q: int| 0 <= q < intra_edges_upto(ws, filter, n).len() ==>
            edge_passes(filter, #[trigger] intra_edges_upto(ws, filter, n)[q]),
    decreases n,
{
    if n > 0 {
        law_intra_graph_respects_filter(ws, filter, (n - 1) as nat);
        let fm = flat_members(ws)[n - 1];
        lemma_intra_member_edges_pass(ws, fm.0, fm.1, filter);
        let a = intra_edges_upto(ws, filter, (n - 1) as nat);
        let b = intra_member_edges(ws, fm.0, fm.1, filter);
        assert(intra_edges_upto(ws, filter, n) == a + b);
        assert forall|q: int| 0 <= q < (a + b).len() implies edge_passes(filter, #[trigger] (a + b)[q]) by {
            if q < a.len() {
                assert((a + b)[q] == a[q]);
            } else {
                assert((a + b)[q] == b[q - a.len()]);
            }
        }
    }
}

} // verus!
