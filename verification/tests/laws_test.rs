//! Concrete cases of what the library promises of all inputs, and exact
//! outputs of the reports.

use petgraph::graph::DiGraph;

use ferris_wheel::analyzer::analyzer_impl::{CrateMember, Dependency, WorkspaceAnalyzer, WorkspaceInfo};
use ferris_wheel::cli::{GraphFormat, OutputFormat};
use ferris_wheel::commands::affected_analysis::AffectedAnalysis;
use ferris_wheel::commands::affected_report::{
    affected_json_report, generate_github_report, generate_human_report, generate_junit_report,
};
use ferris_wheel::commands::deps::WorkspaceDependencyAnalysis;
use ferris_wheel::commands::deps_report::WorkspaceDepsReportGenerator;
use ferris_wheel::common::ConfigBuilder;
use ferris_wheel::detector::{CycleDetector, WorkspaceCycle};
use ferris_wheel::config::{AffectedConfig, AnalyzeCrateConfig, CheckCyclesConfig, GraphOptions};
use ferris_wheel::dependency_filter::DependencyFilter;
use ferris_wheel::executors::analyze::AnalyzeExecutor;
use ferris_wheel::executors::check::CheckExecutor;
use ferris_wheel::executors::graph::GraphExecutor;
use ferris_wheel::graph::types::{DependencyEdge, DependencyType, WorkspaceNode};
use ferris_wheel::toml_parser::{CargoToml, Package};
use ferris_wheel::workspace_discovery::{
    is_glob_pattern, is_skipped_dir, member_from_manifest, sort_roots, DiscoveredWorkspace, WorkspaceDiscovery, WorkspaceRoot,
};

fn node(name: &str) -> WorkspaceNode {
    WorkspaceNode::builder().with_name(name.to_string()).with_crates(vec![format!("{name}-crate")]).build().unwrap()
}

fn edge(from: &str, to: &str) -> DependencyEdge {
    DependencyEdge::builder()
        .with_from_crate(&format!("{from}-crate"))
        .with_to_crate(&format!("{to}-crate"))
        .with_dependency_type(DependencyType::Normal)
        .build()
        .unwrap()
}

fn info(name: &str) -> WorkspaceInfo {
    WorkspaceInfo::builder().with_name(name).with_members(vec![]).build().unwrap()
}

/// a -> b, b -> a, b -> c
fn cyclic_graph() -> (DiGraph<WorkspaceNode, DependencyEdge>, Vec<(String, WorkspaceInfo)>) {
    let mut graph = DiGraph::new();
    let a = graph.add_node(node("a"));
    let b = graph.add_node(node("b"));
    let c = graph.add_node(node("c"));
    graph.add_edge(a, b, edge("a", "b"));
    graph.add_edge(b, a, edge("b", "a"));
    graph.add_edge(b, c, edge("b", "c"));
    let workspaces = vec![
        ("/w/a".to_string(), info("a")),
        ("/w/b".to_string(), info("b")),
        ("/w/c".to_string(), info("c")),
    ];
    (graph, workspaces)
}

#[test]
fn transitive_dependencies_follow_every_path() {
    let (graph, workspaces) = cyclic_graph();
    let analysis = WorkspaceDependencyAnalysis::new(&workspaces, &[], &graph);
    // a reaches itself through b
    assert_eq!(analysis.get_transitive_dependencies("a"), vec!["a", "b", "c"]);
    assert_eq!(analysis.get_transitive_dependencies("c"), Vec::<String>::new());
    assert_eq!(analysis.get_transitive_dependencies("missing"), Vec::<String>::new());
}

#[test]
fn direct_dependencies_are_transitive() {
    let (graph, workspaces) = cyclic_graph();
    let analysis = WorkspaceDependencyAnalysis::new(&workspaces, &[], &graph);
    for ws in ["a", "b", "c"] {
        let transitive = analysis.get_transitive_dependencies(ws);
        for d in analysis.get_direct_dependencies(ws) {
            assert!(transitive.contains(&d));
        }
    }
}

#[test]
fn direct_and_reverse_dependencies_mirror_each_other() {
    let (graph, workspaces) = cyclic_graph();
    let analysis = WorkspaceDependencyAnalysis::new(&workspaces, &[], &graph);
    for x in ["a", "b", "c"] {
        for y in ["a", "b", "c"] {
            assert_eq!(
                analysis.get_direct_dependencies(x).contains(&y.to_string()),
                analysis.get_reverse_dependencies(y).contains(&x.to_string())
            );
        }
    }
    assert_eq!(analysis.get_reverse_dependencies("a"), vec!["b"]);
    assert_eq!(analysis.get_direct_dependencies("b"), vec!["a", "c"]);
}

#[test]
fn workspace_names_are_sorted() {
    let (graph, _) = cyclic_graph();
    let workspaces = vec![("/w/c".to_string(), info("c")), ("/w/a".to_string(), info("a")), ("/w/b".to_string(), info("b"))];
    let analysis = WorkspaceDependencyAnalysis::new(&workspaces, &[], &graph);
    assert_eq!(analysis.workspace_names(), vec!["a", "b", "c"]);
    assert_eq!(analysis.get_workspace_path("b"), Some(&"/w/b".to_string()));
    assert!(analysis.get_workspace_path("d").is_none());
}

#[test]
fn deps_reports_exact_text() {
    let (graph, workspaces) = cyclic_graph();
    let analysis = WorkspaceDependencyAnalysis::new(&workspaces, &[], &graph);

    let human = WorkspaceDepsReportGenerator::new(Some("c"), true, false).generate_human_report(&analysis).unwrap();
    assert_eq!(
        human,
        "\n📦 Workspace: c\n  📍 Path: /w/c\n  ⬆️  Reverse dependencies (who depends on this):\n    - b\n"
    );

    let none = WorkspaceDepsReportGenerator::new(Some("c"), false, false).generate_human_report(&analysis).unwrap();
    assert!(none.ends_with("  ⬇️  Direct dependencies:\n    (none)\n"));

    let json = WorkspaceDepsReportGenerator::new(Some("a"), false, false).generate_json_report(&analysis).unwrap();
    assert_eq!(
        json,
        "{\n  \"workspaces\": [\n    {\n      \"name\": \"a\",\n      \"path\": \"/w/a\",\n      \"dependencies\": [\n        \"b\"\n      ],\n      \"reverse\": false,\n      \"transitive\": false,\n      \"is_standalone\": false\n    }\n  ]\n}"
    );

    let github = WorkspaceDepsReportGenerator::new(None, false, true).generate_github_report(&analysis).unwrap();
    assert_eq!(
        github,
        "::notice title=Workspace Dependencies::Analyzed 3 workspaces\n\
         ::notice title=a::3 transitive dependencies: a, b, c\n\
         ::notice title=b::3 transitive dependencies: a, b, c\n\
         ::notice title=c::0 transitive dependencies: \n"
    );

    let junit = WorkspaceDepsReportGenerator::new(Some("b"), false, false).generate_junit_report(&analysis).unwrap();
    assert!(junit.contains("Workspace dependency analysis results:\n  b: 2 dependencies\n"));
}

fn crate_member(name: &str, path: &str, deps: Vec<Dependency>) -> CrateMember {
    CrateMember::builder().with_name(name).with_path(path.to_string()).with_dependencies(deps).build().unwrap()
}

fn named_dep(name: &str) -> Dependency {
    Dependency::builder().with_name(name).build().unwrap()
}

/// top depends on mid, mid depends on base; other stands alone.
fn chain() -> (Vec<(String, WorkspaceInfo)>, Vec<(String, String)>) {
    let ws = vec![(
        "/r/ws".to_string(),
        WorkspaceInfo::builder()
            .with_name("ws")
            .with_members(vec![
                crate_member("top", "/r/ws/top", vec![named_dep("mid")]),
                crate_member("mid", "/r/ws/mid", vec![named_dep("base")]),
                crate_member("base", "/r/ws/base", vec![]),
                crate_member("other", "/r/ws/other", vec![]),
            ])
            .build()
            .unwrap(),
    )];
    let c2w = vec![
        ("/r/ws/top".to_string(), "/r/ws".to_string()),
        ("/r/ws/mid".to_string(), "/r/ws".to_string()),
        ("/r/ws/base".to_string(), "/r/ws".to_string()),
        ("/r/ws/other".to_string(), "/r/ws".to_string()),
    ];
    (ws, c2w)
}

fn affected_config(files: Vec<String>, format: OutputFormat, show_crates: bool, direct_only: bool) -> AffectedConfig {
    AffectedConfig::builder()
        .with_files(files)
        .with_show_crates(show_crates)
        .with_direct_only(direct_only)
        .with_paths(vec!["/r".to_string()])
        .with_format(format)
        .build()
        .unwrap()
}

#[test]
fn affected_crates_include_every_dependent() {
    let (ws, c2w) = chain();
    let analysis = AffectedAnalysis::new(&ws, &c2w, DependencyFilter::default(), &[]).unwrap();
    let result = analysis.analyze_affected_files(&["/r/ws/base/src/lib.rs".to_string()], "/r", &[]);
    let mut all: Vec<&str> = result.all_affected_crates.iter().map(|c| c.name()).collect();
    all.sort();
    assert_eq!(all, vec!["base", "mid", "top"]);
    assert_eq!(result.directly_affected_crates.len(), 1);
    assert_eq!(result.all_affected_workspaces, vec!["ws"]);

    // A change in the crate at the top affects nothing else.
    let result = analysis.analyze_affected_files(&["/r/ws/top/src/lib.rs".to_string()], "/r", &[]);
    assert_eq!(result.all_affected_crates.len(), 1);
}

#[test]
fn affected_reports_exact_text() {
    let (ws, c2w) = chain();
    let analysis = AffectedAnalysis::new(&ws, &c2w, DependencyFilter::default(), &[]).unwrap();
    let files = vec!["/r/ws/mid/src/lib.rs".to_string(), "/r/README.md".to_string()];
    let result = analysis.analyze_affected_files(&files, "/r", &[]);
    assert_eq!(result.unmatched_files, vec!["/r/README.md"]);

    let config = affected_config(files.clone(), OutputFormat::Human, true, false);
    let human = generate_human_report(&result, &analysis, &config).unwrap();
    assert_eq!(
        human,
        "\n📁 Analyzing 2 changed files\n\n🎯 Directly affected:\n  Crates: 1\n    - mid\n  Workspaces: 1\n    📦 ws\n      📍 Path: /r/ws\n\n🔄 All affected (including reverse dependencies):\n  Crates: 2\n    - top (indirect)\n  Workspaces: 1\n"
    );

    let github = generate_github_report(&result, &config).unwrap();
    assert_eq!(
        github,
        "::notice title=Affected Analysis::Analyzed 2 files, found 1 affected workspace\n::notice title=Affected Workspaces::ws\n"
    );

    let junit = generate_junit_report(&result, &affected_config(files.clone(), OutputFormat::Junit, false, true)).unwrap();
    assert!(junit.contains("        Directly affected crates: 1\n        Directly affected workspaces: 1\n      </system-out>"));

    let direct = affected_json_report(&result, &analysis, true);
    assert_eq!(direct.affected_crates.len(), 1);
    assert_eq!(direct.affected_crates[0].name, "mid");
    let full = affected_json_report(&result, &analysis, false);
    let names: Vec<&str> = full.affected_crates.iter().map(|c| c.name.as_str()).collect();
    assert_eq!(names, vec!["mid", "top"]);
    assert_eq!(full.directly_affected_crates, vec!["mid"]);
    assert_eq!(full.affected_workspaces[0].path, "/r/ws");
}

fn package_toml(name: &str) -> CargoToml {
    CargoToml {
        package: Some(Package { name: name.to_string() }),
        workspace: None,
        dependencies: None,
        dev_dependencies: None,
        build_dependencies: None,
        target: None,
    }
}

#[test]
fn discovery_decisions() {
    let mut discovery = WorkspaceDiscovery::new();
    assert!(discovery.mark_root("/r/ws"));
    assert!(!discovery.mark_root("/r/ws"));
    assert!(discovery.is_root("/r/ws"));

    let standalone = WorkspaceDiscovery::root_from_manifest("/r/ws/crates/foo", package_toml("foo")).unwrap();
    assert!(standalone.is_standalone());
    assert_eq!(standalone.name(), "foo");
    assert_eq!(standalone.members().len(), 1);

    let other = WorkspaceDiscovery::root_from_manifest("/r/solo", package_toml("solo")).unwrap();

    discovery.discovered_workspaces.push(DiscoveredWorkspace {
        path: "/r/ws".to_string(),
        member_patterns: vec!["crates/*".to_string()],
        exclude_patterns: vec!["crates/ignored".to_string()],
    });
    assert!(WorkspaceDiscovery::matches_pattern("/r/ws", "crates/foo", "crates/*"));
    assert!(discovery.is_path_workspace_member("/r/ws/crates/foo"));
    assert!(!discovery.is_path_workspace_member("/r/ws/crates/ignored"));
    assert!(!discovery.is_path_workspace_member("/r/solo"));

    let kept = discovery.settle_standalone(vec![standalone, other]);
    assert_eq!(kept.len(), 1);
    assert_eq!(kept[0].name(), "solo");
    assert_eq!(
        discovery.warnings(),
        &["Skipping 'foo' at /r/ws/crates/foo - it's a workspace member with an incorrect Cargo.lock".to_string()]
    );
}

fn root_at(path: &str) -> WorkspaceRoot {
    WorkspaceRoot::builder().path(path.to_string()).name(path.to_string()).build().unwrap()
}

#[test]
fn roots_are_sorted_by_path() {
    let sorted = sort_roots(vec![root_at("/r/b"), root_at("/r/a/x"), root_at("/r/a")]);
    let paths: Vec<&str> = sorted.iter().map(|r| r.path().as_str()).collect();
    assert_eq!(paths, vec!["/r/a", "/r/a/x", "/r/b"]);
}

/// Two workspaces whose crates depend on each other.
fn cyclic_analyzer() -> WorkspaceAnalyzer {
    let mut analyzer = WorkspaceAnalyzer::new();
    analyzer.workspaces = vec![
        (
            "/r/left".to_string(),
            WorkspaceInfo::builder()
                .with_name("left")
                .with_members(vec![crate_member("left-core", "/r/left/core", vec![named_dep("right-core")])])
                .build()
                .unwrap(),
        ),
        (
            "/r/right".to_string(),
            WorkspaceInfo::builder()
                .with_name("right")
                .with_members(vec![crate_member("right-core", "/r/right/core", vec![named_dep("left-core")])])
                .build()
                .unwrap(),
        ),
    ];
    analyzer.crate_to_workspace = vec![
        ("left-core".to_string(), vec!["/r/left".to_string()]),
        ("right-core".to_string(), vec!["/r/right".to_string()]),
    ];
    analyzer.crate_to_paths = vec![
        ("left-core".to_string(), vec!["/r/left/core".to_string()]),
        ("right-core".to_string(), vec!["/r/right/core".to_string()]),
    ];
    analyzer.crate_path_to_workspace = vec![
        ("/r/left/core".to_string(), "/r/left".to_string()),
        ("/r/right/core".to_string(), "/r/right".to_string()),
    ];
    analyzer
}

#[test]
fn check_fails_on_cycles_when_asked() {
    let analyzer = cyclic_analyzer();
    let config = CheckCyclesConfig::builder()
        .with_paths(vec!["/r".to_string()])
        .with_format(OutputFormat::Json)
        .with_error_on_cycles(true)
        .with_exclude_dev(false)
        .with_exclude_build(false)
        .with_exclude_target(false)
        .with_max_cycles(None)
        .with_intra_workspace(false)
        .build()
        .unwrap();
    let outcome = CheckExecutor::run(&config, &analyzer, &[]).unwrap().unwrap();
    assert_eq!(outcome.detector.cycle_count(), 1);
    assert!(outcome.fail);
    assert!(outcome.report.contains("\"has_cycles\": true"));

    let empty = WorkspaceAnalyzer::new();
    assert!(CheckExecutor::run(&config, &empty, &[]).unwrap().is_none());
}

#[test]
fn spotlight_keeps_cycles_of_the_crate() {
    let analyzer = cyclic_analyzer();
    let config = AnalyzeCrateConfig::builder()
        .with_crate_name("left".to_string())
        .with_paths(vec!["/r".to_string()])
        .with_format(OutputFormat::GitHub)
        .with_exclude_dev(false)
        .with_exclude_build(false)
        .with_exclude_target(false)
        .with_max_cycles(None)
        .with_intra_workspace(false)
        .build()
        .unwrap();
    let outcome = AnalyzeExecutor::run(&config, &analyzer, &[]).unwrap().unwrap();
    assert_eq!(outcome.relevant.cycle_count(), 1);
    assert!(outcome.report.is_some());

    let config = AnalyzeCrateConfig::builder()
        .with_crate_name("nothing".to_string())
        .with_paths(vec!["/r".to_string()])
        .with_format(OutputFormat::GitHub)
        .with_exclude_dev(false)
        .with_exclude_build(false)
        .with_exclude_target(false)
        .with_max_cycles(None)
        .with_intra_workspace(false)
        .build()
        .unwrap();
    let outcome = AnalyzeExecutor::run(&config, &analyzer, &[]).unwrap().unwrap();
    assert_eq!(outcome.relevant.cycle_count(), 0);
    assert!(outcome.report.is_none());
}

#[test]
fn spectacle_renders_the_workspace_graph() {
    let analyzer = cyclic_analyzer();
    let config = GraphOptions::builder()
        .with_paths(vec!["/r".to_string()])
        .with_format(GraphFormat::Dot)
        .with_output(None)
        .with_highlight_cycles(true)
        .with_show_crates(false)
        .with_exclude_dev(false)
        .with_exclude_build(false)
        .with_exclude_target(false)
        .build()
        .unwrap();
    let outcome = GraphExecutor::run(&config, &analyzer, &[]).unwrap().unwrap();
    assert_eq!(outcome.detector.cycle_count(), 1);
    assert!(outcome.text.starts_with("digraph"));
    assert!(outcome.text.contains("left"));
    assert!(outcome.text.contains("right"));
}

#[test]
fn deps_json_report_lists_each_workspace() {
    let (graph, workspaces) = cyclic_graph();
    let analysis = WorkspaceDependencyAnalysis::new(&workspaces, &[], &graph);
    let report = WorkspaceDepsReportGenerator::new(None, true, false).json_report(&analysis);
    let names: Vec<&str> = report.workspaces.iter().map(|e| e.name.as_str()).collect();
    assert_eq!(names, vec!["a", "b", "c"]);
    assert_eq!(report.workspaces[0].dependencies, vec!["b"]);
    assert_eq!(report.workspaces[1].dependencies, vec!["a"]);
    assert_eq!(report.workspaces[2].dependencies, vec!["b"]);
    assert_eq!(report.workspaces[2].path, "/w/c");
    assert!(report.workspaces[0].reverse);
    assert!(!report.workspaces[0].transitive);
    assert!(!report.workspaces[0].is_standalone);

    let unknown = WorkspaceDepsReportGenerator::new(Some("zzz"), false, false).json_report(&analysis);
    assert_eq!(unknown.workspaces.len(), 1);
    assert_eq!(unknown.workspaces[0].path, "(unknown)");
    assert!(unknown.workspaces[0].dependencies.is_empty());
}

#[test]
fn discovery_skips_build_and_tool_directories() {
    assert!(is_skipped_dir("target"));
    assert!(is_skipped_dir(".git"));
    assert!(is_skipped_dir("node_modules"));
    assert!(!is_skipped_dir("src"));
    assert!(!is_skipped_dir("targets"));
}

#[test]
fn member_patterns_with_a_star_are_globs() {
    assert!(is_glob_pattern("crates/*"));
    assert!(is_glob_pattern("*"));
    assert!(!is_glob_pattern("crates/core"));
    assert!(!is_glob_pattern(""));
}

#[test]
fn a_member_is_the_package_of_its_manifest() {
    let member = member_from_manifest("/r/ws/crates/foo".to_string(), package_toml("foo")).unwrap();
    assert_eq!(member.name(), "foo");
    assert_eq!(member.path(), "/r/ws/crates/foo");
    let mut virtual_manifest = package_toml("x");
    virtual_manifest.package = None;
    assert!(member_from_manifest("/r/ws".to_string(), virtual_manifest).is_none());
}

fn typed_edge(from: &str, to: &str, ty: DependencyType) -> DependencyEdge {
    DependencyEdge::builder()
        .with_from_crate(&format!("{from}-crate"))
        .with_to_crate(&format!("{to}-crate"))
        .with_dependency_type(ty)
        .build()
        .unwrap()
}

#[test]
fn cycle_edges_from_a_workspace_come_newest_first() {
    let mut graph = DiGraph::new();
    let a = graph.add_node(node("a"));
    let b = graph.add_node(node("b"));
    graph.add_edge(a, b, typed_edge("a", "b", DependencyType::Normal));
    graph.add_edge(b, a, typed_edge("b", "a", DependencyType::Normal));
    graph.add_edge(a, b, typed_edge("a", "b", DependencyType::Dev));
    let mut detector = CycleDetector::new();
    detector.detect_cycles(&graph).unwrap();
    let cycle = &detector.cycles()[0];
    let kinds: Vec<(&str, &str, &str)> = cycle
        .edges()
        .iter()
        .map(|e| (e.from_workspace.as_str(), e.to_workspace.as_str(), e.dependency_type()))
        .collect();
    // Workspaces in the order of their component; from each, its newest edge first.
    assert_eq!(kinds, vec![("b", "a", "Normal"), ("a", "b", "Dev"), ("a", "b", "Normal")]);
    assert_eq!(cycle.workspace_names(), &["a".to_string(), "b".to_string()]);
}

#[test]
fn cycle_edges_follow_the_graph_after_an_edge_is_removed() {
    let mut graph = DiGraph::new();
    let a = graph.add_node(node("a"));
    let b = graph.add_node(node("b"));
    let first = graph.add_edge(a, b, typed_edge("a", "b", DependencyType::Normal));
    graph.add_edge(a, b, typed_edge("a", "b", DependencyType::Dev));
    graph.add_edge(b, a, typed_edge("b", "a", DependencyType::Normal));
    graph.add_edge(a, b, typed_edge("a", "b", DependencyType::Build));
    // The last edge takes the freed index but keeps its place in a's list.
    graph.remove_edge(first);
    let mut detector = CycleDetector::new();
    detector.detect_cycles(&graph).unwrap();
    let cycle = &detector.cycles()[0];
    let from_a: Vec<&str> = cycle
        .edges()
        .iter()
        .filter(|e| e.from_workspace == "a")
        .map(|e| e.dependency_type())
        .collect();
    assert_eq!(from_a, vec!["Build", "Dev"]);
    assert_eq!(cycle.edges().len(), 3);
    assert_eq!(cycle.workspace_names(), &["a".to_string(), "b".to_string()]);
}

fn simple_cycle(x: &str, y: &str) -> WorkspaceCycle {
    WorkspaceCycle::builder()
        .add_edge()
        .from_workspace(x)
        .to_workspace(y)
        .from_crate("c1")
        .to_crate("c2")
        .dependency_type("Normal")
        .build()
}

#[test]
fn cycles_keep_the_order_they_were_added_in() {
    let mut detector = CycleDetector::new();
    let names = ["e", "a", "d", "a", "b"];
    for n in names {
        detector.add_cycle(simple_cycle(n, "z"));
    }
    let firsts: Vec<&str> = detector.cycles().iter().map(|c| c.edges()[0].from_workspace.as_str()).collect();
    assert_eq!(firsts, names.to_vec());
    assert_eq!(detector.cycle_count(), 5);
}
