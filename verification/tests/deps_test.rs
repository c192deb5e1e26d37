use petgraph::graph::DiGraph;

use ferris_wheel::analyzer::analyzer_impl::WorkspaceInfo;
use ferris_wheel::commands::deps::WorkspaceDependencyAnalysis;
use ferris_wheel::commands::deps_report::WorkspaceDepsReportGenerator;
use ferris_wheel::common::ConfigBuilder;
use ferris_wheel::graph::types::{DependencyEdge, DependencyType, WorkspaceNode};




fn create_test_graph() -> (
    DiGraph<WorkspaceNode, DependencyEdge>,
    Vec<(String, WorkspaceInfo)>,
    Vec<(String, Vec<String>)>,
) {
    let mut graph = DiGraph::new();
    let mut workspaces = Vec::new();
    let crate_to_workspace = Vec::new();

    // Create workspace nodes
    let node_a = graph.add_node(
        WorkspaceNode::builder()
            .with_name("workspace-a".to_string())
            .with_crates(vec!["crate-a".to_string()])
            .build()
            .unwrap(),
    );

    let node_b = graph.add_node(
        WorkspaceNode::builder()
            .with_name("workspace-b".to_string())
            .with_crates(vec!["crate-b".to_string()])
            .build()
            .unwrap(),
    );

    let node_c = graph.add_node(
        WorkspaceNode::builder()
            .with_name("workspace-c".to_string())
            .with_crates(vec!["crate-c".to_string()])
            .build()
            .unwrap(),
    );

    // Add edges: A -> B, B -> C
    graph.add_edge(
        node_a,
        node_b,
        DependencyEdge::builder()
            .with_from_crate("crate-a")
            .with_to_crate("crate-b")
            .with_dependency_type(DependencyType::Normal)
            .build()
            .unwrap(),
    );

    graph.add_edge(
        node_b,
        node_c,
        DependencyEdge::builder()
            .with_from_crate("crate-b")
            .with_to_crate("crate-c")
            .with_dependency_type(DependencyType::Normal)
            .build()
            .unwrap(),
    );

    // Create mock workspace info
    let path_a = "/test/workspace-a".to_string();
    let path_b = "/test/workspace-b".to_string();
    let path_c = "/test/workspace-c".to_string();

    workspaces.push((
        path_a.clone(),
        WorkspaceInfo::builder()
            .with_name("workspace-a")
            .with_members(vec![])
            .build()
            .unwrap(),
    ));

    workspaces.push((
        path_b.clone(),
        WorkspaceInfo::builder()
            .with_name("workspace-b")
            .with_members(vec![])
            .build()
            .unwrap(),
    ));

    workspaces.push((
        path_c.clone(),
        WorkspaceInfo::builder()
            .with_name("workspace-c")
            .with_members(vec![])
            .build()
            .unwrap(),
    ));

    (graph, workspaces, crate_to_workspace)
}

#[test]
fn test_direct_dependencies() {
    let (graph, workspaces, crate_to_workspace) = create_test_graph();
    let mut analysis =
        WorkspaceDependencyAnalysis::new(&workspaces, &crate_to_workspace, &graph);

    // Test direct dependencies
    let deps_a = analysis.get_direct_dependencies("workspace-a");
    assert_eq!(deps_a.len(), 1);
    assert!(deps_a.contains(&"workspace-b".to_string()));

    let deps_b = analysis.get_direct_dependencies("workspace-b");
    assert_eq!(deps_b.len(), 1);
    assert!(deps_b.contains(&"workspace-c".to_string()));

    let deps_c = analysis.get_direct_dependencies("workspace-c");
    assert_eq!(deps_c.len(), 0);
}

#[test]
fn deps_test_reverse_dependencies() {
    let (graph, workspaces, crate_to_workspace) = create_test_graph();
    let mut analysis =
        WorkspaceDependencyAnalysis::new(&workspaces, &crate_to_workspace, &graph);

    // Test reverse dependencies
    let rev_deps_a = analysis.get_reverse_dependencies("workspace-a");
    assert_eq!(rev_deps_a.len(), 0);

    let rev_deps_b = analysis.get_reverse_dependencies("workspace-b");
    assert_eq!(rev_deps_b.len(), 1);
    assert!(rev_deps_b.contains(&"workspace-a".to_string()));

    let rev_deps_c = analysis.get_reverse_dependencies("workspace-c");
    assert_eq!(rev_deps_c.len(), 1);
    assert!(rev_deps_c.contains(&"workspace-b".to_string()));
}

#[test]
fn test_transitive_dependencies() {
    let (graph, workspaces, crate_to_workspace) = create_test_graph();
    let mut analysis =
        WorkspaceDependencyAnalysis::new(&workspaces, &crate_to_workspace, &graph);

    // Test transitive dependencies
    let trans_deps_a = analysis.get_transitive_dependencies("workspace-a");
    assert_eq!(trans_deps_a.len(), 2);
    assert!(trans_deps_a.contains(&"workspace-b".to_string()));
    assert!(trans_deps_a.contains(&"workspace-c".to_string()));

    let trans_deps_b = analysis.get_transitive_dependencies("workspace-b");
    assert_eq!(trans_deps_b.len(), 1);
    assert!(trans_deps_b.contains(&"workspace-c".to_string()));

    let trans_deps_c = analysis.get_transitive_dependencies("workspace-c");
    assert_eq!(trans_deps_c.len(), 0);
}

#[test]
fn test_human_report_generator() {
    let (graph, workspaces, crate_to_workspace) = create_test_graph();
    let mut analysis =
        WorkspaceDependencyAnalysis::new(&workspaces, &crate_to_workspace, &graph);

    let generator = WorkspaceDepsReportGenerator::new(Some("workspace-a"), false, false);
    let report = generator.generate_human_report(&mut analysis).unwrap();

    assert!(report.contains("workspace-a"));
    assert!(report.contains("Path: /test/workspace-a"));
    assert!(report.contains("Direct dependencies"));
    assert!(report.contains("workspace-b"));
}

#[test]
fn test_json_report_generator() {
    let (graph, workspaces, crate_to_workspace) = create_test_graph();
    let mut analysis =
        WorkspaceDependencyAnalysis::new(&workspaces, &crate_to_workspace, &graph);

    let generator = WorkspaceDepsReportGenerator::new(None, false, false);
    let report = generator.generate_json_report(&mut analysis).unwrap();

    let json: serde_json::Value = serde_json::from_str(&report).unwrap();
    assert!(json["workspaces"].is_array());

    // Verify path field exists in the JSON output
    let workspace_deps = json["workspaces"].as_array().unwrap();
    assert!(!workspace_deps.is_empty());
    assert!(workspace_deps[0]["path"].is_string());
}

