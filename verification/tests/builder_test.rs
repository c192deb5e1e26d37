use ferris_wheel::analyzer::analyzer_impl::{CrateMember, Dependency, WorkspaceInfo};
use ferris_wheel::graph::builder::DependencyGraphBuilder;
use ferris_wheel::graph::types::DependencyType;

#[test]
fn test_build_simple_graph() {
    let mut workspaces: Vec<(String, WorkspaceInfo)> = Vec::new();
    let mut crate_to_workspaces: Vec<(String, Vec<String>)> = Vec::new();
    let mut crate_path_to_workspace: Vec<(String, String)> = Vec::new();
    let mut crate_to_paths: Vec<(String, Vec<String>)> = Vec::new();

    // Workspace A
    let ws_a_path = "/test/workspace-a".to_string();
    let crate_a_path = format!("{ws_a_path}/crate-a");
    let crate_b_path = "/test/workspace-b/crate-b".to_string();
    workspaces.push((
        ws_a_path.clone(),
        WorkspaceInfo::builder()
            .with_name("workspace-a")
            .with_members(vec![CrateMember::builder()
                .with_name("crate-a")
                .with_path(crate_a_path.clone())
                .with_dependencies(vec![Dependency::builder()
                    .with_name("crate-b")
                    .with_path(crate_b_path.clone())
                    .build()
                    .unwrap()])
                .build()
                .unwrap()])
            .build()
            .unwrap(),
    ));
    crate_to_workspaces.push(("crate-a".to_string(), vec![ws_a_path.clone()]));
    crate_path_to_workspace.push((crate_a_path.clone(), ws_a_path.clone()));
    crate_to_paths.push(("crate-a".to_string(), vec![crate_a_path]));

    // Workspace B
    let ws_b_path = "/test/workspace-b".to_string();
    let ws_b_crate_path = format!("{ws_b_path}/crate-b");
    workspaces.push((
        ws_b_path.clone(),
        WorkspaceInfo::builder()
            .with_name("workspace-b")
            .with_members(vec![CrateMember::builder()
                .with_name("crate-b")
                .with_path(ws_b_crate_path.clone())
                .build()
                .unwrap()])
            .build()
            .unwrap(),
    ));
    crate_to_workspaces.push(("crate-b".to_string(), vec![ws_b_path.clone()]));
    crate_path_to_workspace.push((ws_b_crate_path.clone(), ws_b_path.clone()));
    crate_to_paths.push(("crate-b".to_string(), vec![ws_b_crate_path]));

    let mut builder = DependencyGraphBuilder::new(false, false, false);
    builder
        .build_cross_workspace_graph(
            &workspaces,
            &crate_to_workspaces,
            &crate_path_to_workspace,
            &crate_to_paths,
            &[],
        )
        .unwrap();

    assert_eq!(builder.graph().node_count(), 2);
    assert_eq!(builder.graph().edge_count(), 1);
}

#[test]
fn test_build_intra_workspace_graph() {
    let mut workspaces: Vec<(String, WorkspaceInfo)> = Vec::new();

    // Single workspace with internal dependencies and a cycle
    let ws_a_path = "/test/workspace-a".to_string();
    workspaces.push((
        ws_a_path.clone(),
        WorkspaceInfo::builder()
            .with_name("workspace-a")
            .with_members(vec![
                CrateMember::builder()
                    .with_name("crate-a")
                    .with_path(format!("{}/crate-a", ws_a_path))
                    .with_dependencies(vec![
                        Dependency::builder().with_name("crate-b").build().unwrap(),
                    ])
                    .build()
                    .unwrap(),
                CrateMember::builder()
                    .with_name("crate-b")
                    .with_path(format!("{}/crate-b", ws_a_path))
                    .with_dev_dependencies(vec![
                        Dependency::builder().with_name("crate-a").build().unwrap(),
                    ])
                    .build()
                    .unwrap(),
            ])
            .build()
            .unwrap(),
    ));

    let mut builder = DependencyGraphBuilder::new(false, false, false);
    builder
        .build_intra_workspace_graph(&workspaces)
        .unwrap();

    // Should create 2 nodes (one for each crate) and 2 edges (forming a cycle)
    assert_eq!(builder.graph().node_count(), 2);
    assert_eq!(builder.graph().edge_count(), 2);

    // Verify the nodes are named correctly
    let node_names: Vec<String> = builder
        .graph()
        .node_weights()
        .map(|node| node.name().to_string())
        .collect();
    assert!(node_names.contains(&"workspace-a/crate-a".to_string()));
    assert!(node_names.contains(&"workspace-a/crate-b".to_string()));
}

#[test]
fn test_intra_workspace_no_cycles_between_workspaces() {
    let mut workspaces: Vec<(String, WorkspaceInfo)> = Vec::new();

    // Two workspaces, each with internal dependencies but no cross-workspace deps
    let ws_a_path = "/test/workspace-a".to_string();
    workspaces.push((
        ws_a_path.clone(),
        WorkspaceInfo::builder()
            .with_name("workspace-a")
            .with_members(vec![
                CrateMember::builder()
                    .with_name("crate-a1")
                    .with_path(format!("{}/crate-a1", ws_a_path))
                    .with_dependencies(vec![
                        Dependency::builder().with_name("crate-a2").build().unwrap(),
                    ])
                    .build()
                    .unwrap(),
                CrateMember::builder()
                    .with_name("crate-a2")
                    .with_path(format!("{}/crate-a2", ws_a_path))
                    .build()
                    .unwrap(),
            ])
            .build()
            .unwrap(),
    ));

    let ws_b_path = "/test/workspace-b".to_string();
    workspaces.push((
        ws_b_path.clone(),
        WorkspaceInfo::builder()
            .with_name("workspace-b")
            .with_members(vec![
                CrateMember::builder()
                    .with_name("crate-b1")
                    .with_path(format!("{}/crate-b1", ws_b_path))
                    .with_dependencies(vec![
                        Dependency::builder().with_name("crate-b2").build().unwrap(),
                    ])
                    .build()
                    .unwrap(),
                CrateMember::builder()
                    .with_name("crate-b2")
                    .with_path(format!("{}/crate-b2", ws_b_path))
                    .build()
                    .unwrap(),
            ])
            .build()
            .unwrap(),
    ));

    let mut builder = DependencyGraphBuilder::new(false, false, false);
    builder
        .build_intra_workspace_graph(&workspaces)
        .unwrap();

    // Should create 4 nodes but only 2 edges (no cross-workspace dependencies)
    assert_eq!(builder.graph().node_count(), 4);
    assert_eq!(builder.graph().edge_count(), 2);
}

#[test]
fn test_intra_workspace_complex_cycles() {
    let mut workspaces: Vec<(String, WorkspaceInfo)> = Vec::new();

    // Create a workspace with complex internal cycles
    let ws_a_path = "/test/workspace-a".to_string();
    workspaces.push((
        ws_a_path.clone(),
        WorkspaceInfo::builder()
            .with_name("workspace-a")
            .with_members(vec![
                CrateMember::builder()
                    .with_name("crate-a")
                    .with_path(format!("{}/crate-a", ws_a_path))
                    .with_dependencies(vec![
                        Dependency::builder().with_name("crate-b").build().unwrap(),
                    ])
                    .build()
                    .unwrap(),
                CrateMember::builder()
                    .with_name("crate-b")
                    .with_path(format!("{}/crate-b", ws_a_path))
                    .with_dependencies(vec![
                        Dependency::builder().with_name("crate-c").build().unwrap(),
                    ])
                    .build()
                    .unwrap(),
                CrateMember::builder()
                    .with_name("crate-c")
                    .with_path(format!("{}/crate-c", ws_a_path))
                    .with_dev_dependencies(vec![
                        Dependency::builder().with_name("crate-a").build().unwrap(),
                    ])
                    .with_build_dependencies(vec![
                        Dependency::builder().with_name("crate-b").build().unwrap(),
                    ])
                    .build()
                    .unwrap(),
            ])
            .build()
            .unwrap(),
    ));

    let mut builder = DependencyGraphBuilder::new(false, false, false);
    builder
        .build_intra_workspace_graph(&workspaces)
        .unwrap();

    // Should create 3 nodes with multiple edges forming cycles
    assert_eq!(builder.graph().node_count(), 3);
    assert!(
        builder.graph().edge_count() >= 3,
        "Should have at least 3 edges for the cycles"
    );

    // Verify the nodes are named correctly
    let node_names: Vec<String> = builder
        .graph()
        .node_weights()
        .map(|node| node.name().to_string())
        .collect();
    assert!(node_names.contains(&"workspace-a/crate-a".to_string()));
    assert!(node_names.contains(&"workspace-a/crate-b".to_string()));
    assert!(node_names.contains(&"workspace-a/crate-c".to_string()));
}

#[test]
fn test_intra_workspace_mixed_dependency_types() {
    let mut workspaces: Vec<(String, WorkspaceInfo)> = Vec::new();

    // Test intra-workspace cycles with different dependency types
    let ws_a_path = "/test/workspace-a".to_string();
    workspaces.push((
        ws_a_path.clone(),
        WorkspaceInfo::builder()
            .with_name("workspace-a")
            .with_members(vec![
                CrateMember::builder()
                    .with_name("crate-a")
                    .with_path(format!("{}/crate-a", ws_a_path))
                    .with_dependencies(vec![
                        Dependency::builder().with_name("crate-b").build().unwrap(),
                    ])
                    .build()
                    .unwrap(),
                CrateMember::builder()
                    .with_name("crate-b")
                    .with_path(format!("{}/crate-b", ws_a_path))
                    .with_dev_dependencies(vec![
                        Dependency::builder().with_name("crate-c").build().unwrap(),
                    ])
                    .build()
                    .unwrap(),
                CrateMember::builder()
                    .with_name("crate-c")
                    .with_path(format!("{}/crate-c", ws_a_path))
                    .with_build_dependencies(vec![
                        Dependency::builder().with_name("crate-a").build().unwrap(),
                    ])
                    .build()
                    .unwrap(),
            ])
            .build()
            .unwrap(),
    ));

    let mut builder = DependencyGraphBuilder::new(false, false, false);
    builder
        .build_intra_workspace_graph(&workspaces)
        .unwrap();

    assert_eq!(builder.graph().node_count(), 3);
    assert_eq!(builder.graph().edge_count(), 3); // One edge of each type

    // Verify different dependency types are present
    let edge_types: Vec<_> = builder
        .graph()
        .edge_weights()
        .map(|edge| edge.dependency_type().clone())
        .collect();

    assert!(edge_types.contains(&DependencyType::Normal));
    assert!(edge_types.contains(&DependencyType::Dev));
    assert!(edge_types.contains(&DependencyType::Build));
}

#[test]
fn test_intra_workspace_no_external_dependencies() {
    let mut workspaces: Vec<(String, WorkspaceInfo)> = Vec::new();

    // Create workspace with external dependencies that should be ignored
    let ws_a_path = "/test/workspace-a".to_string();
    workspaces.push((
        ws_a_path.clone(),
        WorkspaceInfo::builder()
            .with_name("workspace-a")
            .with_members(vec![
                CrateMember::builder()
                    .with_name("crate-a")
                    .with_path("/test/workspace-a/crate-a".to_string())
                    .with_dependencies(vec![
                        Dependency::builder()
                            .with_name("crate-b") // Internal dependency
                            .build()
                            .unwrap(),
                        Dependency::builder()
                            .with_name("external-crate") // External dependency
                            // (should be ignored)
                            .build()
                            .unwrap(),
                    ])
                    .build()
                    .unwrap(),
                CrateMember::builder()
                    .with_name("crate-b")
                    .with_path("/test/workspace-a/crate-b".to_string())
                    .build()
                    .unwrap(),
            ])
            .build()
            .unwrap(),
    ));

    let mut builder = DependencyGraphBuilder::new(false, false, false);
    builder
        .build_intra_workspace_graph(&workspaces)
        .unwrap();

    assert_eq!(builder.graph().node_count(), 2);
    assert_eq!(builder.graph().edge_count(), 1); // Only the internal dependency should create an edge

    // Verify the edge is between internal crates only
    let edge = builder.graph().edge_weights().next().unwrap();
    assert_eq!(edge.from_crate(), "crate-a");
    assert_eq!(edge.to_crate(), "crate-b");
}

#[test]
fn test_intra_workspace_multiple_workspaces_isolation() {
    let mut workspaces: Vec<(String, WorkspaceInfo)> = Vec::new();

    // Create two workspaces, each with internal cycles
    let ws_a_path = "/test/workspace-a".to_string();
    workspaces.push((
        ws_a_path.clone(),
        WorkspaceInfo::builder()
            .with_name("workspace-a")
            .with_members(vec![
                CrateMember::builder()
                    .with_name("crate-a1")
                    .with_path("/test/workspace-a/crate-a1".to_string())
                    .with_dependencies(vec![
                        Dependency::builder().with_name("crate-a2").build().unwrap(),
                    ])
                    .build()
                    .unwrap(),
                CrateMember::builder()
                    .with_name("crate-a2")
                    .with_path("/test/workspace-a/crate-a2".to_string())
                    .with_dependencies(vec![
                        Dependency::builder().with_name("crate-a1").build().unwrap(),
                    ])
                    .build()
                    .unwrap(),
            ])
            .build()
            .unwrap(),
    ));

    let ws_b_path = "/test/workspace-b".to_string();
    workspaces.push((
        ws_b_path.clone(),
        WorkspaceInfo::builder()
            .with_name("workspace-b")
            .with_members(vec![
                CrateMember::builder()
                    .with_name("crate-b1")
                    .with_path("/test/workspace-b/crate-b1".to_string())
                    .with_dependencies(vec![
                        Dependency::builder().with_name("crate-b2").build().unwrap(),
                    ])
                    .build()
                    .unwrap(),
                CrateMember::builder()
                    .with_name("crate-b2")
                    .with_path("/test/workspace-b/crate-b2".to_string())
                    .with_dependencies(vec![
                        Dependency::builder().with_name("crate-b1").build().unwrap(),
                    ])
                    .build()
                    .unwrap(),
            ])
            .build()
            .unwrap(),
    ));

    let mut builder = DependencyGraphBuilder::new(false, false, false);
    builder
        .build_intra_workspace_graph(&workspaces)
        .unwrap();

    // Should have 4 nodes (2 per workspace)
    assert_eq!(builder.graph().node_count(), 4);
    // Should have 4 edges (2 cycles, one in each workspace)
    assert_eq!(builder.graph().edge_count(), 4);

    // Verify nodes are properly isolated by workspace
    let node_names: Vec<String> = builder
        .graph()
        .node_weights()
        .map(|n| n.name().to_string())
        .collect();
    assert!(node_names.contains(&"workspace-a/crate-a1".to_string()));
    assert!(node_names.contains(&"workspace-a/crate-a2".to_string()));
    assert!(node_names.contains(&"workspace-b/crate-b1".to_string()));
    assert!(node_names.contains(&"workspace-b/crate-b2".to_string()));
}

