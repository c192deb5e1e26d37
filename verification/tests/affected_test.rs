//! Change-impact analysis over workspaces laid out as discovery reports
//! them: member directories under `/work`, path dependencies as written in
//! the manifests, and the canonical form of the paths that the manifests
//! reach through `..`.

use ferris_wheel::analyzer::analyzer_impl::{CrateMember, Dependency, WorkspaceInfo};
use ferris_wheel::commands::affected_analysis::{AffectedAnalysis, AffectedResult, CrateId};
use ferris_wheel::dependency_filter::DependencyFilter;

const ROOT: &str = "/work";

struct Layout {
    workspaces: Vec<(String, WorkspaceInfo)>,
    crate_path_to_workspace: Vec<(String, String)>,
    canonical: Vec<(String, String)>,
}

fn contains_crate(crates: &[CrateId], name: &str) -> bool {
    crates.iter().any(|id| id.name() == name)
}

fn count_crate(crates: &[CrateId], name: &str) -> usize {
    crates.iter().filter(|id| id.name() == name).count()
}

fn path_dep(name: &str, path: &str) -> Dependency {
    Dependency::builder().with_name(name).with_path(path.to_string()).build().unwrap()
}

fn member(name: &str, dir: &str, deps: Vec<Dependency>) -> CrateMember {
    CrateMember::builder()
        .with_name(name)
        .with_path(format!("{ROOT}/{dir}"))
        .with_dependencies(deps)
        .build()
        .unwrap()
}

fn workspace(name: &str, dir: &str, members: Vec<CrateMember>, standalone: bool) -> (String, WorkspaceInfo) {
    (
        format!("{ROOT}/{dir}"),
        WorkspaceInfo::builder()
            .with_name(name)
            .with_members(members)
            .with_is_standalone(standalone)
            .build()
            .unwrap(),
    )
}

fn layout(workspaces: Vec<(String, WorkspaceInfo)>, canonical: Vec<(String, String)>) -> Layout {
    let mut crate_path_to_workspace = Vec::new();
    for (path, info) in &workspaces {
        for m in info.members() {
            crate_path_to_workspace.push((m.path().clone(), path.clone()));
        }
    }
    Layout { workspaces, crate_path_to_workspace, canonical }
}

fn canon(from: &str, to: &str) -> (String, String) {
    (format!("{ROOT}/{from}"), format!("{ROOT}/{to}"))
}

fn create_test_workspace_with_duplicates() -> Layout {
    layout(
        vec![
            workspace(
                "workspace-a",
                "workspace-a",
                vec![
                    member("phoenix-v2-api", "workspace-a/phoenix-v2-api", vec![]),
                    member(
                        "other-crate",
                        "workspace-a/other-crate",
                        vec![path_dep("phoenix-v2-api", "../phoenix-v2-api")],
                    ),
                ],
                false,
            ),
            workspace(
                "workspace-b",
                "workspace-b",
                vec![
                    member("phoenix-v2-api", "workspace-b/phoenix-v2-api", vec![]),
                    member(
                        "consumer-crate",
                        "workspace-b/consumer-crate",
                        vec![path_dep("phoenix-v2-api", "../phoenix-v2-api")],
                    ),
                ],
                false,
            ),
        ],
        vec![
            canon("workspace-a/other-crate/../phoenix-v2-api", "workspace-a/phoenix-v2-api"),
            canon("workspace-b/consumer-crate/../phoenix-v2-api", "workspace-b/phoenix-v2-api"),
        ],
    )
}

fn create_simple_test_workspace() -> Layout {
    layout(
        vec![workspace(
            "my-workspace",
            "my-workspace",
            vec![
                member("crate-a", "my-workspace/crate-a", vec![path_dep("crate-b", "../crate-b")]),
                member("crate-b", "my-workspace/crate-b", vec![]),
            ],
            false,
        )],
        vec![canon("my-workspace/crate-a/../crate-b", "my-workspace/crate-b")],
    )
}

fn create_mixed_workspace_and_standalone() -> Layout {
    layout(
        vec![
            workspace(
                "real-workspace",
                "real-workspace",
                vec![
                    member("crate-a", "real-workspace/crate-a", vec![path_dep("crate-b", "../crate-b")]),
                    member("crate-b", "real-workspace/crate-b", vec![]),
                ],
                false,
            ),
            workspace(
                "standalone-test-crate",
                "standalone-test-crate",
                vec![member("standalone-test-crate", "standalone-test-crate", vec![])],
                true,
            ),
            workspace(
                "another-standalone",
                "another-standalone",
                vec![member("another-standalone", "another-standalone", vec![])],
                true,
            ),
        ],
        vec![canon("real-workspace/crate-a/../crate-b", "real-workspace/crate-b")],
    )
}

fn analyze<'a>(l: &'a Layout, files: &[String]) -> (AffectedAnalysis<'a>, AffectedResult) {
    let analysis =
        AffectedAnalysis::new(&l.workspaces, &l.crate_path_to_workspace, DependencyFilter::default(), &l.canonical)
            .unwrap();
    let result = analysis.analyze_affected_files(files, ROOT, &l.canonical);
    (analysis, result)
}

fn file(rel: &str) -> String {
    format!("{ROOT}/{rel}")
}

#[test]
fn test_file_to_crate_mapping_with_duplicates() {
    let l = create_test_workspace_with_duplicates();

    // Test that files map to the correct crate based on longest path match
    let files_a = vec![file("workspace-a/phoenix-v2-api/src/lib.rs")];
    let (_, result_a) = analyze(&l, &files_a);

    assert!(contains_crate(&result_a.directly_affected_crates, "phoenix-v2-api"));
    assert_eq!(count_crate(&result_a.directly_affected_crates, "phoenix-v2-api"), 1);
    assert!(result_a.directly_affected_workspaces.contains(&"workspace-a".to_string()));
    assert!(!result_a.directly_affected_workspaces.contains(&"workspace-b".to_string()));

    // Test workspace B's phoenix-v2-api
    let files_b = vec![file("workspace-b/phoenix-v2-api/src/main.rs")];
    let (_, result_b) = analyze(&l, &files_b);

    assert!(contains_crate(&result_b.directly_affected_crates, "phoenix-v2-api"));
    assert_eq!(count_crate(&result_b.directly_affected_crates, "phoenix-v2-api"), 1);
    assert!(result_b.directly_affected_workspaces.contains(&"workspace-b".to_string()));
    assert!(!result_b.directly_affected_workspaces.contains(&"workspace-a".to_string()));
}

#[test]
fn test_duplicate_crate_names_multiple_changes() {
    let l = create_test_workspace_with_duplicates();

    let files = vec![
        file("workspace-a/phoenix-v2-api/src/lib.rs"),
        file("workspace-b/phoenix-v2-api/src/main.rs"),
    ];

    let (_, result) = analyze(&l, &files);

    assert_eq!(count_crate(&result.directly_affected_crates, "phoenix-v2-api"), 2);
    assert!(result.directly_affected_workspaces.contains(&"workspace-a".to_string()));
    assert!(result.directly_affected_workspaces.contains(&"workspace-b".to_string()));
}

#[test]
fn affected_test_reverse_dependencies() {
    let l = create_simple_test_workspace();

    // Modify crate-b
    let files = vec![file("my-workspace/crate-b/src/lib.rs")];
    let (_, result) = analyze(&l, &files);

    // crate-b should be directly affected
    assert!(contains_crate(&result.directly_affected_crates, "crate-b"));
    assert_eq!(result.directly_affected_crates.len(), 1);

    // crate-a should be affected via reverse dependency
    assert!(contains_crate(&result.all_affected_crates, "crate-a"));
    assert!(contains_crate(&result.all_affected_crates, "crate-b"));
    assert_eq!(result.all_affected_crates.len(), 2);
}

#[test]
fn test_unmatched_files() {
    let l = create_simple_test_workspace();

    // Test with files that don't belong to any crate
    let files = vec!["/tmp/some-random-file.rs".to_string(), file("README.md")];
    let (_, result) = analyze(&l, &files);

    assert_eq!(result.unmatched_files.len(), 2);
    assert!(result.directly_affected_crates.is_empty());
    assert!(result.directly_affected_workspaces.is_empty());
}

#[test]
fn test_relative_paths() {
    let l = create_simple_test_workspace();

    // Relative paths are taken from the current directory, here the root
    let files = vec!["my-workspace/crate-a/src/lib.rs".to_string()];
    let (_, result) = analyze(&l, &files);

    assert!(contains_crate(&result.directly_affected_crates, "crate-a"));
}

#[test]
fn test_json_report_generation() {
    let l = create_test_workspace_with_duplicates();

    let files = vec![
        file("workspace-a/phoenix-v2-api/src/lib.rs"),
        file("workspace-a/other-crate/src/lib.rs"),
    ];
    let (analysis, result) = analyze(&l, &files);

    let json_report = result.to_json_report(&analysis);

    // Check that all directly affected crates are marked correctly
    for crate_info in &json_report.affected_crates {
        if crate_info.name == "phoenix-v2-api" || crate_info.name == "other-crate" {
            assert!(crate_info.is_directly_affected);
        }
    }

    // Check workspace information
    assert!(json_report.directly_affected_workspaces.iter().any(|ws| ws.name == "workspace-a"));
}

#[test]
fn test_multiple_files_same_crate() {
    let l = create_simple_test_workspace();

    // Multiple files from the same crate
    let files = vec![file("my-workspace/crate-a/src/lib.rs"), file("my-workspace/crate-a/src/main.rs")];
    let (_, result) = analyze(&l, &files);

    // Should only count crate-a once
    assert_eq!(result.directly_affected_crates.len(), 1);
    assert!(contains_crate(&result.directly_affected_crates, "crate-a"));
}

#[test]
fn test_cross_workspace_dependencies() {
    let l = create_test_workspace_with_duplicates();

    // Modify consumer-crate in workspace B
    let files = vec![file("workspace-b/consumer-crate/src/lib.rs")];
    let (_, result) = analyze(&l, &files);

    // Only consumer-crate should be directly affected
    assert!(contains_crate(&result.directly_affected_crates, "consumer-crate"));

    // Workspace B should be affected
    assert!(result.directly_affected_workspaces.contains(&"workspace-b".to_string()));

    // Workspace A should NOT be affected (different phoenix-v2-api)
    assert!(!result.all_affected_workspaces.contains(&"workspace-a".to_string()));
}

#[test]
fn test_standalone_crate_detection_in_json_report() {
    let l = create_mixed_workspace_and_standalone();

    // Test affecting a standalone crate
    let files = vec![file("standalone-test-crate/src/lib.rs")];
    let (analysis, result) = analyze(&l, &files);
    let json_report = result.to_json_report(&analysis);

    // Should have one affected crate
    assert_eq!(json_report.affected_crates.len(), 1);

    let standalone_crate = &json_report.affected_crates[0];
    assert_eq!(standalone_crate.name, "standalone-test-crate");
    assert_eq!(standalone_crate.workspace, "standalone-test-crate");
    assert!(standalone_crate.is_directly_affected);
    assert!(standalone_crate.is_standalone); // This is the key test!
}

#[test]
fn test_workspace_crate_detection_in_json_report() {
    let l = create_mixed_workspace_and_standalone();

    // Test affecting a workspace member
    let files = vec![file("real-workspace/crate-a/src/lib.rs")];
    let (analysis, result) = analyze(&l, &files);
    let json_report = result.to_json_report(&analysis);

    assert!(!json_report.affected_crates.is_empty());

    let crate_a = json_report.affected_crates.iter().find(|c| c.name == "crate-a").unwrap();

    assert_eq!(crate_a.name, "crate-a");
    assert_eq!(crate_a.workspace, "real-workspace");
    assert!(crate_a.is_directly_affected);
    assert!(!crate_a.is_standalone); // This is the key test!
}

#[test]
fn test_mixed_standalone_and_workspace_detection() {
    let l = create_mixed_workspace_and_standalone();

    // Test affecting both standalone and workspace crates
    let files = vec![
        file("standalone-test-crate/src/lib.rs"),
        file("real-workspace/crate-a/src/lib.rs"),
        file("another-standalone/src/lib.rs"),
    ];
    let (analysis, result) = analyze(&l, &files);
    let json_report = result.to_json_report(&analysis);

    // Should have multiple affected crates
    assert!(json_report.affected_crates.len() >= 3);

    // Check standalone crates
    let standalone_crates: Vec<_> = json_report.affected_crates.iter().filter(|c| c.is_standalone).collect();

    assert_eq!(standalone_crates.len(), 2);

    let standalone_names: Vec<&str> = standalone_crates.iter().map(|c| c.name.as_str()).collect();

    assert!(standalone_names.contains(&"standalone-test-crate"));
    assert!(standalone_names.contains(&"another-standalone"));

    // Check workspace crates
    let workspace_crates: Vec<_> = json_report.affected_crates.iter().filter(|c| !c.is_standalone).collect();

    assert!(!workspace_crates.is_empty());

    let workspace_names: Vec<&str> = workspace_crates.iter().map(|c| c.name.as_str()).collect();

    assert!(workspace_names.contains(&"crate-a"));
}

#[test]
fn test_standalone_crate_workspace_name_equals_crate_name() {
    let l = create_mixed_workspace_and_standalone();

    let files = vec![file("standalone-test-crate/src/lib.rs")];
    let (analysis, result) = analyze(&l, &files);
    let json_report = result.to_json_report(&analysis);

    let standalone_crate = json_report.affected_crates.iter().find(|c| c.is_standalone).unwrap();

    // For standalone crates, workspace name should equal crate name
    assert_eq!(standalone_crate.name, standalone_crate.workspace);
    assert_eq!(standalone_crate.name, "standalone-test-crate");
}

#[test]
fn test_workspace_crate_workspace_name_differs_from_crate_name() {
    let l = create_mixed_workspace_and_standalone();

    let files = vec![file("real-workspace/crate-a/src/lib.rs")];
    let (analysis, result) = analyze(&l, &files);
    let json_report = result.to_json_report(&analysis);

    let workspace_crate = json_report.affected_crates.iter().find(|c| !c.is_standalone && c.name == "crate-a").unwrap();

    // For workspace members, workspace name should differ from crate name
    assert_ne!(workspace_crate.name, workspace_crate.workspace);
    assert_eq!(workspace_crate.name, "crate-a");
    assert_eq!(workspace_crate.workspace, "real-workspace");
}

#[test]
fn test_json_report_serialization_with_standalone_field() {
    let l = create_mixed_workspace_and_standalone();

    let files = vec![file("standalone-test-crate/src/lib.rs")];
    let (analysis, result) = analyze(&l, &files);
    let json_report = result.to_json_report(&analysis);

    // The JSON text includes the is_standalone field
    let json_str = json_report.to_json_text();

    assert!(json_str.contains("is_standalone"));
    assert!(json_str.contains("\"is_standalone\": true"));

    // The text reads back as JSON
    let parsed: serde_json::Value = serde_json::from_str(&json_str).unwrap();
    let crates = parsed["affected_crates"].as_array().unwrap();
    assert_eq!(crates.len(), json_report.affected_crates.len());
    assert_eq!(crates[0]["is_standalone"], serde_json::Value::Bool(true));
}

#[test]
fn test_cargo_manifest_files_mapping() {
    let l = create_simple_test_workspace();

    // Test that Cargo.toml files are properly mapped to their crates
    let files = vec![file("my-workspace/crate-a/Cargo.toml"), file("my-workspace/crate-b/Cargo.toml")];
    let (_, result) = analyze(&l, &files);

    // Both crates should be directly affected by their Cargo.toml files
    assert_eq!(result.directly_affected_crates.len(), 2);
    assert!(contains_crate(&result.directly_affected_crates, "crate-a"));
    assert!(contains_crate(&result.directly_affected_crates, "crate-b"));

    // The workspace should be affected
    assert!(result.directly_affected_workspaces.contains(&"my-workspace".to_string()));
}

#[test]
fn test_workspace_cargo_toml_mapping() {
    let l = create_simple_test_workspace();

    // Test workspace-level Cargo.toml
    let files = vec![file("my-workspace/Cargo.toml")];
    let (_, result) = analyze(&l, &files);

    // Workspace Cargo.toml should affect all workspace members
    assert_eq!(result.directly_affected_crates.len(), 2);
    assert!(contains_crate(&result.directly_affected_crates, "crate-a"));
    assert!(contains_crate(&result.directly_affected_crates, "crate-b"));
    assert!(result.directly_affected_workspaces.contains(&"my-workspace".to_string()));
    assert!(result.unmatched_files.is_empty());
}

#[test]
fn test_cargo_lock_file_mapping() {
    let l = create_mixed_workspace_and_standalone();

    // Test Cargo.lock files
    let files = vec![file("real-workspace/Cargo.lock"), file("standalone-test-crate/Cargo.lock")];
    let (_, result) = analyze(&l, &files);

    // Standalone crate's Cargo.lock should map to the crate
    assert!(contains_crate(&result.directly_affected_crates, "standalone-test-crate",));

    // Workspace Cargo.lock should affect all workspace members
    assert!(contains_crate(&result.directly_affected_crates, "crate-a"));
    assert!(contains_crate(&result.directly_affected_crates, "crate-b"));

    // No unmatched files
    assert!(result.unmatched_files.is_empty());
}

#[test]
fn test_workspace_cargo_lock_affects_all_members() {
    let l = create_simple_test_workspace();

    // Test that changing Cargo.lock at workspace root affects all members
    let files = vec![file("my-workspace/Cargo.lock")];
    let (_, result) = analyze(&l, &files);

    // All workspace members should be directly affected
    assert!(contains_crate(&result.directly_affected_crates, "crate-a"));
    assert!(contains_crate(&result.directly_affected_crates, "crate-b"));
    assert_eq!(result.directly_affected_crates.len(), 2);

    // The workspace should be affected
    assert!(result.directly_affected_workspaces.contains(&"my-workspace".to_string()));

    // No unmatched files
    assert!(result.unmatched_files.is_empty());
}

#[test]
fn test_workspace_cargo_toml_affects_all_members() {
    let l = create_simple_test_workspace();

    // Test that changing workspace Cargo.toml affects all members
    let files = vec![file("my-workspace/Cargo.toml")];
    let (_, result) = analyze(&l, &files);

    // All workspace members should be directly affected
    assert!(contains_crate(&result.directly_affected_crates, "crate-a"));
    assert!(contains_crate(&result.directly_affected_crates, "crate-b"));
    assert_eq!(result.directly_affected_crates.len(), 2);

    // The workspace should be affected
    assert!(result.directly_affected_workspaces.contains(&"my-workspace".to_string()));

    // No unmatched files
    assert!(result.unmatched_files.is_empty());
}

#[test]
fn test_standalone_cargo_lock_affects_only_that_crate() {
    let l = create_mixed_workspace_and_standalone();

    // Test that changing a standalone crate's Cargo.lock only affects that crate
    let files = vec![file("standalone-test-crate/Cargo.lock")];
    let (_, result) = analyze(&l, &files);

    // Only the standalone crate should be affected
    assert!(contains_crate(&result.directly_affected_crates, "standalone-test-crate",));
    assert_eq!(result.directly_affected_crates.len(), 1);

    // No workspace members should be affected
    assert!(!contains_crate(&result.directly_affected_crates, "crate-a"));
    assert!(!contains_crate(&result.directly_affected_crates, "crate-b"));

    // No unmatched files
    assert!(result.unmatched_files.is_empty());
}

#[test]
fn test_crate_cargo_toml_affects_dependents() {
    let l = create_simple_test_workspace();

    // Test that changing a crate's Cargo.toml affects its dependents
    let files = vec![file("my-workspace/crate-b/Cargo.toml")];
    let (_, result) = analyze(&l, &files);

    // crate-b should be directly affected
    assert!(contains_crate(&result.directly_affected_crates, "crate-b"));
    assert_eq!(result.directly_affected_crates.len(), 1);

    // crate-a depends on crate-b, so it should be affected through reverse
    // dependencies
    assert!(contains_crate(&result.all_affected_crates, "crate-a"));
    assert!(contains_crate(&result.all_affected_crates, "crate-b"));
    assert_eq!(result.all_affected_crates.len(), 2);
}

#[test]
fn test_multiple_cargo_files_affected() {
    let l = create_simple_test_workspace();

    // Test multiple Cargo files changed at once
    let files = vec![
        file("my-workspace/Cargo.toml"),
        file("my-workspace/Cargo.lock"),
        file("my-workspace/crate-a/Cargo.toml"),
    ];
    let (_, result) = analyze(&l, &files);

    // All crates should be directly affected
    assert!(contains_crate(&result.directly_affected_crates, "crate-a"));
    assert!(contains_crate(&result.directly_affected_crates, "crate-b"));
    assert_eq!(result.directly_affected_crates.len(), 2);

    // No unmatched files
    assert!(result.unmatched_files.is_empty());
}

#[test]
fn test_nested_workspace_cargo_lock() {
    // A workspace nested in another: the inner crates belong to the inner
    // workspace, the outer crate to the outer one.
    let l = layout(
        vec![
            workspace(
                "outer-workspace",
                "outer-workspace",
                vec![member("outer-crate", "outer-workspace/outer-crate", vec![])],
                false,
            ),
            workspace(
                "inner-workspace",
                "outer-workspace/inner-workspace",
                vec![
                    member("inner-crate-a", "outer-workspace/inner-workspace/inner-crate-a", vec![]),
                    member("inner-crate-b", "outer-workspace/inner-workspace/inner-crate-b", vec![]),
                ],
                false,
            ),
        ],
        vec![],
    );

    // Test that inner workspace Cargo.lock only affects inner crates
    let files = vec![file("outer-workspace/inner-workspace/Cargo.lock")];
    let (_, result) = analyze(&l, &files);

    assert!(contains_crate(&result.directly_affected_crates, "inner-crate-a"));
    assert!(contains_crate(&result.directly_affected_crates, "inner-crate-b"));
    assert!(!contains_crate(&result.directly_affected_crates, "outer-crate"));
    assert_eq!(result.directly_affected_crates.len(), 2);
}
