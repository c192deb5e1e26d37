use serde_json::Value;

use ferris_wheel::detector::{CycleDetector, WorkspaceCycle};
use ferris_wheel::reports::json::JsonReportGenerator;
use ferris_wheel::reports::human::HumanReportGenerator;
use ferris_wheel::reports::ReportGenerator;



fn create_test_detector_with_cycles() -> CycleDetector {
    let mut detector = CycleDetector::new();

    // Create a simple cycle: workspace-a -> workspace-b -> workspace-a
    let cycle = WorkspaceCycle::builder()
        .with_workspace_names(vec!["workspace-a".to_string(), "workspace-b".to_string()])
        .add_edge()
        .from_workspace("workspace-a")
        .to_workspace("workspace-b")
        .from_crate("crate-a")
        .to_crate("crate-b")
        .dependency_type("normal")
        .add_edge()
        .from_workspace("workspace-b")
        .to_workspace("workspace-a")
        .from_crate("crate-b")
        .to_crate("crate-a")
        .dependency_type("dev")
        .build();

    detector.add_cycle(cycle);
    detector
}

#[test]
fn test_json_report_no_cycles() {
    let detector = CycleDetector::new();
    let generator = JsonReportGenerator::new();

    let report = generator.generate_report(&detector).unwrap();
    let json: Value = serde_json::from_str(&report).unwrap();

    assert_eq!(json["has_cycles"], false);
    assert_eq!(json["cycle_count"], 0);
    assert_eq!(json["cycles"].as_array().unwrap().len(), 0);
}

#[test]
fn test_json_report_with_cycles() {
    let detector = create_test_detector_with_cycles();
    let generator = JsonReportGenerator::new();

    let report = generator.generate_report(&detector).unwrap();
    let json: Value = serde_json::from_str(&report).unwrap();

    assert_eq!(json["has_cycles"], true);
    assert_eq!(json["cycle_count"], 1);

    let cycles = json["cycles"].as_array().unwrap();
    assert_eq!(cycles.len(), 1);

    let cycle = &cycles[0];
    let workspaces = cycle["workspaces"].as_array().unwrap();
    assert_eq!(workspaces.len(), 2);
    assert!(workspaces.contains(&Value::String("workspace-a".to_string())));
    assert!(workspaces.contains(&Value::String("workspace-b".to_string())));

    let edges = cycle["edges"].as_array().unwrap();
    assert_eq!(edges.len(), 2);
}

#[test]
fn test_json_report_edge_structure() {
    let detector = create_test_detector_with_cycles();
    let generator = JsonReportGenerator::new();

    let report = generator.generate_report(&detector).unwrap();
    let json: Value = serde_json::from_str(&report).unwrap();

    let edge = &json["cycles"][0]["edges"][0];
    assert!(edge.get("from_crate").is_some());
    assert!(edge.get("to_crate").is_some());
    assert!(edge.get("dependency_type").is_some());
}


#[test]
fn human_report_styles_only_when_asked() {
    let detector = create_test_detector_with_cycles();
    let generator = HumanReportGenerator::new(None);
    let plain = generator.report_text(&detector, false);
    assert!(!plain.contains('\u{1b}'));
    assert!(plain.contains("❌ Found 1 dependency cycle"));
    let colored = generator.report_text(&detector, true);
    assert!(colored.contains('\u{1b}'));
    assert!(colored.contains("\u{1b}[31m\u{1b}[1m❌\u{1b}[0m"));
    assert!(colored.contains("workspace-a"));
    assert_ne!(plain, colored);
}
