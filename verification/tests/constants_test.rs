use std::time::Duration;

use ferris_wheel::constants::output;
use ferris_wheel::constants::progress;
use ferris_wheel::detector::CycleDetector;
use ferris_wheel::reports::json::JsonReportGenerator;
use ferris_wheel::reports::ReportGenerator;
use ferris_wheel::utils::string::pluralize;

#[test]
fn test_progress_constants() {
    assert_eq!(progress::tick_interval(), Duration::from_millis(100));
    assert_eq!(progress::SPINNER_FRAMES.len(), 8);
}

#[test]
fn test_output_constants() {
    assert_eq!(output::DEFAULT_FORMAT, "human");
}

#[test]
fn test_json_report_pretty_formatting() {
    let detector = CycleDetector::new();
    let generator = JsonReportGenerator::new();

    let report = generator.generate_report(&detector).unwrap();

    // Pretty formatted JSON should have newlines and indentation
    assert!(report.contains('\n'));
    assert!(report.contains("  "));
}

#[test]
fn test_json_report_default_trait() {
    let generator1 = JsonReportGenerator;
    let generator2 = JsonReportGenerator::new();

    // Both should produce the same results
    let detector = CycleDetector::new();
    let report1 = generator1.generate_report(&detector).unwrap();
    let report2 = generator2.generate_report(&detector).unwrap();

    assert_eq!(report1, report2);
}

#[test]
fn test_pluralize() {
    assert_eq!(pluralize("crate", 0), "crates");
    assert_eq!(pluralize("crate", 1), "crate");
    assert_eq!(pluralize("crate", 5), "crates");
}
