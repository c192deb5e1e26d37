//! Report generation for the cycle check, in four formats: human-readable
//! console text, JSON, JUnit XML and GitHub Actions annotations.

pub mod console_style;
pub mod github;
pub mod human;
pub mod json;
pub mod junit;
pub mod order;

use vstd::prelude::*;

use crate::detector::cycle::CycleView;
use crate::detector::CycleDetector;
use crate::error::FerrisWheelError;

verus! {

/// Common trait for all report generators.
pub trait ReportGenerator {
    /// Whether `text` is this generator's report of the cycles.
    spec fn is_report(&self, cycles: Seq<CycleView>, text: Seq<char>) -> bool;

    /// Generate a report from cycle detection results: always a report of
    /// the detected cycles.
    fn generate_report(&self, detector: &CycleDetector) -> (r: Result<String, FerrisWheelError>)
        ensures
            r matches Ok(s) && self.is_report(detector@, s@),
    ;
}

} // verus!
