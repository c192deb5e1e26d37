//! Configuration shared by the analysis commands.

use vstd::prelude::*;

use crate::cli::OutputFormat;
use crate::error::{is_missing_field, missing_field, FerrisWheelError};

verus! {

/// Settings every analysis command uses.
pub struct CommonAnalysisConfig {
    pub paths: Vec<String>,
    pub format: OutputFormat,
    pub exclude_dev: bool,
    pub exclude_build: bool,
    pub exclude_target: bool,
    pub max_cycles: Option<usize>,
    pub intra_workspace: bool,
}

impl CommonAnalysisConfig {
    /// The given paths and format; nothing excluded, no cycle limit, across
    /// workspaces.
    pub fn new(paths: Vec<String>, format: OutputFormat) -> (r: Self)
        ensures
            r.paths == paths,
            r.format == format,
            !r.exclude_dev && !r.exclude_build && !r.exclude_target,
            r.max_cycles is None,
            !r.intra_workspace,
    {
        CommonAnalysisConfig {
            paths,
            format,
            exclude_dev: false,
            exclude_build: false,
            exclude_target: false,
            max_cycles: None,
            intra_workspace: false,
        }
    }

    pub fn builder() -> (r: CommonAnalysisConfigBuilder)
        ensures
            r.paths is None,
            r.format is None,
            !r.exclude_dev && !r.exclude_build && !r.exclude_target,
            r.max_cycles is None,
            !r.intra_workspace,
    {
        CommonAnalysisConfigBuilder::default()
    }
}

/// Builder of a `CommonAnalysisConfig`; paths and format are required.
pub struct CommonAnalysisConfigBuilder {
    pub paths: Option<Vec<String>>,
    pub format: Option<OutputFormat>,
    pub exclude_dev: bool,
    pub exclude_build: bool,
    pub exclude_target: bool,
    pub max_cycles: Option<usize>,
    pub intra_workspace: bool,
}

impl Default for CommonAnalysisConfigBuilder {
    fn default() -> (r: Self)
        ensures
            r.paths is None,
            r.format is None,
            !r.exclude_dev && !r.exclude_build && !r.exclude_target,
            r.max_cycles is None,
            !r.intra_workspace,
    {
        CommonAnalysisConfigBuilder {
            paths: None,
            format: None,
            exclude_dev: false,
            exclude_build: false,
            exclude_target: false,
            max_cycles: None,
            intra_workspace: false,
        }
    }
}

impl CommonAnalysisConfigBuilder {
    pub fn paths(self, paths: Vec<String>) -> (r: Self)
        ensures
            r == (Self { paths: Some(paths), ..self }),
    {
        Self { paths: Some(paths), ..self }
    }

    pub fn format(self, format: OutputFormat) -> (r: Self)
        ensures
            r == (Self { format: Some(format), ..self }),
    {
        Self { format: Some(format), ..self }
    }

    pub fn exclude_dev(self, exclude_dev: bool) -> (r: Self)
        ensures
            r == (Self { exclude_dev, ..self }),
    {
        Self { exclude_dev, ..self }
    }

    pub fn exclude_build(self, exclude_build: bool) -> (r: Self)
        ensures
            r == (Self { exclude_build, ..self }),
    {
        Self { exclude_build, ..self }
    }

    pub fn exclude_target(self, exclude_target: bool) -> (r: Self)
        ensures
            r == (Self { exclude_target, ..self }),
    {
        Self { exclude_target, ..self }
    }

    pub fn max_cycles(self, max_cycles: Option<usize>) -> (r: Self)
        ensures
            r == (Self { max_cycles, ..self }),
    {
        Self { max_cycles, ..self }
    }

    pub fn intra_workspace(self, intra_workspace: bool) -> (r: Self)
        ensures
            r == (Self { intra_workspace, ..self }),
    {
        Self { intra_workspace, ..self }
    }

    /// Paths and format are required, in that order.
    pub fn build(self) -> (r: Result<CommonAnalysisConfig, FerrisWheelError>)
        ensures
            (self.paths is Some && self.format is Some) <==> r is Ok,
            r matches Ok(c) ==> c.paths == self.paths.unwrap() && c.format == self.format.unwrap()
                && c.exclude_dev == self.exclude_dev && c.exclude_build == self.exclude_build
                && c.exclude_target == self.exclude_target && c.max_cycles == self.max_cycles
                && c.intra_workspace == self.intra_workspace,
            self.paths is None ==> (r matches Err(e) && is_missing_field(e, "paths"@)),
            self.paths is Some && self.format is None ==> (r matches Err(e) && is_missing_field(e, "format"@)),
    {
        let paths = match self.paths {
            Some(p) => p,
            None => return Err(missing_field("paths")),
        };
        let format = match self.format {
            Some(f) => f,
            None => return Err(missing_field("format")),
        };
        Ok(CommonAnalysisConfig {
            paths,
            format,
            exclude_dev: self.exclude_dev,
            exclude_build: self.exclude_build,
            exclude_target: self.exclude_target,
            max_cycles: self.max_cycles,
            intra_workspace: self.intra_workspace,
        })
    }
}

} // verus!
