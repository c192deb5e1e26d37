//! Configuration of the cycle check.

use vstd::prelude::*;

use crate::cli::{GraphFormat, OutputFormat};
use crate::common::ConfigBuilder;
use crate::error::{is_missing_field, missing_field, FerrisWheelError};

verus! {

/// Configuration for checking dependency cycles.
pub struct CheckCyclesConfig {
    pub paths: Vec<String>,
    pub format: OutputFormat,
    pub error_on_cycles: bool,
    pub exclude_dev: bool,
    pub exclude_build: bool,
    pub exclude_target: bool,
    pub max_cycles: Option<usize>,
    pub intra_workspace: bool,
}

impl CheckCyclesConfig {
    pub fn builder() -> (r: CheckCyclesConfigBuilder)
        ensures
            r.paths is None,
            r.format is None,
            r.error_on_cycles is None,
            r.exclude_dev is None,
            r.exclude_build is None,
            r.exclude_target is None,
            r.max_cycles is None,
            r.intra_workspace is None,
    {
        CheckCyclesConfigBuilder::new()
    }
}

/// Builder of a `CheckCyclesConfig`.
pub struct CheckCyclesConfigBuilder {
    pub paths: Option<Vec<String>>,
    pub format: Option<OutputFormat>,
    pub error_on_cycles: Option<bool>,
    pub exclude_dev: Option<bool>,
    pub exclude_build: Option<bool>,
    pub exclude_target: Option<bool>,
    pub max_cycles: Option<Option<usize>>,
    pub intra_workspace: Option<bool>,
}

impl CheckCyclesConfigBuilder {
    pub fn new() -> (r: Self)
        ensures
            r.paths is None,
            r.format is None,
            r.error_on_cycles is None,
            r.exclude_dev is None,
            r.exclude_build is None,
            r.exclude_target is None,
            r.max_cycles is None,
            r.intra_workspace is None,
    {
        CheckCyclesConfigBuilder { paths: None, format: None, error_on_cycles: None, exclude_dev: None, exclude_build: None, exclude_target: None, max_cycles: None, intra_workspace: None }
    }

    pub fn with_paths(self, paths: Vec<String>) -> (r: Self)
        ensures
            r.paths == Some(paths),
            r.format == self.format,
            r.error_on_cycles == self.error_on_cycles,
            r.exclude_dev == self.exclude_dev,
            r.exclude_build == self.exclude_build,
            r.exclude_target == self.exclude_target,
            r.max_cycles == self.max_cycles,
            r.intra_workspace == self.intra_workspace,
    {
        CheckCyclesConfigBuilder { paths: Some(paths), ..self }
    }

    pub fn with_format(self, format: OutputFormat) -> (r: Self)
        ensures
            r.format == Some(format),
            r.paths == self.paths,
            r.error_on_cycles == self.error_on_cycles,
            r.exclude_dev == self.exclude_dev,
            r.exclude_build == self.exclude_build,
            r.exclude_target == self.exclude_target,
            r.max_cycles == self.max_cycles,
            r.intra_workspace == self.intra_workspace,
    {
        CheckCyclesConfigBuilder { format: Some(format), ..self }
    }

    pub fn with_error_on_cycles(self, error_on_cycles: bool) -> (r: Self)
        ensures
            r.error_on_cycles == Some(error_on_cycles),
            r.paths == self.paths,
            r.format == self.format,
            r.exclude_dev == self.exclude_dev,
            r.exclude_build == self.exclude_build,
            r.exclude_target == self.exclude_target,
            r.max_cycles == self.max_cycles,
            r.intra_workspace == self.intra_workspace,
    {
        CheckCyclesConfigBuilder { error_on_cycles: Some(error_on_cycles), ..self }
    }

    pub fn with_exclude_dev(self, exclude_dev: bool) -> (r: Self)
        ensures
            r.exclude_dev == Some(exclude_dev),
            r.paths == self.paths,
            r.format == self.format,
            r.error_on_cycles == self.error_on_cycles,
            r.exclude_build == self.exclude_build,
            r.exclude_target == self.exclude_target,
            r.max_cycles == self.max_cycles,
            r.intra_workspace == self.intra_workspace,
    {
        CheckCyclesConfigBuilder { exclude_dev: Some(exclude_dev), ..self }
    }

    pub fn with_exclude_build(self, exclude_build: bool) -> (r: Self)
        ensures
            r.exclude_build == Some(exclude_build),
            r.paths == self.paths,
            r.format == self.format,
            r.error_on_cycles == self.error_on_cycles,
            r.exclude_dev == self.exclude_dev,
            r.exclude_target == self.exclude_target,
            r.max_cycles == self.max_cycles,
            r.intra_workspace == self.intra_workspace,
    {
        CheckCyclesConfigBuilder { exclude_build: Some(exclude_build), ..self }
    }

    pub fn with_exclude_target(self, exclude_target: bool) -> (r: Self)
        ensures
            r.exclude_target == Some(exclude_target),
            r.paths == self.paths,
            r.format == self.format,
            r.error_on_cycles == self.error_on_cycles,
            r.exclude_dev == self.exclude_dev,
            r.exclude_build == self.exclude_build,
            r.max_cycles == self.max_cycles,
            r.intra_workspace == self.intra_workspace,
    {
        CheckCyclesConfigBuilder { exclude_target: Some(exclude_target), ..self }
    }

    pub fn with_max_cycles(self, max_cycles: Option<usize>) -> (r: Self)
        ensures
            r.max_cycles == Some(max_cycles),
            r.paths == self.paths,
            r.format == self.format,
            r.error_on_cycles == self.error_on_cycles,
            r.exclude_dev == self.exclude_dev,
            r.exclude_build == self.exclude_build,
            r.exclude_target == self.exclude_target,
            r.intra_workspace == self.intra_workspace,
    {
        CheckCyclesConfigBuilder { max_cycles: Some(max_cycles), ..self }
    }

    pub fn with_intra_workspace(self, intra_workspace: bool) -> (r: Self)
        ensures
            r.intra_workspace == Some(intra_workspace),
            r.paths == self.paths,
            r.format == self.format,
            r.error_on_cycles == self.error_on_cycles,
            r.exclude_dev == self.exclude_dev,
            r.exclude_build == self.exclude_build,
            r.exclude_target == self.exclude_target,
            r.max_cycles == self.max_cycles,
    {
        CheckCyclesConfigBuilder { intra_workspace: Some(intra_workspace), ..self }
    }

}

impl Default for CheckCyclesConfigBuilder {
    fn default() -> (r: Self)
        ensures
            r.paths is None,
            r.format is None,
            r.error_on_cycles is None,
            r.exclude_dev is None,
            r.exclude_build is None,
            r.exclude_target is None,
            r.max_cycles is None,
            r.intra_workspace is None,
    {
        Self::new()
    }
}

impl ConfigBuilder for CheckCyclesConfigBuilder {
    type Config = CheckCyclesConfig;

    /// Every field is required; the first missing one is reported.
    fn build(self) -> (r: Result<CheckCyclesConfig, FerrisWheelError>)
        ensures
            (self.paths is Some && self.format is Some && self.error_on_cycles is Some && self.exclude_dev is Some && self.exclude_build is Some && self.exclude_target is Some && self.max_cycles is Some && self.intra_workspace is Some) <==> r is Ok,
            r matches Ok(c) ==> c.paths == self.paths.unwrap() && c.format == self.format.unwrap() && c.error_on_cycles == self.error_on_cycles.unwrap() && c.exclude_dev == self.exclude_dev.unwrap() && c.exclude_build == self.exclude_build.unwrap() && c.exclude_target == self.exclude_target.unwrap() && c.max_cycles == self.max_cycles.unwrap() && c.intra_workspace == self.intra_workspace.unwrap(),
            self.paths is None ==> (r matches Err(e) && is_missing_field(e, "paths"@)),
            self.paths is Some && self.format is None ==> (r matches Err(e) && is_missing_field(e, "format"@)),
            self.paths is Some && self.format is Some && self.error_on_cycles is None ==> (r matches Err(e) && is_missing_field(e, "error_on_cycles"@)),
            self.paths is Some && self.format is Some && self.error_on_cycles is Some && self.exclude_dev is None ==> (r matches Err(e) && is_missing_field(e, "exclude_dev"@)),
            self.paths is Some && self.format is Some && self.error_on_cycles is Some && self.exclude_dev is Some && self.exclude_build is None ==> (r matches Err(e) && is_missing_field(e, "exclude_build"@)),
            self.paths is Some && self.format is Some && self.error_on_cycles is Some && self.exclude_dev is Some && self.exclude_build is Some && self.exclude_target is None ==> (r matches Err(e) && is_missing_field(e, "exclude_target"@)),
            self.paths is Some && self.format is Some && self.error_on_cycles is Some && self.exclude_dev is Some && self.exclude_build is Some && self.exclude_target is Some && self.max_cycles is None ==> (r matches Err(e) && is_missing_field(e, "max_cycles"@)),
            self.paths is Some && self.format is Some && self.error_on_cycles is Some && self.exclude_dev is Some && self.exclude_build is Some && self.exclude_target is Some && self.max_cycles is Some && self.intra_workspace is None ==> (r matches Err(e) && is_missing_field(e, "intra_workspace"@)),
    {
        let paths = match self.paths {
            Some(v) => v,
            None => return Err(missing_field("paths")),
        };
        let format = match self.format {
            Some(v) => v,
            None => return Err(missing_field("format")),
        };
        let error_on_cycles = match self.error_on_cycles {
            Some(v) => v,
            None => return Err(missing_field("error_on_cycles")),
        };
        let exclude_dev = match self.exclude_dev {
            Some(v) => v,
            None => return Err(missing_field("exclude_dev")),
        };
        let exclude_build = match self.exclude_build {
            Some(v) => v,
            None => return Err(missing_field("exclude_build")),
        };
        let exclude_target = match self.exclude_target {
            Some(v) => v,
            None => return Err(missing_field("exclude_target")),
        };
        let max_cycles = match self.max_cycles {
            Some(v) => v,
            None => return Err(missing_field("max_cycles")),
        };
        let intra_workspace = match self.intra_workspace {
            Some(v) => v,
            None => return Err(missing_field("intra_workspace")),
        };
        Ok(CheckCyclesConfig { paths, format, error_on_cycles, exclude_dev, exclude_build, exclude_target, max_cycles, intra_workspace })
    }
}
} // verus!
