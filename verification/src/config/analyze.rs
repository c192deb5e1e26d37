//! Configuration of the crate spotlight analysis.

use vstd::prelude::*;

use crate::cli::{GraphFormat, OutputFormat};
use crate::common::ConfigBuilder;
use crate::error::{is_missing_field, missing_field, FerrisWheelError};

verus! {

/// Configuration for analysing the cycles that involve one crate.
pub struct AnalyzeCrateConfig {
    pub crate_name: String,
    pub paths: Vec<String>,
    pub format: OutputFormat,
    pub exclude_dev: bool,
    pub exclude_build: bool,
    pub exclude_target: bool,
    pub max_cycles: Option<usize>,
    pub intra_workspace: bool,
}

impl AnalyzeCrateConfig {
    pub fn builder() -> (r: AnalyzeCrateConfigBuilder)
        ensures
            r.crate_name is None,
            r.paths is None,
            r.format is None,
            r.exclude_dev is None,
            r.exclude_build is None,
            r.exclude_target is None,
            r.max_cycles is None,
            r.intra_workspace is None,
    {
        AnalyzeCrateConfigBuilder::new()
    }
}

/// Builder of an `AnalyzeCrateConfig`.
pub struct AnalyzeCrateConfigBuilder {
    pub crate_name: Option<String>,
    pub paths: Option<Vec<String>>,
    pub format: Option<OutputFormat>,
    pub exclude_dev: Option<bool>,
    pub exclude_build: Option<bool>,
    pub exclude_target: Option<bool>,
    pub max_cycles: Option<Option<usize>>,
    pub intra_workspace: Option<bool>,
}

impl AnalyzeCrateConfigBuilder {
    pub fn new() -> (r: Self)
        ensures
            r.crate_name is None,
            r.paths is None,
            r.format is None,
            r.exclude_dev is None,
            r.exclude_build is None,
            r.exclude_target is None,
            r.max_cycles is None,
            r.intra_workspace is None,
    {
        AnalyzeCrateConfigBuilder { crate_name: None, paths: None, format: None, exclude_dev: None, exclude_build: None, exclude_target: None, max_cycles: None, intra_workspace: None }
    }

    pub fn with_crate_name(self, crate_name: String) -> (r: Self)
        ensures
            r.crate_name == Some(crate_name),
            r.paths == self.paths,
            r.format == self.format,
            r.exclude_dev == self.exclude_dev,
            r.exclude_build == self.exclude_build,
            r.exclude_target == self.exclude_target,
            r.max_cycles == self.max_cycles,
            r.intra_workspace == self.intra_workspace,
    {
        AnalyzeCrateConfigBuilder { crate_name: Some(crate_name), ..self }
    }

    pub fn with_paths(self, paths: Vec<String>) -> (r: Self)
        ensures
            r.paths == Some(paths),
            r.crate_name == self.crate_name,
            r.format == self.format,
            r.exclude_dev == self.exclude_dev,
            r.exclude_build == self.exclude_build,
            r.exclude_target == self.exclude_target,
            r.max_cycles == self.max_cycles,
            r.intra_workspace == self.intra_workspace,
    {
        AnalyzeCrateConfigBuilder { paths: Some(paths), ..self }
    }

    pub fn with_format(self, format: OutputFormat) -> (r: Self)
        ensures
            r.format == Some(format),
            r.crate_name == self.crate_name,
            r.paths == self.paths,
            r.exclude_dev == self.exclude_dev,
            r.exclude_build == self.exclude_build,
            r.exclude_target == self.exclude_target,
            r.max_cycles == self.max_cycles,
            r.intra_workspace == self.intra_workspace,
    {
        AnalyzeCrateConfigBuilder { format: Some(format), ..self }
    }

    pub fn with_exclude_dev(self, exclude_dev: bool) -> (r: Self)
        ensures
            r.exclude_dev == Some(exclude_dev),
            r.crate_name == self.crate_name,
            r.paths == self.paths,
            r.format == self.format,
            r.exclude_build == self.exclude_build,
            r.exclude_target == self.exclude_target,
            r.max_cycles == self.max_cycles,
            r.intra_workspace == self.intra_workspace,
    {
        AnalyzeCrateConfigBuilder { exclude_dev: Some(exclude_dev), ..self }
    }

    pub fn with_exclude_build(self, exclude_build: bool) -> (r: Self)
        ensures
            r.exclude_build == Some(exclude_build),
            r.crate_name == self.crate_name,
            r.paths == self.paths,
            r.format == self.format,
            r.exclude_dev == self.exclude_dev,
            r.exclude_target == self.exclude_target,
            r.max_cycles == self.max_cycles,
            r.intra_workspace == self.intra_workspace,
    {
        AnalyzeCrateConfigBuilder { exclude_build: Some(exclude_build), ..self }
    }

    pub fn with_exclude_target(self, exclude_target: bool) -> (r: Self)
        ensures
            r.exclude_target == Some(exclude_target),
            r.crate_name == self.crate_name,
            r.paths == self.paths,
            r.format == self.format,
            r.exclude_dev == self.exclude_dev,
            r.exclude_build == self.exclude_build,
            r.max_cycles == self.max_cycles,
            r.intra_workspace == self.intra_workspace,
    {
        AnalyzeCrateConfigBuilder { exclude_target: Some(exclude_target), ..self }
    }

    pub fn with_max_cycles(self, max_cycles: Option<usize>) -> (r: Self)
        ensures
            r.max_cycles == Some(max_cycles),
            r.crate_name == self.crate_name,
            r.paths == self.paths,
            r.format == self.format,
            r.exclude_dev == self.exclude_dev,
            r.exclude_build == self.exclude_build,
            r.exclude_target == self.exclude_target,
            r.intra_workspace == self.intra_workspace,
    {
        AnalyzeCrateConfigBuilder { max_cycles: Some(max_cycles), ..self }
    }

    pub fn with_intra_workspace(self, intra_workspace: bool) -> (r: Self)
        ensures
            r.intra_workspace == Some(intra_workspace),
            r.crate_name == self.crate_name,
            r.paths == self.paths,
            r.format == self.format,
            r.exclude_dev == self.exclude_dev,
            r.exclude_build == self.exclude_build,
            r.exclude_target == self.exclude_target,
            r.max_cycles == self.max_cycles,
    {
        AnalyzeCrateConfigBuilder { intra_workspace: Some(intra_workspace), ..self }
    }

}

impl Default for AnalyzeCrateConfigBuilder {
    fn default() -> (r: Self)
        ensures
            r.crate_name is None,
            r.paths is None,
            r.format is None,
            r.exclude_dev is None,
            r.exclude_build is None,
            r.exclude_target is None,
            r.max_cycles is None,
            r.intra_workspace is None,
    {
        Self::new()
    }
}

impl ConfigBuilder for AnalyzeCrateConfigBuilder {
    type Config = AnalyzeCrateConfig;

    /// Every field is required; the first missing one is reported.
    fn build(self) -> (r: Result<AnalyzeCrateConfig, FerrisWheelError>)
        ensures
            (self.crate_name is Some && self.paths is Some && self.format is Some && self.exclude_dev is Some && self.exclude_build is Some && self.exclude_target is Some && self.max_cycles is Some && self.intra_workspace is Some) <==> r is Ok,
            r matches Ok(c) ==> c.crate_name == self.crate_name.unwrap() && c.paths == self.paths.unwrap() && c.format == self.format.unwrap() && c.exclude_dev == self.exclude_dev.unwrap() && c.exclude_build == self.exclude_build.unwrap() && c.exclude_target == self.exclude_target.unwrap() && c.max_cycles == self.max_cycles.unwrap() && c.intra_workspace == self.intra_workspace.unwrap(),
            self.crate_name is None ==> (r matches Err(e) && is_missing_field(e, "crate_name"@)),
            self.crate_name is Some && self.paths is None ==> (r matches Err(e) && is_missing_field(e, "paths"@)),
            self.crate_name is Some && self.paths is Some && self.format is None ==> (r matches Err(e) && is_missing_field(e, "format"@)),
            self.crate_name is Some && self.paths is Some && self.format is Some && self.exclude_dev is None ==> (r matches Err(e) && is_missing_field(e, "exclude_dev"@)),
            self.crate_name is Some && self.paths is Some && self.format is Some && self.exclude_dev is Some && self.exclude_build is None ==> (r matches Err(e) && is_missing_field(e, "exclude_build"@)),
            self.crate_name is Some && self.paths is Some && self.format is Some && self.exclude_dev is Some && self.exclude_build is Some && self.exclude_target is None ==> (r matches Err(e) && is_missing_field(e, "exclude_target"@)),
            self.crate_name is Some && self.paths is Some && self.format is Some && self.exclude_dev is Some && self.exclude_build is Some && self.exclude_target is Some && self.max_cycles is None ==> (r matches Err(e) && is_missing_field(e, "max_cycles"@)),
            self.crate_name is Some && self.paths is Some && self.format is Some && self.exclude_dev is Some && self.exclude_build is Some && self.exclude_target is Some && self.max_cycles is Some && self.intra_workspace is None ==> (r matches Err(e) && is_missing_field(e, "intra_workspace"@)),
    {
        let crate_name = match self.crate_name {
            Some(v) => v,
            None => return Err(missing_field("crate_name")),
        };
        let paths = match self.paths {
            Some(v) => v,
            None => return Err(missing_field("paths")),
        };
        let format = match self.format {
            Some(v) => v,
            None => return Err(missing_field("format")),
        };
        let exclude_dev = match self.exclude_dev {
            Some(v) => v,
            None => return Err(missing_field("exclude_dev")),
        };
        let exclude_build = match self.exclude_build {
            Some(v) => v,
            None => return Err(missing_field("exclude_build")),
        };
        let exclude_target = match self.exclude_target {
            Some(v) => v,
            None => return Err(missing_field("exclude_target")),
        };
        let max_cycles = match self.max_cycles {
            Some(v) => v,
            None => return Err(missing_field("max_cycles")),
        };
        let intra_workspace = match self.intra_workspace {
            Some(v) => v,
            None => return Err(missing_field("intra_workspace")),
        };
        Ok(AnalyzeCrateConfig { crate_name, paths, format, exclude_dev, exclude_build, exclude_target, max_cycles, intra_workspace })
    }
}
} // verus!
