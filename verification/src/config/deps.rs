//! Configuration of the workspace dependency listing.

use vstd::prelude::*;

use crate::cli::{GraphFormat, OutputFormat};
use crate::common::ConfigBuilder;
use crate::error::{is_missing_field, missing_field, FerrisWheelError};

verus! {

/// Configuration for listing workspace dependencies.
pub struct WorkspaceDepsConfig {
    pub workspace: Option<String>,
    pub reverse: bool,
    pub transitive: bool,
    pub paths: Vec<String>,
    pub format: OutputFormat,
    pub exclude_dev: bool,
    pub exclude_build: bool,
    pub exclude_target: bool,
}

impl WorkspaceDepsConfig {
    pub fn builder() -> (r: WorkspaceDepsConfigBuilder)
        ensures
            r.workspace is None,
            r.reverse is None,
            r.transitive is None,
            r.paths is None,
            r.format is None,
            r.exclude_dev is None,
            r.exclude_build is None,
            r.exclude_target is None,
    {
        WorkspaceDepsConfigBuilder::new()
    }
}

/// Builder of a `WorkspaceDepsConfig`.
pub struct WorkspaceDepsConfigBuilder {
    pub workspace: Option<Option<String>>,
    pub reverse: Option<bool>,
    pub transitive: Option<bool>,
    pub paths: Option<Vec<String>>,
    pub format: Option<OutputFormat>,
    pub exclude_dev: Option<bool>,
    pub exclude_build: Option<bool>,
    pub exclude_target: Option<bool>,
}

impl WorkspaceDepsConfigBuilder {
    pub fn new() -> (r: Self)
        ensures
            r.workspace is None,
            r.reverse is None,
            r.transitive is None,
            r.paths is None,
            r.format is None,
            r.exclude_dev is None,
            r.exclude_build is None,
            r.exclude_target is None,
    {
        WorkspaceDepsConfigBuilder { workspace: None, reverse: None, transitive: None, paths: None, format: None, exclude_dev: None, exclude_build: None, exclude_target: None }
    }

    pub fn with_workspace(self, workspace: Option<String>) -> (r: Self)
        ensures
            r.workspace == Some(workspace),
            r.reverse == self.reverse,
            r.transitive == self.transitive,
            r.paths == self.paths,
            r.format == self.format,
            r.exclude_dev == self.exclude_dev,
            r.exclude_build == self.exclude_build,
            r.exclude_target == self.exclude_target,
    {
        WorkspaceDepsConfigBuilder { workspace: Some(workspace), ..self }
    }

    pub fn with_reverse(self, reverse: bool) -> (r: Self)
        ensures
            r.reverse == Some(reverse),
            r.workspace == self.workspace,
            r.transitive == self.transitive,
            r.paths == self.paths,
            r.format == self.format,
            r.exclude_dev == self.exclude_dev,
            r.exclude_build == self.exclude_build,
            r.exclude_target == self.exclude_target,
    {
        WorkspaceDepsConfigBuilder { reverse: Some(reverse), ..self }
    }

    pub fn with_transitive(self, transitive: bool) -> (r: Self)
        ensures
            r.transitive == Some(transitive),
            r.workspace == self.workspace,
            r.reverse == self.reverse,
            r.paths == self.paths,
            r.format == self.format,
            r.exclude_dev == self.exclude_dev,
            r.exclude_build == self.exclude_build,
            r.exclude_target == self.exclude_target,
    {
        WorkspaceDepsConfigBuilder { transitive: Some(transitive), ..self }
    }

    pub fn with_paths(self, paths: Vec<String>) -> (r: Self)
        ensures
            r.paths == Some(paths),
            r.workspace == self.workspace,
            r.reverse == self.reverse,
            r.transitive == self.transitive,
            r.format == self.format,
            r.exclude_dev == self.exclude_dev,
            r.exclude_build == self.exclude_build,
            r.exclude_target == self.exclude_target,
    {
        WorkspaceDepsConfigBuilder { paths: Some(paths), ..self }
    }

    pub fn with_format(self, format: OutputFormat) -> (r: Self)
        ensures
            r.format == Some(format),
            r.workspace == self.workspace,
            r.reverse == self.reverse,
            r.transitive == self.transitive,
            r.paths == self.paths,
            r.exclude_dev == self.exclude_dev,
            r.exclude_build == self.exclude_build,
            r.exclude_target == self.exclude_target,
    {
        WorkspaceDepsConfigBuilder { format: Some(format), ..self }
    }

    pub fn with_exclude_dev(self, exclude_dev: bool) -> (r: Self)
        ensures
            r.exclude_dev == Some(exclude_dev),
            r.workspace == self.workspace,
            r.reverse == self.reverse,
            r.transitive == self.transitive,
            r.paths == self.paths,
            r.format == self.format,
            r.exclude_build == self.exclude_build,
            r.exclude_target == self.exclude_target,
    {
        WorkspaceDepsConfigBuilder { exclude_dev: Some(exclude_dev), ..self }
    }

    pub fn with_exclude_build(self, exclude_build: bool) -> (r: Self)
        ensures
            r.exclude_build == Some(exclude_build),
            r.workspace == self.workspace,
            r.reverse == self.reverse,
            r.transitive == self.transitive,
            r.paths == self.paths,
            r.format == self.format,
            r.exclude_dev == self.exclude_dev,
            r.exclude_target == self.exclude_target,
    {
        WorkspaceDepsConfigBuilder { exclude_build: Some(exclude_build), ..self }
    }

    pub fn with_exclude_target(self, exclude_target: bool) -> (r: Self)
        ensures
            r.exclude_target == Some(exclude_target),
            r.workspace == self.workspace,
            r.reverse == self.reverse,
            r.transitive == self.transitive,
            r.paths == self.paths,
            r.format == self.format,
            r.exclude_dev == self.exclude_dev,
            r.exclude_build == self.exclude_build,
    {
        WorkspaceDepsConfigBuilder { exclude_target: Some(exclude_target), ..self }
    }

}

impl Default for WorkspaceDepsConfigBuilder {
    fn default() -> (r: Self)
        ensures
            r.workspace is None,
            r.reverse is None,
            r.transitive is None,
            r.paths is None,
            r.format is None,
            r.exclude_dev is None,
            r.exclude_build is None,
            r.exclude_target is None,
    {
        Self::new()
    }
}

impl ConfigBuilder for WorkspaceDepsConfigBuilder {
    type Config = WorkspaceDepsConfig;

    /// Every field is required; the first missing one is reported.
    fn build(self) -> (r: Result<WorkspaceDepsConfig, FerrisWheelError>)
        ensures
            (self.workspace is Some && self.reverse is Some && self.transitive is Some && self.paths is Some && self.format is Some && self.exclude_dev is Some && self.exclude_build is Some && self.exclude_target is Some) <==> r is Ok,
            r matches Ok(c) ==> c.workspace == self.workspace.unwrap() && c.reverse == self.reverse.unwrap() && c.transitive == self.transitive.unwrap() && c.paths == self.paths.unwrap() && c.format == self.format.unwrap() && c.exclude_dev == self.exclude_dev.unwrap() && c.exclude_build == self.exclude_build.unwrap() && c.exclude_target == self.exclude_target.unwrap(),
            self.workspace is None ==> (r matches Err(e) && is_missing_field(e, "workspace"@)),
            self.workspace is Some && self.reverse is None ==> (r matches Err(e) && is_missing_field(e, "reverse"@)),
            self.workspace is Some && self.reverse is Some && self.transitive is None ==> (r matches Err(e) && is_missing_field(e, "transitive"@)),
            self.workspace is Some && self.reverse is Some && self.transitive is Some && self.paths is None ==> (r matches Err(e) && is_missing_field(e, "paths"@)),
            self.workspace is Some && self.reverse is Some && self.transitive is Some && self.paths is Some && self.format is None ==> (r matches Err(e) && is_missing_field(e, "format"@)),
            self.workspace is Some && self.reverse is Some && self.transitive is Some && self.paths is Some && self.format is Some && self.exclude_dev is None ==> (r matches Err(e) && is_missing_field(e, "exclude_dev"@)),
            self.workspace is Some && self.reverse is Some && self.transitive is Some && self.paths is Some && self.format is Some && self.exclude_dev is Some && self.exclude_build is None ==> (r matches Err(e) && is_missing_field(e, "exclude_build"@)),
            self.workspace is Some && self.reverse is Some && self.transitive is Some && self.paths is Some && self.format is Some && self.exclude_dev is Some && self.exclude_build is Some && self.exclude_target is None ==> (r matches Err(e) && is_missing_field(e, "exclude_target"@)),
    {
        let workspace = match self.workspace {
            Some(v) => v,
            None => return Err(missing_field("workspace")),
        };
        let reverse = match self.reverse {
            Some(v) => v,
            None => return Err(missing_field("reverse")),
        };
        let transitive = match self.transitive {
            Some(v) => v,
            None => return Err(missing_field("transitive")),
        };
        let paths = match self.paths {
            Some(v) => v,
            None => return Err(missing_field("paths")),
        };
        let format = match self.format {
            Some(v) => v,
            None => return Err(missing_field("format")),
        };
        let exclude_dev = match self.exclude_dev {
            Some(v) => v,
            None => return Err(missing_field("exclude_dev")),
        };
        let exclude_build = match self.exclude_build {
            Some(v) => v,
            None => return Err(missing_field("exclude_build")),
        };
        let exclude_target = match self.exclude_target {
            Some(v) => v,
            None => return Err(missing_field("exclude_target")),
        };
        Ok(WorkspaceDepsConfig { workspace, reverse, transitive, paths, format, exclude_dev, exclude_build, exclude_target })
    }
}
} // verus!
