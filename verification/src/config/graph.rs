//! Configuration of the graph rendering.

use vstd::prelude::*;

use crate::cli::{GraphFormat, OutputFormat};
use crate::common::ConfigBuilder;
use crate::error::{is_missing_field, missing_field, FerrisWheelError};

verus! {

/// Configuration for rendering the dependency graph.
pub struct GraphOptions {
    pub paths: Vec<String>,
    pub format: GraphFormat,
    pub output: Option<String>,
    pub highlight_cycles: bool,
    pub show_crates: bool,
    pub exclude_dev: bool,
    pub exclude_build: bool,
    pub exclude_target: bool,
}

impl GraphOptions {
    pub fn builder() -> (r: GraphOptionsBuilder)
        ensures
            r.paths is None,
            r.format is None,
            r.output is None,
            r.highlight_cycles is None,
            r.show_crates is None,
            r.exclude_dev is None,
            r.exclude_build is None,
            r.exclude_target is None,
    {
        GraphOptionsBuilder::new()
    }
}

/// Builder of a `GraphOptions`.
pub struct GraphOptionsBuilder {
    pub paths: Option<Vec<String>>,
    pub format: Option<GraphFormat>,
    pub output: Option<Option<String>>,
    pub highlight_cycles: Option<bool>,
    pub show_crates: Option<bool>,
    pub exclude_dev: Option<bool>,
    pub exclude_build: Option<bool>,
    pub exclude_target: Option<bool>,
}

impl GraphOptionsBuilder {
    pub fn new() -> (r: Self)
        ensures
            r.paths is None,
            r.format is None,
            r.output is None,
            r.highlight_cycles is None,
            r.show_crates is None,
            r.exclude_dev is None,
            r.exclude_build is None,
            r.exclude_target is None,
    {
        GraphOptionsBuilder { paths: None, format: None, output: None, highlight_cycles: None, show_crates: None, exclude_dev: None, exclude_build: None, exclude_target: None }
    }

    pub fn with_paths(self, paths: Vec<String>) -> (r: Self)
        ensures
            r.paths == Some(paths),
            r.format == self.format,
            r.output == self.output,
            r.highlight_cycles == self.highlight_cycles,
            r.show_crates == self.show_crates,
            r.exclude_dev == self.exclude_dev,
            r.exclude_build == self.exclude_build,
            r.exclude_target == self.exclude_target,
    {
        GraphOptionsBuilder { paths: Some(paths), ..self }
    }

    pub fn with_format(self, format: GraphFormat) -> (r: Self)
        ensures
            r.format == Some(format),
            r.paths == self.paths,
            r.output == self.output,
            r.highlight_cycles == self.highlight_cycles,
            r.show_crates == self.show_crates,
            r.exclude_dev == self.exclude_dev,
            r.exclude_build == self.exclude_build,
            r.exclude_target == self.exclude_target,
    {
        GraphOptionsBuilder { format: Some(format), ..self }
    }

    pub fn with_output(self, output: Option<String>) -> (r: Self)
        ensures
            r.output == Some(output),
            r.paths == self.paths,
            r.format == self.format,
            r.highlight_cycles == self.highlight_cycles,
            r.show_crates == self.show_crates,
            r.exclude_dev == self.exclude_dev,
            r.exclude_build == self.exclude_build,
            r.exclude_target == self.exclude_target,
    {
        GraphOptionsBuilder { output: Some(output), ..self }
    }

    pub fn with_highlight_cycles(self, highlight_cycles: bool) -> (r: Self)
        ensures
            r.highlight_cycles == Some(highlight_cycles),
            r.paths == self.paths,
            r.format == self.format,
            r.output == self.output,
            r.show_crates == self.show_crates,
            r.exclude_dev == self.exclude_dev,
            r.exclude_build == self.exclude_build,
            r.exclude_target == self.exclude_target,
    {
        GraphOptionsBuilder { highlight_cycles: Some(highlight_cycles), ..self }
    }

    pub fn with_show_crates(self, show_crates: bool) -> (r: Self)
        ensures
            r.show_crates == Some(show_crates),
            r.paths == self.paths,
            r.format == self.format,
            r.output == self.output,
            r.highlight_cycles == self.highlight_cycles,
            r.exclude_dev == self.exclude_dev,
            r.exclude_build == self.exclude_build,
            r.exclude_target == self.exclude_target,
    {
        GraphOptionsBuilder { show_crates: Some(show_crates), ..self }
    }

    pub fn with_exclude_dev(self, exclude_dev: bool) -> (r: Self)
        ensures
            r.exclude_dev == Some(exclude_dev),
            r.paths == self.paths,
            r.format == self.format,
            r.output == self.output,
            r.highlight_cycles == self.highlight_cycles,
            r.show_crates == self.show_crates,
            r.exclude_build == self.exclude_build,
            r.exclude_target == self.exclude_target,
    {
        GraphOptionsBuilder { exclude_dev: Some(exclude_dev), ..self }
    }

    pub fn with_exclude_build(self, exclude_build: bool) -> (r: Self)
        ensures
            r.exclude_build == Some(exclude_build),
            r.paths == self.paths,
            r.format == self.format,
            r.output == self.output,
            r.highlight_cycles == self.highlight_cycles,
            r.show_crates == self.show_crates,
            r.exclude_dev == self.exclude_dev,
            r.exclude_target == self.exclude_target,
    {
        GraphOptionsBuilder { exclude_build: Some(exclude_build), ..self }
    }

    pub fn with_exclude_target(self, exclude_target: bool) -> (r: Self)
        ensures
            r.exclude_target == Some(exclude_target),
            r.paths == self.paths,
            r.format == self.format,
            r.output == self.output,
            r.highlight_cycles == self.highlight_cycles,
            r.show_crates == self.show_crates,
            r.exclude_dev == self.exclude_dev,
            r.exclude_build == self.exclude_build,
    {
        GraphOptionsBuilder { exclude_target: Some(exclude_target), ..self }
    }

}

impl Default for GraphOptionsBuilder {
    fn default() -> (r: Self)
        ensures
            r.paths is None,
            r.format is None,
            r.output is None,
            r.highlight_cycles is None,
            r.show_crates is None,
            r.exclude_dev is None,
            r.exclude_build is None,
            r.exclude_target is None,
    {
        Self::new()
    }
}

impl ConfigBuilder for GraphOptionsBuilder {
    type Config = GraphOptions;

    /// Every field is required; the first missing one is reported.
    fn build(self) -> (r: Result<GraphOptions, FerrisWheelError>)
        ensures
            (self.paths is Some && self.format is Some && self.output is Some && self.highlight_cycles is Some && self.show_crates is Some && self.exclude_dev is Some && self.exclude_build is Some && self.exclude_target is Some) <==> r is Ok,
            r matches Ok(c) ==> c.paths == self.paths.unwrap() && c.format == self.format.unwrap() && c.output == self.output.unwrap() && c.highlight_cycles == self.highlight_cycles.unwrap() && c.show_crates == self.show_crates.unwrap() && c.exclude_dev == self.exclude_dev.unwrap() && c.exclude_build == self.exclude_build.unwrap() && c.exclude_target == self.exclude_target.unwrap(),
            self.paths is None ==> (r matches Err(e) && is_missing_field(e, "paths"@)),
            self.paths is Some && self.format is None ==> (r matches Err(e) && is_missing_field(e, "format"@)),
            self.paths is Some && self.format is Some && self.output is None ==> (r matches Err(e) && is_missing_field(e, "output"@)),
            self.paths is Some && self.format is Some && self.output is Some && self.highlight_cycles is None ==> (r matches Err(e) && is_missing_field(e, "highlight_cycles"@)),
            self.paths is Some && self.format is Some && self.output is Some && self.highlight_cycles is Some && self.show_crates is None ==> (r matches Err(e) && is_missing_field(e, "show_crates"@)),
            self.paths is Some && self.format is Some && self.output is Some && self.highlight_cycles is Some && self.show_crates is Some && self.exclude_dev is None ==> (r matches Err(e) && is_missing_field(e, "exclude_dev"@)),
            self.paths is Some && self.format is Some && self.output is Some && self.highlight_cycles is Some && self.show_crates is Some && self.exclude_dev is Some && self.exclude_build is None ==> (r matches Err(e) && is_missing_field(e, "exclude_build"@)),
            self.paths is Some && self.format is Some && self.output is Some && self.highlight_cycles is Some && self.show_crates is Some && self.exclude_dev is Some && self.exclude_build is Some && self.exclude_target is None ==> (r matches Err(e) && is_missing_field(e, "exclude_target"@)),
    {
        let paths = match self.paths {
            Some(v) => v,
            None => return Err(missing_field("paths")),
        };
        let format = match self.format {
            Some(v) => v,
            None => return Err(missing_field("format")),
        };
        let output = match self.output {
            Some(v) => v,
            None => return Err(missing_field("output")),
        };
        let highlight_cycles = match self.highlight_cycles {
            Some(v) => v,
            None => return Err(missing_field("highlight_cycles")),
        };
        let show_crates = match self.show_crates {
            Some(v) => v,
            None => return Err(missing_field("show_crates")),
        };
        let exclude_dev = match self.exclude_dev {
            Some(v) => v,
            None => return Err(missing_field("exclude_dev")),
        };
        let exclude_build = match self.exclude_build {
            Some(v) => v,
            None => return Err(missing_field("exclude_build")),
        };
        let exclude_target = match self.exclude_target {
            Some(v) => v,
            None => return Err(missing_field("exclude_target")),
        };
        Ok(GraphOptions { paths, format, output, highlight_cycles, show_crates, exclude_dev, exclude_build, exclude_target })
    }
}
} // verus!
