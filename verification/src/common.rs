//! Functionality shared across commands: the arguments every command takes,
//! the builder trait of the configurations, and turning a command into its
//! configuration.

use vstd::prelude::*;

use crate::cli::{Commands, OutputFormat};
use crate::error::FerrisWheelError;
use crate::text::{dup_all, opt_view, to_owned, views};

verus! {

/// Arguments shared by the analysis commands.
#[derive(Debug)]
pub struct CommonArgs {
    /// Paths to search for workspaces (the current directory when empty).
    pub paths: Vec<String>,
    pub exclude_dev: bool,
    pub exclude_build: bool,
    pub exclude_target: bool,
}

/// The output format argument.
#[derive(Debug, Clone, Copy)]
pub struct FormatArgs {
    pub format: OutputFormat,
}

/// The cycle display argument.
#[derive(Debug, Clone, Copy)]
pub struct CycleDisplayArgs {
    pub max_cycles: Option<usize>,
}

/// The paths to analyse: the given ones, or else the current directory, or
/// `.` when it is unknown.
pub open spec fn paths_or_current(paths: Seq<Seq<char>>, current_dir: Option<Seq<char>>) -> Seq<Seq<char>> {
    if paths.len() == 0 {
        seq![match current_dir { Some(d) => d, None => "."@ }]
    } else {
        paths
    }
}

impl CommonArgs {
    /// The paths to analyse; `current_dir` is the current directory, when
    /// it could be read.
    pub fn get_paths(&self, current_dir: Option<String>) -> (r: Vec<String>)
        ensures
            views(r@) == paths_or_current(views(self.paths@), opt_view(current_dir)),
    {
        if self.paths.len() == 0 {
            let d = match current_dir {
                Some(d) => d,
                None => to_owned("."),
            };
            let mut r: Vec<String> = Vec::new();
            r.push(d);
            assert(views(r@) =~= seq![r@[0]@]);
            r
        } else {
            dup_all(self.paths.as_slice())
        }
    }
}

/// Generic builder trait for configuration objects.
pub trait ConfigBuilder: Sized {
    type Config;

    /// Build the configuration, returning an error if validation fails.
    fn build(self) -> Result<Self::Config, FerrisWheelError>;
}

/// Turning a command into a configuration; `current_dir` stands for the
/// current directory when no path was given.
pub trait FromCommand: Sized {
    fn from_command(command: Commands, current_dir: Option<String>) -> Result<Self, FerrisWheelError>;
}

} // verus!
