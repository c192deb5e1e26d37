//! The commands and options of the `cargo ferris-wheel` command line, as
//! plain values; parsing the command line itself is left to the program.

use vstd::prelude::*;

use crate::common::{CommonArgs, CycleDisplayArgs, FormatArgs};

verus! {

/// The `cargo` entry point: `cargo ferris-wheel ...`.
pub struct CargoArgs {
    pub command: CargoCommand,
}

/// The cargo subcommand.
pub enum CargoCommand {
    FerrisWheel(Cli),
}

/// The ferris-wheel command line.
pub struct Cli {
    pub command: Commands,
}

/// The ferris-wheel subcommands.
pub enum Commands {
    /// Detect dependency cycles between (or within) workspaces.
    Inspect {
        common: CommonArgs,
        format: FormatArgs,
        cycle_display: CycleDisplayArgs,
        error_on_cycles: bool,
        intra_workspace: bool,
    },
    /// Draw the workspace dependency graph.
    Spectacle {
        common: CommonArgs,
        format: GraphFormat,
        output: Option<String>,
        highlight_cycles: bool,
        show_crates: bool,
    },
    /// Show the cycles that involve one crate.
    Spotlight {
        crate_name: String,
        common: CommonArgs,
        format: FormatArgs,
        cycle_display: CycleDisplayArgs,
        intra_workspace: bool,
    },
    /// Show the dependencies between workspaces.
    Lineup {
        workspace: Option<String>,
        reverse: bool,
        transitive: bool,
        common: CommonArgs,
        format: FormatArgs,
    },
    /// Find the workspaces and crates affected by changed files.
    Ripples {
        files: Vec<String>,
        show_crates: bool,
        direct_only: bool,
        exclude_dev: bool,
        exclude_build: bool,
        exclude_target: bool,
        format: FormatArgs,
    },
}

/// Output format of the reports.
#[derive(Clone, Copy, Debug, PartialEq, Eq, Structural)]
pub enum OutputFormat {
    Human,
    Json,
    Junit,
    GitHub,
}

/// Output format of the dependency graph.
#[derive(Clone, Copy, Debug, PartialEq, Eq, Structural)]
pub enum GraphFormat {
    Ascii,
    Mermaid,
    Dot,
    D2,
}

} // verus!
