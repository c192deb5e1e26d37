//! Turning the `ripples` command into its configuration.

use vstd::prelude::*;

use crate::cli::Commands;
use crate::common::FromCommand;
use crate::config::AffectedConfig;
use crate::error::{is_config_error, FerrisWheelError};
use crate::text::{opt_view, to_owned, views};

verus! {

impl FromCommand for AffectedConfig {
    /// Builds the configuration from the `ripples` command, searching the
    /// current directory (`.` when it is unknown); any other command is
    /// refused, and so is a command without files.
    fn from_command(command: Commands, current_dir: Option<String>) -> (r: Result<Self, FerrisWheelError>)
        ensures
            command matches Commands::Ripples { files, show_crates, direct_only, exclude_dev, exclude_build, exclude_target, format }
                ==> (files@.len() > 0 <==> r is Ok) && (r matches Ok(c) ==> c.files == files
                    && views(c.paths@) == seq![match opt_view(current_dir) { Some(d) => d, None => "."@ }]
                    && c.show_crates == show_crates && c.direct_only == direct_only && c.format == format.format
                    && c.exclude_dev == exclude_dev && c.exclude_build == exclude_build
                    && c.exclude_target == exclude_target)
                    && (r matches Err(e) ==> is_config_error(e, "No files specified for affected analysis"@)),
            !(command is Ripples) ==> (r matches Err(e) && is_config_error(e, "Invalid command type for AffectedConfig"@)),
    {
        match command {
            Commands::Ripples { files, show_crates, direct_only, exclude_dev, exclude_build, exclude_target, format } => {
                let dir = match current_dir {
                    Some(d) => d,
                    None => to_owned("."),
                };
                let mut paths: Vec<String> = Vec::new();
                paths.push(dir);
                assert(views(paths@) =~= seq![paths@[0]@]);
                AffectedConfig::builder()
                    .with_files(files)
                    .with_show_crates(show_crates)
                    .with_direct_only(direct_only)
                    .with_paths(paths)
                    .with_format(format.format)
                    .with_exclude_dev(exclude_dev)
                    .with_exclude_build(exclude_build)
                    .with_exclude_target(exclude_target)
                    .build()
            },
            _ => Err(FerrisWheelError::ConfigurationError {
                message: to_owned("Invalid command type for AffectedConfig"),
            }),
        }
    }
}

} // verus!
