//! Turning the `spectacle` command into its configuration.

use vstd::prelude::*;

use crate::cli::Commands;
use crate::common::{paths_or_current, ConfigBuilder, FromCommand};
use crate::config::GraphOptions;
use crate::error::{is_config_error, FerrisWheelError};
use crate::text::{opt_view, to_owned, views};

verus! {

impl FromCommand for GraphOptions {
    /// Builds the configuration from the `spectacle` command; any other command
    /// is refused.
    fn from_command(command: Commands, current_dir: Option<String>) -> (r: Result<Self, FerrisWheelError>)
        ensures
            command matches Commands::Spectacle { common, format, output, highlight_cycles, show_crates }
                ==> (r matches Ok(c) && views(c.paths@) == paths_or_current(views(common.paths@), opt_view(current_dir))
                    && c.format == format && c.output == output && c.highlight_cycles == highlight_cycles
                    && c.show_crates == show_crates
                    && c.exclude_dev == common.exclude_dev && c.exclude_build == common.exclude_build
                    && c.exclude_target == common.exclude_target),
            !(command is Spectacle) ==> (r matches Err(e) && is_config_error(e, "Invalid command type for GraphOptions"@)),
    {
        match command {
            Commands::Spectacle { common, format, output, highlight_cycles, show_crates } => {
            let paths = common.get_paths(current_dir);
            GraphOptions::builder()
                .with_paths(paths)
                .with_format(format)
                .with_output(output)
                .with_highlight_cycles(highlight_cycles)
                .with_show_crates(show_crates)
                .with_exclude_dev(common.exclude_dev)
                .with_exclude_build(common.exclude_build)
                .with_exclude_target(common.exclude_target)
                .build()
            },
            _ => Err(FerrisWheelError::ConfigurationError {
                message: to_owned("Invalid command type for GraphOptions"),
            }),
        }
    }
}

} // verus!
