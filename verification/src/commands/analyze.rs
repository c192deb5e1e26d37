//! Turning the `spotlight` command into its configuration.

use vstd::prelude::*;

use crate::cli::Commands;
use crate::common::{paths_or_current, ConfigBuilder, FromCommand};
use crate::config::AnalyzeCrateConfig;
use crate::error::{is_config_error, FerrisWheelError};
use crate::text::{opt_view, to_owned, views};

verus! {

impl FromCommand for AnalyzeCrateConfig {
    /// Builds the configuration from the `spotlight` command; any other command
    /// is refused.
    fn from_command(command: Commands, current_dir: Option<String>) -> (r: Result<Self, FerrisWheelError>)
        ensures
            command matches Commands::Spotlight { crate_name, common, format, cycle_display, intra_workspace }
                ==> (r matches Ok(c) && c.crate_name == crate_name
                    && views(c.paths@) == paths_or_current(views(common.paths@), opt_view(current_dir))
                    && c.format == format.format
                    && c.exclude_dev == common.exclude_dev && c.exclude_build == common.exclude_build
                    && c.exclude_target == common.exclude_target && c.max_cycles == cycle_display.max_cycles
                    && c.intra_workspace == intra_workspace),
            !(command is Spotlight) ==> (r matches Err(e) && is_config_error(e, "Invalid command type for AnalyzeCrateConfig"@)),
    {
        match command {
            Commands::Spotlight { crate_name, common, format, cycle_display, intra_workspace } => {
            let paths = common.get_paths(current_dir);
            AnalyzeCrateConfig::builder()
                .with_crate_name(crate_name)
                .with_paths(paths)
                .with_format(format.format)
                .with_exclude_dev(common.exclude_dev)
                .with_exclude_build(common.exclude_build)
                .with_exclude_target(common.exclude_target)
                .with_max_cycles(cycle_display.max_cycles)
                .with_intra_workspace(intra_workspace)
                .build()
            },
            _ => Err(FerrisWheelError::ConfigurationError {
                message: to_owned("Invalid command type for AnalyzeCrateConfig"),
            }),
        }
    }
}

} // verus!
