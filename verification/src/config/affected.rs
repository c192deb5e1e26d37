//! Configuration of the affected-files analysis.

use vstd::prelude::*;

use crate::cli::OutputFormat;
use crate::error::{is_config_error, FerrisWheelError};
use crate::text::to_owned;

verus! {

/// Configuration for finding what changed files affect.
pub struct AffectedConfig {
    /// The changed files.
    pub files: Vec<String>,
    /// Whether to list affected crates as well as workspaces.
    pub show_crates: bool,
    /// Whether to stop at the crates that directly depend on the changes.
    pub direct_only: bool,
    pub paths: Vec<String>,
    pub format: OutputFormat,
    pub exclude_dev: bool,
    pub exclude_build: bool,
    pub exclude_target: bool,
}

impl AffectedConfig {
    pub fn builder() -> (r: AffectedConfigBuilder)
        ensures
            r.files@.len() == 0,
            !r.show_crates && !r.direct_only,
            r.paths@.len() == 0,
            r.format == OutputFormat::Human,
            !r.exclude_dev && !r.exclude_build && !r.exclude_target,
    {
        AffectedConfigBuilder::default()
    }
}

/// Builder of an `AffectedConfig`; at least one file is required.
pub struct AffectedConfigBuilder {
    pub files: Vec<String>,
    pub show_crates: bool,
    pub direct_only: bool,
    pub paths: Vec<String>,
    pub format: OutputFormat,
    pub exclude_dev: bool,
    pub exclude_build: bool,
    pub exclude_target: bool,
}

impl Default for AffectedConfigBuilder {
    fn default() -> (r: Self)
        ensures
            r.files@.len() == 0,
            !r.show_crates && !r.direct_only,
            r.paths@.len() == 0,
            r.format == OutputFormat::Human,
            !r.exclude_dev && !r.exclude_build && !r.exclude_target,
    {
        AffectedConfigBuilder {
            files: Vec::new(),
            show_crates: false,
            direct_only: false,
            paths: Vec::new(),
            format: OutputFormat::Human,
            exclude_dev: false,
            exclude_build: false,
            exclude_target: false,
        }
    }
}

impl AffectedConfigBuilder {
    pub fn with_files(self, files: Vec<String>) -> (r: Self)
        ensures
            r == (Self { files, ..self }),
    {
        Self { files, ..self }
    }

    pub fn with_show_crates(self, show: bool) -> (r: Self)
        ensures
            r == (Self { show_crates: show, ..self }),
    {
        Self { show_crates: show, ..self }
    }

    pub fn with_direct_only(self, direct: bool) -> (r: Self)
        ensures
            r == (Self { direct_only: direct, ..self }),
    {
        Self { direct_only: direct, ..self }
    }

    pub fn with_paths(self, paths: Vec<String>) -> (r: Self)
        ensures
            r == (Self { paths, ..self }),
    {
        Self { paths, ..self }
    }

    pub fn with_format(self, format: OutputFormat) -> (r: Self)
        ensures
            r == (Self { format, ..self }),
    {
        Self { format, ..self }
    }

    pub fn with_exclude_dev(self, exclude: bool) -> (r: Self)
        ensures
            r == (Self { exclude_dev: exclude, ..self }),
    {
        Self { exclude_dev: exclude, ..self }
    }

    pub fn with_exclude_build(self, exclude: bool) -> (r: Self)
        ensures
            r == (Self { exclude_build: exclude, ..self }),
    {
        Self { exclude_build: exclude, ..self }
    }

    pub fn with_exclude_target(self, exclude: bool) -> (r: Self)
        ensures
            r == (Self { exclude_target: exclude, ..self }),
    {
        Self { exclude_target: exclude, ..self }
    }

    /// Fails when no file was given.
    pub fn build(self) -> (r: Result<AffectedConfig, FerrisWheelError>)
        ensures
            (self.files@.len() > 0) <==> r is Ok,
            r matches Ok(c) ==> c.files == self.files && c.show_crates == self.show_crates
                && c.direct_only == self.direct_only && c.paths == self.paths && c.format == self.format
                && c.exclude_dev == self.exclude_dev && c.exclude_build == self.exclude_build
                && c.exclude_target == self.exclude_target,
            r matches Err(e) ==> is_config_error(e, "No files specified for affected analysis"@),
    {
        if self.files.len() == 0 {
            return Err(FerrisWheelError::ConfigurationError {
                message: to_owned("No files specified for affected analysis"),
            });
        }
        Ok(AffectedConfig {
            files: self.files,
            show_crates: self.show_crates,
            direct_only: self.direct_only,
            paths: self.paths,
            format: self.format,
            exclude_dev: self.exclude_dev,
            exclude_build: self.exclude_build,
            exclude_target: self.exclude_target,
        })
    }
}

} // verus!
