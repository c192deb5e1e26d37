//! The library's error type. Each variant carries what its message needs;
//! `to_string`, `code` and `help` give the texts that are shown to a user.

use vstd::prelude::*;

use crate::text::{push_str, to_owned};

verus! {

/// Errors that the library reports.
#[derive(Debug, Clone, PartialEq, Eq)]
pub enum FerrisWheelError {
    /// A file could not be read.
    FileReadError { path: String, message: String },
    /// A manifest is not valid TOML.
    TomlParseError { file: String, message: String },
    /// JSON could not be produced.
    Json { message: String },
    /// A string could not be formatted.
    Fmt,
    /// Input or output failed.
    Io { message: String },
    /// A configuration is incomplete or invalid.
    ConfigurationError { message: String },
    /// The dependency graph is inconsistent.
    GraphError { message: String },
}

/// The message of an error, as shown to a user.
pub open spec fn error_text(e: FerrisWheelError) -> Seq<char> {
    match e {
        FerrisWheelError::FileReadError { path, .. } => "Failed to read file '"@ + path@ + "'"@,
        FerrisWheelError::TomlParseError { file, .. } => "Invalid TOML syntax in '"@ + file@ + "'"@,
        FerrisWheelError::Json { .. } => "JSON serialization error"@,
        FerrisWheelError::Fmt => "String formatting error"@,
        FerrisWheelError::Io { .. } => "IO error"@,
        FerrisWheelError::ConfigurationError { message } => "Configuration error: "@ + message@,
        FerrisWheelError::GraphError { message } => "Graph error: "@ + message@,
    }
}

/// The diagnostic code of an error.
pub open spec fn error_code(e: FerrisWheelError) -> Seq<char> {
    match e {
        FerrisWheelError::FileReadError { .. } => "ferris_wheel::io_error"@,
        FerrisWheelError::TomlParseError { .. } => "ferris_wheel::toml_parse_error"@,
        FerrisWheelError::Json { .. } => "ferris_wheel::json_error"@,
        FerrisWheelError::Fmt => "ferris_wheel::fmt_error"@,
        FerrisWheelError::Io { .. } => "ferris_wheel::io_error"@,
        FerrisWheelError::ConfigurationError { .. } => "ferris_wheel::config_error"@,
        FerrisWheelError::GraphError { .. } => "ferris_wheel::graph_error"@,
    }
}

/// The advice shown with an error.
pub open spec fn error_help(e: FerrisWheelError) -> Seq<char> {
    match e {
        FerrisWheelError::FileReadError { .. } => "Check if the file exists and you have read permissions"@,
        FerrisWheelError::TomlParseError { .. } => "Check the TOML syntax near the highlighted position"@,
        FerrisWheelError::Json { .. } => "This is likely an internal error - please report it"@,
        FerrisWheelError::Fmt => "This is likely an internal error - please report it"@,
        FerrisWheelError::Io { .. } => "Check file permissions and disk space"@,
        FerrisWheelError::ConfigurationError { .. } => "Check your command arguments and configuration"@,
        FerrisWheelError::GraphError { .. } => "This may be an internal error with graph processing"@,
    }
}

/// `e` is a configuration error with the message `msg`.
pub open spec fn is_config_error(e: FerrisWheelError, msg: Seq<char>) -> bool {
    e matches FerrisWheelError::ConfigurationError { message } && message@ == msg
}

/// `e` is the configuration error of a builder that lacks the field `field`.
pub open spec fn is_missing_field(e: FerrisWheelError, field: Seq<char>) -> bool {
    is_config_error(e, "Missing required field: "@ + field)
}

/// The configuration error of a builder that lacks the field `field`.
pub fn missing_field(field: &str) -> (r: FerrisWheelError)
    ensures
        is_missing_field(r, field@),
{
    let mut s = to_owned("Missing required field: ");
    push_str(&mut s, field);
    FerrisWheelError::ConfigurationError { message: s }
}

impl FerrisWheelError {
    /// A configuration error with the given message.
    pub fn configuration(message: &str) -> (r: FerrisWheelError)
        ensures
            r matches FerrisWheelError::ConfigurationError { message: m } && m@ == message@,
    {
        FerrisWheelError::ConfigurationError { message: to_owned(message) }
    }

    /// The message of the error.
    pub fn to_string(&self) -> (r: String)
        ensures
            r@ == error_text(*self),
    {
        match self {
            FerrisWheelError::FileReadError { path, .. } => {
                let mut s = to_owned("Failed to read file '");
                push_str(&mut s, path.as_str());
                push_str(&mut s, "'");
                s
            },
            FerrisWheelError::TomlParseError { file, .. } => {
                let mut s = to_owned("Invalid TOML syntax in '");
                push_str(&mut s, file.as_str());
                push_str(&mut s, "'");
                s
            },
            FerrisWheelError::Json { .. } => to_owned("JSON serialization error"),
            FerrisWheelError::Fmt => to_owned("String formatting error"),
            FerrisWheelError::Io { .. } => to_owned("IO error"),
            FerrisWheelError::ConfigurationError { message } => {
                let mut s = to_owned("Configuration error: ");
                push_str(&mut s, message.as_str());
                s
            },
            FerrisWheelError::GraphError { message } => {
                let mut s = to_owned("Graph error: ");
                push_str(&mut s, message.as_str());
                s
            },
        }
    }

    /// The diagnostic code of the error.
    pub fn code(&self) -> (r: String)
        ensures
            r@ == error_code(*self),
    {
        match self {
            FerrisWheelError::FileReadError { .. } => to_owned("ferris_wheel::io_error"),
            FerrisWheelError::TomlParseError { .. } => to_owned("ferris_wheel::toml_parse_error"),
            FerrisWheelError::Json { .. } => to_owned("ferris_wheel::json_error"),
            FerrisWheelError::Fmt => to_owned("ferris_wheel::fmt_error"),
            FerrisWheelError::Io { .. } => to_owned("ferris_wheel::io_error"),
            FerrisWheelError::ConfigurationError { .. } => to_owned("ferris_wheel::config_error"),
            FerrisWheelError::GraphError { .. } => to_owned("ferris_wheel::graph_error"),
        }
    }

    /// The advice shown with the error.
    pub fn help(&self) -> (r: String)
        ensures
            r@ == error_help(*self),
    {
        match self {
            FerrisWheelError::FileReadError { .. } => to_owned("Check if the file exists and you have read permissions"),
            FerrisWheelError::TomlParseError { .. } => to_owned("Check the TOML syntax near the highlighted position"),
            FerrisWheelError::Json { .. } => to_owned("This is likely an internal error - please report it"),
            FerrisWheelError::Fmt => to_owned("This is likely an internal error - please report it"),
            FerrisWheelError::Io { .. } => to_owned("Check file permissions and disk space"),
            FerrisWheelError::ConfigurationError { .. } => to_owned("Check your command arguments and configuration"),
            FerrisWheelError::GraphError { .. } => to_owned("This may be an internal error with graph processing"),
        }
    }
}

} // verus!
