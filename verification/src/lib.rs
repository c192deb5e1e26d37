pub mod analyzer;
pub mod assoc;
pub mod cli;
pub mod commands;
pub mod common;
pub mod config;
pub mod model;
pub mod dependency_filter;
pub mod constants;
pub mod error;
pub mod executors;
pub mod graph;
pub mod text;
pub mod toml_parser;
pub mod utils;
pub mod workspace_discovery;
pub mod json_text;
pub mod detector;
pub mod paths;
pub mod reports;
