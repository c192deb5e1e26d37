use ferris_wheel::common::CommonArgs;
use ferris_wheel::error::FerrisWheelError;

#[test]
fn test_toml_parse_error_display() {
    let source_code = "invalid = toml content";
    let toml_err = toml::from_str::<toml::Value>(source_code).unwrap_err();

    let error = FerrisWheelError::TomlParseError {
        file: "test.toml".to_string(),
        message: toml_err.to_string(),
    };

    let error_str = error.to_string();
    assert_eq!(error_str, "Invalid TOML syntax in 'test.toml'");
}

#[test]
fn test_file_read_error() {
    let io_err = std::io::Error::new(std::io::ErrorKind::NotFound, "file not found");
    let error = FerrisWheelError::FileReadError {
        path: "/tmp/missing.toml".to_string(),
        message: io_err.to_string(),
    };

    let error_str = error.to_string();
    assert_eq!(error_str, "Failed to read file '/tmp/missing.toml'");
}

#[test]
fn test_configuration_error() {
    let error = FerrisWheelError::ConfigurationError {
        message: "Invalid configuration value".to_string(),
    };

    let error_str = error.to_string();
    assert_eq!(
        error_str,
        "Configuration error: Invalid configuration value"
    );
}

#[test]
fn test_graph_error() {
    let error = FerrisWheelError::GraphError {
        message: "Cycle detected in graph".to_string(),
    };

    let error_str = error.to_string();
    assert_eq!(error_str, "Graph error: Cycle detected in graph");
}

#[test]
fn test_error_codes() {
    // Test that all error variants have proper diagnostic codes
    let io_err = std::io::Error::new(std::io::ErrorKind::PermissionDenied, "access denied");
    let file_err = FerrisWheelError::FileReadError {
        path: "test.txt".to_string(),
        message: io_err.to_string(),
    };

    // Verify the error has diagnostic information
    assert!(!file_err.code().is_empty());
    assert!(!file_err.help().is_empty());
}

#[test]
fn test_common_args_get_paths_empty() {
    let args = CommonArgs {
        paths: vec![],
        exclude_dev: false,
        exclude_build: false,
        exclude_target: false,
    };

    let paths = args.get_paths(None);
    assert_eq!(paths.len(), 1);
    // Should default to current directory
    assert!(std::path::Path::new(&paths[0]).is_absolute() || paths[0] == ".");
}

#[test]
fn test_common_args_get_paths_with_values() {
    let test_paths = vec!["/tmp/test1".to_string(), "/tmp/test2".to_string()];

    let args = CommonArgs {
        paths: test_paths.clone(),
        exclude_dev: false,
        exclude_build: false,
        exclude_target: false,
    };

    let paths = args.get_paths(None);
    assert_eq!(paths, test_paths);
}
