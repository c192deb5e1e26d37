use ferris_wheel::analyzer::analyzer_impl::Dependency;
use ferris_wheel::analyzer::dependency_classifier::DependencyClassifier;
use ferris_wheel::toml_parser::DependencyType as TomlDependencyType;


#[test]
fn test_empty_classifier() {
    let classifier = DependencyClassifier::new();
    assert!(classifier.dependencies.is_empty());
    assert!(classifier.dev_dependencies.is_empty());
    assert!(classifier.build_dependencies.is_empty());
    assert!(classifier.target_dependencies.is_empty());
}

#[test]
fn test_create_dependency_normal() {
    let dep =
        DependencyClassifier::create_dependency("test-crate", &TomlDependencyType::Normal)
            .expect("Failed to create dependency");
    assert_eq!(dep.name(), "test-crate");
    assert!(dep.target().is_none());
}

#[test]
fn test_create_dependency_with_target() {
    let dep = DependencyClassifier::create_dependency(
        "test-crate",
        &TomlDependencyType::Target("wasm32-unknown-unknown".to_string()),
    )
    .expect("Failed to create dependency");
    assert_eq!(dep.name(), "test-crate");
    assert_eq!(dep.target(), Some("wasm32-unknown-unknown"));
}

#[test]
fn test_add_dependencies() {
    let mut classifier = DependencyClassifier::new();

    // Add normal dependency
    let normal_dep = Dependency::builder()
        .with_name("normal-dep")
        .build()
        .expect("Failed to create dependency");
    classifier.add_dependency(normal_dep, TomlDependencyType::Normal);
    assert_eq!(classifier.dependencies.len(), 1);

    // Add dev dependency
    let dev_dep = Dependency::builder()
        .with_name("dev-dep")
        .build()
        .expect("Failed to create dependency");
    classifier.add_dependency(dev_dep, TomlDependencyType::Dev);
    assert_eq!(classifier.dev_dependencies.len(), 1);

    // Add build dependency
    let build_dep = Dependency::builder()
        .with_name("build-dep")
        .build()
        .expect("Failed to create dependency");
    classifier.add_dependency(build_dep, TomlDependencyType::Build);
    assert_eq!(classifier.build_dependencies.len(), 1);

    // Add target dependency
    let target_dep = Dependency::builder()
        .with_name("target-dep")
        .with_target("wasm32-unknown-unknown")
        .build()
        .expect("Failed to create dependency");
    classifier.add_dependency(
        target_dep,
        TomlDependencyType::Target("wasm32-unknown-unknown".to_string()),
    );
    assert_eq!(classifier.target_dependencies.len(), 1);
    assert_eq!(
        classifier.target_dependencies.iter().find(|(t, _)| t == "wasm32-unknown-unknown").unwrap().1.len(),
        1
    );
}


#[test]
fn classifier_lists_change_in_place() {
    let dep = |name: &str| Dependency::builder().with_name(name).build().unwrap();
    let mut classifier = DependencyClassifier::new();
    classifier.dependencies_mut().push(dep("normal"));
    classifier.dev_dependencies_mut().push(dep("dev"));
    classifier.build_dependencies_mut().push(dep("build"));
    classifier.target_dependencies_mut().push(("cfg(unix)".to_string(), vec![dep("unix")]));

    assert_eq!(classifier.dependencies().len(), 1);
    assert_eq!(classifier.dependencies()[0].name(), "normal");
    assert_eq!(classifier.dev_dependencies()[0].name(), "dev");
    assert_eq!(classifier.build_dependencies()[0].name(), "build");
    assert_eq!(classifier.target_dependencies()[0].0, "cfg(unix)");
    assert_eq!(classifier.target_dependencies()[0].1[0].name(), "unix");
}
