use reforge::config::RegexManagerConfig;
use reforge::manager::regex::file_matches_pattern;
use reforge::manager::regex::RegexManager;
use reforge::manager::PackageManager;
use reforge::manager::RegistrySource;
use reforge::manager::UpdateContext;

fn make_config(
    datasource: &str,
    pattern: &str,
    registry_url: Option<&str>,
) -> RegexManagerConfig {
    RegexManagerConfig {
        name: "test".to_string(),
        file_patterns: vec!["*.yaml".to_string()],
        match_pattern: pattern.to_string(),
        datasource: datasource.to_string(),
        registry_url: registry_url.map(|s| s.to_string()),
        versioning: None,
    }
}

#[test]
fn test_helm_version_pattern() {
    // Match helmChart OCI URL (capturing last path segment as depName)
    // followed by helmVersion on the next line.
    let pattern =
        "helmChart:\\s*['\"]?(?:oci://[^'\"\\s]*/)?(?P<depName>[^'\"\\s/]+)['\"]?\\s*\nhelmVersion:\\s*['\"]?(?P<currentValue>[^'\"\\s]+)";
    let config = make_config("helm-oci", pattern, Some("oci://oci-charts.example.com"));
    let mgr = RegexManager::new(config).unwrap();

    let contents = "\
appName: login\n\
helmChart: 'oci://oci-charts.example.com/developer-excellence/stateless-http-service'\n\
helmVersion: '14.1.0'\n";

    let deps = mgr.extract_dependencies("app.yaml", contents).unwrap();
    assert_eq!(deps.len(), 1);
    assert_eq!(deps[0].name, "stateless-http-service");
    assert_eq!(deps[0].current_version, "14.1.0");
}

#[test]
fn test_docker_datasource() {
    let pattern = r"image:\s*(?P<depName>[^:\s]+):(?P<currentValue>[^\s]+)";
    let config = make_config("docker", pattern, None);
    let mgr = RegexManager::new(config).unwrap();

    let contents = "image: nginx:1.25.3\n";
    let deps = mgr.extract_dependencies("deploy.yaml", contents).unwrap();
    assert_eq!(deps.len(), 1);
    assert_eq!(deps[0].name, "nginx");
    assert_eq!(deps[0].current_version, "1.25.3");
    assert!(matches!(
        deps[0].registry,
        RegistrySource::DockerRegistry { .. }
    ));
}

#[test]
fn test_helm_repo_datasource() {
    let pattern = r"chart:\s*(?P<depName>[^\s]+)\s*\nversion:\s*(?P<currentValue>[^\s]+)";
    let config = make_config(
        "helm-repo",
        pattern,
        Some("https://charts.bitnami.com/bitnami"),
    );
    let mgr = RegexManager::new(config).unwrap();

    let contents = "chart: redis\nversion: 18.4.0\n";
    let deps = mgr.extract_dependencies("config.yaml", contents).unwrap();
    assert_eq!(deps.len(), 1);
    assert_eq!(deps[0].name, "redis");
    assert_eq!(deps[0].current_version, "18.4.0");
    assert!(matches!(
        deps[0].registry,
        RegistrySource::HelmRepository { .. }
    ));
}

#[test]
fn test_validation_missing_dep_name() {
    let config = make_config(
        "docker",
        r"image:\s*(?P<currentValue>[^\s]+)",
        None,
    );
    let err = RegexManager::new(config).unwrap_err();
    assert!(err.message().contains("depName"));
}

#[test]
fn test_validation_missing_current_value() {
    let config = make_config(
        "docker",
        r"image:\s*(?P<depName>[^\s]+)",
        None,
    );
    let err = RegexManager::new(config).unwrap_err();
    assert!(err.message().contains("currentValue"));
}

#[test]
fn test_validation_invalid_regex() {
    let config = make_config("docker", r"(?P<depName>[", None);
    let err = RegexManager::new(config).unwrap_err();
    assert!(err.message().contains("invalid") || err.message().contains("failed"));
}

#[test]
fn test_validation_unknown_datasource() {
    let config = make_config(
        "unknown-ds",
        r"(?P<depName>[^\s]+):(?P<currentValue>[^\s]+)",
        None,
    );
    let err = RegexManager::new(config).unwrap_err();
    assert!(err.message().contains("datasource"));
}

#[test]
fn test_multiple_matches() {
    let pattern = r"image:\s*(?P<depName>[^:\s]+):(?P<currentValue>[^\s]+)";
    let config = make_config("docker", pattern, None);
    let mgr = RegexManager::new(config).unwrap();

    let contents = "image: nginx:1.25.3\nimage: redis:7.2\n";
    let deps = mgr.extract_dependencies("deploy.yaml", contents).unwrap();
    assert_eq!(deps.len(), 2);
    assert_eq!(deps[0].name, "nginx");
    assert_eq!(deps[1].name, "redis");
}

#[test]
fn test_registry_url_capture_group() {
    let pattern = r"(?P<registryUrl>https://[^/]+)/(?P<depName>[^:\s]+):(?P<currentValue>[^\s]+)";
    let config = make_config("docker", pattern, None);
    let mgr = RegexManager::new(config).unwrap();

    let contents = "https://registry.example.com/myapp:v1.2.3\n";
    let deps = mgr.extract_dependencies("config.yaml", contents).unwrap();
    assert_eq!(deps.len(), 1);
    assert_eq!(deps[0].name, "myapp");
    assert_eq!(deps[0].current_version, "v1.2.3");
}

#[test]
fn test_file_matches_pattern() {
    assert!(file_matches_pattern("apps/login/app.yaml", "*.yaml"));
    assert!(file_matches_pattern("Chart.yaml", "Chart.yaml"));
    assert!(!file_matches_pattern("Chart.json", "Chart.yaml"));
    assert!(file_matches_pattern("values-prod.yaml", "values-*.yaml"));
    assert!(!file_matches_pattern("values-prod.yaml", "Chart.yaml"));
    assert!(file_matches_pattern("apps/login/app.yaml", "**/apps/*.yaml"));
}

#[test]
fn regex_match_context_records_text() {
    let pattern = r"image:\s*(?P<depName>[^:\s]+):(?P<currentValue>[^\s]+)";
    let mgr = RegexManager::new(make_config("docker", pattern, None)).unwrap();
    let deps = mgr.extract_dependencies("deploy.yaml", "image: nginx:1.25.3\n").unwrap();
    match &deps[0].update_context {
        UpdateContext::RegexMatch { matched_text, old_value } => {
            assert_eq!(matched_text, "image: nginx:1.25.3");
            assert_eq!(old_value, "1.25.3");
        }
        _ => panic!("Expected RegexMatch"),
    }
}

#[test]
fn helm_oci_datasource_joins_registry() {
    let pattern = r"chart:\s*(?P<depName>[^\s]+)\s*\nversion:\s*(?P<currentValue>[^\s]+)";
    let mgr = RegexManager::new(make_config("helm-oci", pattern, Some("oci://registry.example.com/charts"))).unwrap();
    let deps = mgr.extract_dependencies("x.yaml", "chart: app\nversion: 1.0.0\n").unwrap();
    assert_eq!(deps.len(), 1);
    assert!(matches!(deps[0].registry, RegistrySource::OciHelmRegistry { .. }));
}

#[test]
fn leading_double_star_matches_any_directory_prefix() {
    assert!(file_matches_pattern("x/apps/a.yaml", "**/apps/*.yaml"));
    assert!(file_matches_pattern("apps/a.yaml", "**/apps/*.yaml"));
    assert!(!file_matches_pattern("xapps/a.yaml", "**/apps/*.yaml"));
    assert!(!file_matches_pattern("x/apps/a.yaml", "apps/*.yaml"));
}
