use reforge::config::RegexManagerConfig;
use reforge::config::RegistryCredential;
use reforge::lockfile::chart_lock_of;
use reforge::lockfile::chart_url_in_index;
use reforge::manager::docker::DockerManager;
use reforge::manager::helm::HelmManager;
use reforge::manager::regex::RegexManager;
use reforge::manager::yaml::YamlValue;
use reforge::manager::RegistrySource;
use reforge::manager::UpdateContext;
use reforge::registry::docker::tags_url;
use reforge::registry::helm::credential_index;
use reforge::registry::helm::index_chart_versions;
use reforge::registry::helm::index_credential;

fn s(text: &str) -> YamlValue {
    YamlValue::String(text.to_string())
}

fn map(entries: Vec<(&str, YamlValue)>) -> YamlValue {
    YamlValue::Mapping(entries.into_iter().map(|(k, v)| (s(k), v)).collect())
}

#[test]
fn compose_document_services() {
    let root = map(vec![(
        "services",
        map(vec![
            ("web", map(vec![("image", s("nginx:1.25.3"))])),
            ("db", map(vec![("build", s("."))])),
            ("cache", map(vec![("image", s("redis"))])),
            ("queue", map(vec![("image", s("ghcr.io/acme/rabbit:3.12"))])),
        ]),
    )]);
    let deps = DockerManager::new().compose_deps("docker-compose.yml", &root);
    assert_eq!(deps.len(), 2);
    assert_eq!(deps[0].name, "nginx");
    assert_eq!(deps[0].current_version, "1.25.3");
    assert_eq!(deps[0].file_path, "docker-compose.yml");
    match &deps[0].update_context {
        UpdateContext::DockerComposeImage { service_path, full_reference } => {
            assert_eq!(service_path, &vec!["services".to_string(), "web".to_string(), "image".to_string()]);
            assert_eq!(full_reference, "nginx:1.25.3");
        }
        _ => panic!("Expected DockerComposeImage"),
    }
    assert_eq!(deps[1].name, "rabbit");
    match &deps[1].registry {
        RegistrySource::DockerRegistry { registry, .. } => {
            assert_eq!(registry.as_deref(), Some("ghcr.io/acme"));
        }
        _ => panic!("Expected DockerRegistry"),
    }
}

#[test]
fn compose_document_without_services() {
    let deps = DockerManager::new().compose_deps("docker-compose.yml", &map(vec![("version", s("3"))]));
    assert!(deps.is_empty());
    let deps = DockerManager::new().compose_deps("docker-compose.yml", &YamlValue::Null);
    assert!(deps.is_empty());
}

#[test]
fn chart_document_dependencies() {
    let root = map(vec![
        ("name", s("my-app")),
        (
            "dependencies",
            YamlValue::Sequence(vec![
                map(vec![
                    ("name", s("redis")),
                    ("version", s("18.4.0")),
                    ("repository", s("https://charts.bitnami.com/bitnami")),
                ]),
                map(vec![("name", s("local")), ("version", s("1.0.0")), ("repository", s("alias:x"))]),
            ]),
        ),
    ]);
    let deps = HelmManager::new().chart_yaml_deps("Chart.yaml", &root).unwrap();
    assert_eq!(deps.len(), 1);
    assert_eq!(deps[0].name, "redis");
    assert_eq!(deps[0].current_version, "18.4.0");
    match &deps[0].registry {
        RegistrySource::HelmRepository { repo_url, chart_name } => {
            assert_eq!(repo_url, "https://charts.bitnami.com/bitnami");
            assert_eq!(chart_name, "redis");
        }
        _ => panic!("Expected HelmRepository"),
    }
}

#[test]
fn chart_document_without_dependencies() {
    let deps = HelmManager::new().chart_yaml_deps("Chart.yaml", &map(vec![("name", s("x"))])).unwrap();
    assert!(deps.is_empty());
}

#[test]
fn chart_document_with_wrong_shape_is_error() {
    let err = HelmManager::new().chart_yaml_deps("Chart.yaml", &s("text")).unwrap_err();
    assert_eq!(
        err.message(),
        "Failed to parse Chart.yaml: Chart.yaml parse error: unexpected document structure"
    );
    let bad = map(vec![("dependencies", s("none"))]);
    assert!(HelmManager::new().chart_yaml_deps("Chart.yaml", &bad).is_err());
}

#[test]
fn index_document_versions() {
    let root = map(vec![(
        "entries",
        map(vec![(
            "nginx",
            YamlValue::Sequence(vec![
                map(vec![("version", s("1.2.3"))]),
                map(vec![("version", s("garbage"))]),
                map(vec![("version", s("2.0.0"))]),
            ]),
        )]),
    )]);
    let versions = index_chart_versions(&root, "nginx", "https://charts.example.com").unwrap();
    let tags: Vec<&str> = versions.iter().map(|v| v.original_tag.as_str()).collect();
    assert_eq!(tags, vec!["1.2.3", "2.0.0"]);
    let err = index_chart_versions(&root, "redis", "https://charts.example.com").unwrap_err();
    assert_eq!(err.message(), "Registry error for https://charts.example.com: Chart 'redis' not found in index");
}

#[test]
fn index_document_chart_url() {
    let root = map(vec![(
        "entries",
        map(vec![(
            "nginx",
            YamlValue::Sequence(vec![map(vec![
                ("version", s("1.2.3")),
                ("urls", YamlValue::Sequence(vec![s("charts/nginx-1.2.3.tgz")])),
            ])]),
        )]),
    )]);
    assert_eq!(
        chart_url_in_index(&root, "nginx", "1.2.3", "https://repo.example.com/").unwrap(),
        "https://repo.example.com/charts/nginx-1.2.3.tgz"
    );
    let err = chart_url_in_index(&root, "nginx", "1.0.0", "https://repo.example.com").unwrap_err();
    assert_eq!(
        err.message(),
        "Registry error for https://repo.example.com: Version '1.0.0' of chart 'nginx' not found in index"
    );
}

#[test]
fn lock_document_fields() {
    let root = map(vec![
        (
            "dependencies",
            YamlValue::Sequence(vec![map(vec![
                ("name", s("redis")),
                ("repository", s("https://charts.bitnami.com/bitnami")),
                ("version", s("18.4.0")),
            ])]),
        ),
        ("digest", s("sha256:abc")),
        ("generated", s("2024-01-01T00:00:00Z")),
    ]);
    let lock = chart_lock_of(&root).unwrap();
    assert_eq!(lock.dependencies.len(), 1);
    assert_eq!(lock.dependencies[0].name, "redis");
    assert_eq!(lock.dependencies[0].version, "18.4.0");
    assert_eq!(lock.digest, "sha256:abc");
    assert_eq!(lock.generated, "2024-01-01T00:00:00Z");
    assert!(chart_lock_of(&s("text")).is_err());
}

fn docker_regex_manager() -> RegexManager {
    RegexManager::new(RegexManagerConfig {
        name: "images".to_string(),
        file_patterns: vec!["*.yaml".to_string()],
        match_pattern: r"image:\s*(?P<depName>[^:\s]+):(?P<currentValue>[^\s]+)".to_string(),
        datasource: "docker".to_string(),
        registry_url: None,
        versioning: None,
    })
    .unwrap()
}

#[test]
fn regex_matches_become_dependencies() {
    let mgr = docker_regex_manager();
    let ms = vec![
        (
            "image: nginx:1.25.3".to_string(),
            vec![Some("nginx".to_string()), Some("1.25.3".to_string()), None],
        ),
        ("image: broken".to_string(), vec![Some("broken".to_string()), None, None]),
    ];
    let deps = mgr.deps_from_matches("deploy.yaml", &ms);
    assert_eq!(deps.len(), 1);
    assert_eq!(deps[0].name, "nginx");
    assert_eq!(deps[0].current_version, "1.25.3");
    match &deps[0].update_context {
        UpdateContext::RegexMatch { matched_text, old_value } => {
            assert_eq!(matched_text, "image: nginx:1.25.3");
            assert_eq!(old_value, "1.25.3");
        }
        _ => panic!("Expected RegexMatch"),
    }
}

#[test]
fn tag_list_url() {
    assert_eq!(
        tags_url("https://registry-1.docker.io", "library/nginx"),
        "https://registry-1.docker.io/v2/library/nginx/tags/list"
    );
}

#[test]
fn credentials_by_host() {
    let cred = RegistryCredential { username: Some("u".to_string()), password_env: None, base_url: None };
    let creds = vec![
        ("ghcr.io".to_string(), cred.clone()),
        ("charts.example.com".to_string(), cred.clone()),
    ];
    assert_eq!(credential_index(&creds, "charts.example.com"), Some(1));
    assert_eq!(credential_index(&creds, "quay.io"), None);
    assert_eq!(index_credential("https://charts.example.com/stable", &creds), Some(1));
    assert_eq!(index_credential("https://other.example.com", &creds), None);
}
