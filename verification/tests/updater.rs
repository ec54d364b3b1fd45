use reforge::manager::Dependency;
use reforge::manager::RegistrySource;
use reforge::manager::UpdateContext;
use reforge::updater::apply_replacement;
use reforge::updater::apply_update;
use reforge::updater::apply_updates;
use reforge::updater::update_line_based;
use reforge::updater::update_yaml_value;

#[test]
fn test_dockerfile_line_update() {
    let content = "FROM golang:1.22 AS builder\nRUN go build\nFROM alpine:3.19\n";
    let result = update_line_based(content, 0, "1.22", "1.23");
    assert!(result.starts_with("FROM golang:1.23 AS builder\n"));
    assert!(result.contains("FROM alpine:3.19"));
}

#[test]
fn test_yaml_quoted_update() {
    let content = "image:\n  repository: nginx\n  tag: \"1.25.3\"\n";
    let result = update_yaml_value(content, "1.25.3", "1.26.0");
    assert!(result.contains("tag: \"1.26.0\""));
}

#[test]
fn test_yaml_unquoted_update() {
    let content = "image:\n  repository: nginx\n  tag: 1.25.3\n";
    let result = update_yaml_value(content, "1.25.3", "1.26.0");
    assert!(result.contains("tag: 1.26.0"));
}

#[test]
fn test_compose_image_update() {
    let dep = Dependency {
        name: "nginx".to_string(),
        current_version: "1.25.3".to_string(),
        registry: RegistrySource::DockerRegistry {
            image: "nginx".to_string(),
            registry: None,
        },
        file_path: "docker-compose.yaml".to_string(),
        update_context: UpdateContext::DockerComposeImage {
            service_path: vec![
                "services".to_string(),
                "web".to_string(),
                "image".to_string(),
            ],
            full_reference: "nginx:1.25.3".to_string(),
        },
    };

    let content = "services:\n  web:\n    image: nginx:1.25.3\n";
    let result = apply_update(&dep, "1.26.0", content).unwrap();
    assert!(result.updated_content.contains("nginx:1.26.0"));
}

#[test]
fn test_preserves_trailing_newline() {
    let content = "FROM nginx:1.25.3\n";
    let result = update_line_based(content, 0, "1.25.3", "1.26.0");
    assert!(result.ends_with('\n'));
    assert_eq!(result, "FROM nginx:1.26.0\n");
}

#[test]
fn yaml_single_quoted_update() {
    let content = "image:\n  tag: '1.25.3'\n";
    assert_eq!(update_yaml_value(content, "1.25.3", "1.26.0"), "image:\n  tag: '1.26.0'\n");
    assert_eq!(update_yaml_value(content, "9.9.9", "1.0.0"), content);
}

#[test]
fn regex_match_update_rewrites_matched_text() {
    let dep = Dependency {
        name: "app".to_string(),
        current_version: "14.1.0".to_string(),
        registry: RegistrySource::HelmRepository { repo_url: "https://x".to_string(), chart_name: "app".to_string() },
        file_path: "app.yaml".to_string(),
        update_context: UpdateContext::RegexMatch {
            matched_text: "helmVersion: '14.1.0'".to_string(),
            old_value: "14.1.0".to_string(),
        },
    };
    let content = "name: app\nhelmVersion: '14.1.0'\n";
    let r = apply_update(&dep, "14.2.0", content).unwrap();
    assert_eq!(r.updated_content, "name: app\nhelmVersion: '14.2.0'\n");
    assert_eq!(r.original_content, content);
    assert_eq!(r.file_path, "app.yaml");
}

#[test]
fn apply_updates_chains_results() {
    let golang = Dependency {
        name: "golang".to_string(),
        current_version: "1.22".to_string(),
        registry: RegistrySource::DockerRegistry { image: "golang".to_string(), registry: None },
        file_path: "Dockerfile".to_string(),
        update_context: UpdateContext::DockerFrom { line_number: 0, full_reference: "golang:1.22".to_string() },
    };
    let alpine = Dependency {
        name: "alpine".to_string(),
        current_version: "3.19".to_string(),
        registry: RegistrySource::DockerRegistry { image: "alpine".to_string(), registry: None },
        file_path: "Dockerfile".to_string(),
        update_context: UpdateContext::DockerFrom { line_number: 2, full_reference: "alpine:3.19".to_string() },
    };
    let content = "FROM golang:1.22 AS builder\nRUN go build\nFROM alpine:3.19\n";
    let (update, errors) = apply_updates(&vec![(&golang, "1.23"), (&alpine, "3.20")], content, "Dockerfile");
    assert!(errors.is_empty());
    assert_eq!(update.updated_content, "FROM golang:1.23 AS builder\nRUN go build\nFROM alpine:3.20\n");
}

#[test]
fn replacement_rewrites_every_reference() {
    let u = apply_replacement("a: nginx\nb: nginx\n", "x.yaml", "nginx", "nginxinc/nginx-unprivileged");
    assert_eq!(u.updated_content, "a: nginxinc/nginx-unprivileged\nb: nginxinc/nginx-unprivileged\n");
}

#[test]
fn line_update_keeps_final_newline_and_other_lines() {
    let content = "FROM a:1\nFROM b:1\n";
    assert_eq!(update_line_based(content, 1, "1", "2"), "FROM a:1\nFROM b:2\n");
    assert_eq!(update_line_based("FROM a:1", 0, "1", "2"), "FROM a:2");
}

#[test]
fn yaml_update_replaces_whole_value_only() {
    assert_eq!(
        update_yaml_value("version: 1.25.3\ntag: 1.2\n", "1.2", "1.3"),
        "version: 1.25.3\ntag: 1.3\n"
    );
    assert_eq!(update_yaml_value("tag: 1.25.3\n", "1.2", "1.3"), "tag: 1.25.3\n");
    assert_eq!(update_yaml_value("tag: 1.2 # pinned\n", "1.2", "1.3"), "tag: 1.3 # pinned\n");
}
