use reforge::manager::docker::DockerManager;
use reforge::manager::docker::DockerLineKind;
use reforge::manager::PackageManager;
use reforge::manager::RegistrySource;
use reforge::manager::UpdateContext;


#[test]
fn test_simple_from() {
    let mgr = DockerManager::new();
    let contents = "FROM nginx:1.25.3\n";
    let deps = mgr.extract_dependencies("Dockerfile", contents).unwrap();
    assert_eq!(deps.len(), 1);
    assert_eq!(deps[0].name, "nginx");
    assert_eq!(deps[0].current_version, "1.25.3");
}

#[test]
fn test_from_with_as() {
    let mgr = DockerManager::new();
    let contents = "FROM nginx:1.25.3 AS builder\n";
    let deps = mgr.extract_dependencies("Dockerfile", contents).unwrap();
    assert_eq!(deps.len(), 1);
    assert_eq!(deps[0].current_version, "1.25.3");
}

#[test]
fn test_from_with_platform() {
    let mgr = DockerManager::new();
    let contents = "FROM --platform=linux/amd64 nginx:1.25.3\n";
    let deps = mgr.extract_dependencies("Dockerfile", contents).unwrap();
    assert_eq!(deps.len(), 1);
    assert_eq!(deps[0].current_version, "1.25.3");
}

#[test]
fn test_from_with_registry() {
    let mgr = DockerManager::new();
    let contents = "FROM registry.example.com/myorg/myimage:v2.1.0\n";
    let deps = mgr.extract_dependencies("Dockerfile", contents).unwrap();
    assert_eq!(deps.len(), 1);
    assert_eq!(deps[0].name, "myimage");
    assert_eq!(deps[0].current_version, "v2.1.0");
    match &deps[0].registry {
        RegistrySource::DockerRegistry { registry, .. } => {
            assert_eq!(registry.as_deref(), Some("registry.example.com/myorg"));
        }
        _ => panic!("Expected DockerRegistry"),
    }
}

#[test]
fn test_multistage() {
    let mgr = DockerManager::new();
    let contents = "FROM golang:1.22 AS builder\nRUN go build\nFROM alpine:3.19\nCOPY --from=builder /app /app\n";
    let deps = mgr.extract_dependencies("Dockerfile", contents).unwrap();
    assert_eq!(deps.len(), 2);
    assert_eq!(deps[0].name, "golang");
    assert_eq!(deps[0].current_version, "1.22");
    assert_eq!(deps[1].name, "alpine");
    assert_eq!(deps[1].current_version, "3.19");
}

#[test]
fn test_arg_based() {
    let mgr = DockerManager::new();
    let contents = "ARG BASE_IMAGE=nginx:1.25.3\nFROM ${BASE_IMAGE}\n";
    let deps = mgr.extract_dependencies("Dockerfile", contents).unwrap();
    assert_eq!(deps.len(), 1);
    assert_eq!(deps[0].name, "nginx");
    assert_eq!(deps[0].current_version, "1.25.3");
}

#[test]
fn test_digest_only_skipped() {
    let mgr = DockerManager::new();
    let contents =
        "FROM nginx@sha256:abc123def456\n";
    let deps = mgr.extract_dependencies("Dockerfile", contents).unwrap();
    assert_eq!(deps.len(), 0);
}

#[test]
fn test_compose_image() {
    let mgr = DockerManager::new();
    let contents = r#"
services:
  web:
    image: nginx:1.25.3
  redis:
    image: redis:7.2
"#;
    let deps = mgr
        .extract_dependencies("docker-compose.yaml", contents)
        .unwrap();
    assert_eq!(deps.len(), 2);
    assert_eq!(deps[0].name, "nginx");
    assert_eq!(deps[0].current_version, "1.25.3");
    assert_eq!(deps[1].name, "redis");
    assert_eq!(deps[1].current_version, "7.2");
}

#[test]
fn test_split_image_tag() {
    assert_eq!(
        DockerManager::split_image_tag("nginx:1.25"),
        Some(("nginx".into(), "1.25".into()))
    );
    assert_eq!(
        DockerManager::split_image_tag("registry.io:5000/img:v1"),
        Some(("registry.io:5000/img".into(), "v1".into()))
    );
    assert_eq!(DockerManager::split_image_tag("nginx"), None);
}

#[test]
fn docker_manager_identity() {
    let mgr = DockerManager::new();
    assert_eq!(mgr.name(), "docker");
    let deps = mgr.extract("Dockerfile", "FROM nginx:1.25.3\n").unwrap();
    assert_eq!(deps[0].file_path, "Dockerfile");
}

#[test]
fn compose_invalid_yaml_is_parse_error() {
    let mgr = DockerManager::new();
    let r = mgr.extract_dependencies("docker-compose.yaml", "services: [unclosed");
    assert!(r.is_err());
}

#[test]
fn classified_lines_become_dependencies() {

    let mgr = DockerManager::new();
    let kinds = vec![
        DockerLineKind::Arg("BASE".to_string(), "node".to_string(), Some("20.1".to_string())),
        DockerLineKind::Arg("BASE".to_string(), "node".to_string(), Some("20.2".to_string())),
        DockerLineKind::Arg("UNTAGGED".to_string(), "busybox".to_string(), None),
        DockerLineKind::FromVar("BASE".to_string()),
        DockerLineKind::FromVar("UNTAGGED".to_string()),
        DockerLineKind::From("alpine:3.19".to_string()),
        DockerLineKind::From("scratch".to_string()),
        DockerLineKind::From("nginx@sha256:abc".to_string()),
        DockerLineKind::Other,
    ];
    let deps = mgr.deps_from_line_kinds("Dockerfile", &kinds);
    assert_eq!(deps.len(), 2);
    assert_eq!(deps[0].name, "alpine");
    assert_eq!(deps[0].current_version, "3.19");
    assert_eq!(
        deps[0].update_context,
        UpdateContext::DockerFrom { line_number: 5, full_reference: "alpine:3.19".to_string() }
    );
    assert_eq!(deps[1].name, "node");
    assert_eq!(deps[1].current_version, "20.2");
    assert_eq!(
        deps[1].update_context,
        UpdateContext::DockerFrom { line_number: 1, full_reference: "node:20.2".to_string() }
    );
}
