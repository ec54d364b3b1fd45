use reforge::manager::helm::HelmManager;
use reforge::manager::PackageManager;
use reforge::manager::RegistrySource;
use reforge::manager::UpdateContext;


#[test]
fn test_chart_yaml_http_repo() {
    let mgr = HelmManager::new();
    let contents = r#"
apiVersion: v2
name: my-app
version: 1.0.0
dependencies:
  - name: ingress-nginx
    version: 4.8.3
    repository: https://kubernetes.github.io/ingress-nginx
  - name: redis
    version: 18.4.0
    repository: https://charts.bitnami.com/bitnami
"#;
    let deps = mgr.extract_dependencies("Chart.yaml", contents).unwrap();
    assert_eq!(deps.len(), 2);
    assert_eq!(deps[0].name, "ingress-nginx");
    assert_eq!(deps[0].current_version, "4.8.3");
    assert_eq!(deps[1].name, "redis");
    assert_eq!(deps[1].current_version, "18.4.0");
}

#[test]
fn test_chart_yaml_oci_repo() {
    let mgr = HelmManager::new();
    let contents = r#"
apiVersion: v2
name: my-app
version: 1.0.0
dependencies:
  - name: my-chart
    version: 2.0.0
    repository: oci://registry.example.com/charts
"#;
    let deps = mgr.extract_dependencies("Chart.yaml", contents).unwrap();
    assert_eq!(deps.len(), 1);
    assert_eq!(deps[0].name, "my-chart");
    assert_eq!(deps[0].current_version, "2.0.0");
    match &deps[0].registry {
        RegistrySource::OciHelmRegistry { image, .. } => {
            assert_eq!(image, "registry.example.com/charts/my-chart");
        }
        _ => panic!("Expected OciHelmRegistry"),
    }
}

#[test]
fn test_chart_yaml_alias_skipped() {
    let mgr = HelmManager::new();
    let contents = r#"
apiVersion: v2
name: my-app
version: 1.0.0
dependencies:
  - name: local-dep
    version: 1.0.0
    repository: alias:my-alias
"#;
    let deps = mgr.extract_dependencies("Chart.yaml", contents).unwrap();
    assert_eq!(deps.len(), 0);
}

#[test]
fn test_values_yaml_image_tag() {
    let mgr = HelmManager::new();
    let contents = r#"
image:
  repository: nginx
  tag: "1.25.3"
  pullPolicy: IfNotPresent
"#;
    let deps = mgr.extract_dependencies("values.yaml", contents).unwrap();
    assert_eq!(deps.len(), 1);
    assert_eq!(deps[0].name, "nginx");
    assert_eq!(deps[0].current_version, "1.25.3");
}

#[test]
fn test_values_yaml_nested_images() {
    let mgr = HelmManager::new();
    let contents = r#"
app:
  frontend:
    image:
      repository: myorg/frontend
      tag: "2.1.0"
  backend:
    image:
      repository: myorg/backend
      tag: "3.0.1"
"#;
    let deps = mgr.extract_dependencies("values.yaml", contents).unwrap();
    assert_eq!(deps.len(), 2);
}

#[test]
fn test_values_yaml_numeric_tag() {
    let mgr = HelmManager::new();
    let contents = r#"
image:
  repository: redis
  tag: 7.2
"#;
    let deps = mgr.extract_dependencies("values.yaml", contents).unwrap();
    assert_eq!(deps.len(), 1);
    assert_eq!(deps[0].current_version, "7.2");
}

#[test]
fn values_yaml_records_key_path() {
    let mgr = HelmManager::new();
    let contents = "app:\n  image:\n    repository: nginx\n    tag: \"1.0.0\"\n";
    let deps = mgr.extract_dependencies("values.yaml", contents).unwrap();
    assert_eq!(deps.len(), 1);
    match &deps[0].update_context {
        UpdateContext::YamlKeyPath { keys } => {
            assert_eq!(keys, &vec!["app".to_string(), "image".to_string(), "tag".to_string()]);
        }
        _ => panic!("Expected YamlKeyPath"),
    }
    assert_eq!(mgr.name(), "helm");
}

#[test]
fn chart_yaml_http_registry_source() {
    let mgr = HelmManager::new();
    let contents = "dependencies:\n  - name: redis\n    version: 18.4.0\n    repository: https://charts.bitnami.com/bitnami\n";
    let deps = mgr.extract_dependencies("Chart.yaml", contents).unwrap();
    match &deps[0].registry {
        RegistrySource::HelmRepository { repo_url, chart_name } => {
            assert_eq!(repo_url, "https://charts.bitnami.com/bitnami");
            assert_eq!(chart_name, "redis");
        }
        _ => panic!("Expected HelmRepository"),
    }
}

#[test]
fn chart_yaml_invalid_yaml_is_error() {
    let mgr = HelmManager::new();
    assert!(mgr.extract_dependencies("Chart.yaml", "dependencies: [unclosed").is_err());
}

#[test]
fn values_yaml_numeric_tag_keeps_written_text() {
    let mgr = HelmManager::new();
    let deps = mgr.extract_dependencies("values.yaml", "image:\n  repository: redis\n  tag: 1.10\n").unwrap();
    assert_eq!(deps.len(), 1);
    assert_eq!(deps[0].name, "redis");
    assert_eq!(deps[0].current_version, "1.10");
    assert_eq!(
        deps[0].update_context,
        UpdateContext::YamlKeyPath { keys: vec!["image".to_string(), "tag".to_string()] }
    );
    let nested = "other:\n  tag: 9.90\nweb:\n  image:\n    repository: nginx\n    # pinned\n    tag: 2.50 # comment\n";
    let deps = mgr.extract_dependencies("values.yaml", nested).unwrap();
    assert_eq!(deps.len(), 1);
    assert_eq!(deps[0].current_version, "2.50");
}
