use reforge::manager::Dependency;
use reforge::manager::RegistrySource;
use reforge::manager::UpdateContext;
use reforge::replacement::check_dependencies;
use reforge::replacement::render_replacement_mr_body;
use reforge::replacement::ReplacementAction;
use reforge::replacement::ReplacementDatabase;
use reforge::replacement::ReplacementRule;
use reforge::util::glob_match;

fn docker_dep(name: &str, image: &str, registry: Option<&str>) -> Dependency {
    Dependency {
        name: name.to_string(),
        current_version: "1.0.0".to_string(),
        registry: RegistrySource::DockerRegistry {
            image: image.to_string(),
            registry: registry.map(|s| s.to_string()),
        },
        file_path: "Dockerfile".to_string(),
        update_context: UpdateContext::DockerFrom {
            line_number: 0,
            full_reference: format!("{}:1.0.0", image),
        },
    }
}

// --- glob_match ---

#[test]
fn test_glob_match_exact() {
    assert!(glob_match("nginx", "nginx"));
    assert!(!glob_match("nginx", "nginx-unprivileged"));
}

#[test]
fn test_glob_match_wildcard_prefix() {
    assert!(glob_match("gcr.io/google-containers/*", "gcr.io/google-containers/pause"));
    assert!(!glob_match("gcr.io/google-containers/*", "gcr.io/other/pause"));
}

#[test]
fn test_glob_match_trailing_star() {
    assert!(glob_match("kube*", "kube-proxy"));
    assert!(glob_match("kube*", "kubernetes"));
    assert!(!glob_match("kube*", "nginx"));
}

// --- ReplacementRule::matches ---

#[test]
fn test_rule_matches_with_registry() {
    let rule = ReplacementRule {
        old_name: "nginx".to_string(),
        new_name: "nginxinc/nginx-unprivileged".to_string(),
        old_registry: Some("docker.io/library".to_string()),
        new_registry: Some("docker.io".to_string()),
        reason: None,
        deprecated_only: false,
    };
    assert!(rule.matches("nginx", Some("docker.io/library")));
    assert!(!rule.matches("nginx", Some("quay.io")));
    assert!(!rule.matches("nginx", None));
}

#[test]
fn test_rule_matches_without_registry_constraint() {
    let rule = ReplacementRule {
        old_name: "old-image".to_string(),
        new_name: "new-image".to_string(),
        old_registry: None,
        new_registry: None,
        reason: None,
        deprecated_only: false,
    };
    assert!(rule.matches("old-image", None));
    assert!(rule.matches("old-image", Some("any.registry.io")));
    assert!(!rule.matches("other-image", None));
}

#[test]
fn test_rule_resolve_new_name_glob() {
    let rule = ReplacementRule {
        old_name: "*".to_string(),
        new_name: "*".to_string(),
        old_registry: Some("gcr.io/google-containers".to_string()),
        new_registry: Some("registry.k8s.io".to_string()),
        reason: None,
        deprecated_only: false,
    };
    assert_eq!(rule.resolve_new_name("pause"), "pause");
    assert_eq!(rule.resolve_new_name("kube-apiserver"), "kube-apiserver");
}

#[test]
fn test_rule_resolve_new_name_exact() {
    let rule = ReplacementRule {
        old_name: "nginx".to_string(),
        new_name: "nginxinc/nginx-unprivileged".to_string(),
        old_registry: None,
        new_registry: None,
        reason: None,
        deprecated_only: false,
    };
    assert_eq!(rule.resolve_new_name("nginx"), "nginxinc/nginx-unprivileged");
}

// --- ReplacementDatabase built-in ---

#[test]
fn test_builtin_database_has_gcr_rule() {
    let db = ReplacementDatabase::load_builtin();
    let rule = db.find_replacement("pause", Some("gcr.io/google-containers"));
    assert!(rule.is_some());
    let r = rule.unwrap();
    assert_eq!(r.new_registry.as_deref(), Some("registry.k8s.io"));
}

#[test]
fn test_builtin_database_has_nginx_rule() {
    let db = ReplacementDatabase::load_builtin();
    let rule = db.find_replacement("nginx", Some("docker.io/library"));
    assert!(rule.is_some());
    assert!(!rule.unwrap().deprecated_only);
}

#[test]
fn test_builtin_database_has_etcd_deprecation() {
    let db = ReplacementDatabase::load_builtin();
    let rule = db.find_replacement("etcd", Some("quay.io/coreos"));
    assert!(rule.is_some());
    assert!(rule.unwrap().deprecated_only);
}

#[test]
fn test_builtin_database_no_match() {
    let db = ReplacementDatabase::load_builtin();
    assert!(db.find_replacement("completely-unknown", None).is_none());
}

// --- check_dependencies ---

#[test]
fn test_check_dependencies_replace() {
    let db = ReplacementDatabase::load_builtin();
    let dep = docker_dep("nginx", "nginx", Some("docker.io/library"));
    let actions = check_dependencies(&[dep], &db);
    assert_eq!(actions.len(), 1);
    match &actions[0] {
        ReplacementAction::Replace { from_ref, to_ref, .. } => {
            assert!(from_ref.contains("nginx"));
            assert!(to_ref.contains("nginx-unprivileged"));
        }
        other => panic!("expected Replace, got {:?}", other),
    }
}

#[test]
fn test_check_dependencies_deprecation() {
    let db = ReplacementDatabase::load_builtin();
    let dep = docker_dep("etcd", "etcd", Some("quay.io/coreos"));
    let actions = check_dependencies(&[dep], &db);
    assert_eq!(actions.len(), 1);
    match &actions[0] {
        ReplacementAction::DeprecationWarning { dep_name, .. } => {
            assert_eq!(dep_name, "etcd");
        }
        other => panic!("expected DeprecationWarning, got {:?}", other),
    }
}

#[test]
fn test_check_dependencies_no_match() {
    let db = ReplacementDatabase::load_builtin();
    let dep = docker_dep("postgres", "postgres", Some("docker.io/library"));
    let actions = check_dependencies(&[dep], &db);
    assert!(actions.is_empty());
}

// --- render_replacement_mr_body ---

#[test]
fn test_render_replace_action() {
    let action = ReplacementAction::Replace {
        dep_name: "nginx".to_string(),
        file_path: "Dockerfile".to_string(),
        from_ref: "docker.io/library/nginx".to_string(),
        to_ref: "docker.io/nginxinc/nginx-unprivileged".to_string(),
        reason: Some("Use the rootless variant".to_string()),
    };
    let body = render_replacement_mr_body(&action);
    assert!(body.contains("Migration"));
    assert!(body.contains("docker.io/library/nginx"));
    assert!(body.contains("nginx-unprivileged"));
    assert!(body.contains("rootless"));
}

#[test]
fn test_render_deprecation_action() {
    let action = ReplacementAction::DeprecationWarning {
        dep_name: "etcd".to_string(),
        file_path: "Chart.yaml".to_string(),
        reason: Some("No longer maintained".to_string()),
    };
    let body = render_replacement_mr_body(&action);
    assert!(body.contains("Deprecation"));
    assert!(body.contains("etcd"));
    assert!(body.contains("No longer maintained"));
    assert!(body.contains("review manually"));
}

#[test]
fn test_render_replace_no_reason() {
    let action = ReplacementAction::Replace {
        dep_name: "old-img".to_string(),
        file_path: "deploy.yaml".to_string(),
        from_ref: "old-img".to_string(),
        to_ref: "new-img".to_string(),
        reason: None,
    };
    let body = render_replacement_mr_body(&action);
    assert!(body.contains("old-img"));
    assert!(body.contains("new-img"));
    assert!(!body.contains("**Reason:**"));
}

#[test]
fn replace_action_refs_include_registries() {
    let db = ReplacementDatabase::load_builtin();
    let dep = docker_dep("pause", "pause", Some("gcr.io/google-containers"));
    let actions = check_dependencies(&[dep], &db);
    assert_eq!(actions.len(), 1);
    match &actions[0] {
        ReplacementAction::Replace { from_ref, to_ref, dep_name, file_path, .. } => {
            assert_eq!(from_ref, "gcr.io/google-containers/pause");
            assert_eq!(to_ref, "registry.k8s.io/pause");
            assert_eq!(dep_name, "pause");
            assert_eq!(file_path, "Dockerfile");
        }
        other => panic!("expected Replace, got {:?}", other),
    }
}
