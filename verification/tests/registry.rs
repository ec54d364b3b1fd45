use reforge::config::RegistryCredential;
use reforge::manager::RegistrySource;
use reforge::registry::docker::basic_auth_value;
use reforge::registry::docker::challenge_param;
use reforge::registry::docker::image_and_registry;
use reforge::registry::docker::parse_link_next;
use reforge::registry::docker::parse_www_authenticate;
use reforge::registry::docker::resolve_image_name;
use reforge::registry::docker::resolve_registry_url;
use reforge::registry::docker::token_from_response;
use reforge::registry::docker::token_url;
use reforge::registry::docker::versions_from_tags;
use reforge::registry::helm::index_url;
use reforge::registry::helm::index_versions;

fn cred(base_url: Option<&str>) -> RegistryCredential {
    RegistryCredential { username: None, password_env: None, base_url: base_url.map(|s| s.to_string()) }
}

#[test]
fn registry_url_defaults_to_docker_hub() {
    let creds: Vec<(String, RegistryCredential)> = vec![];
    assert_eq!(
        resolve_registry_url(&None, &creds),
        ("https://registry-1.docker.io".to_string(), "registry-1.docker.io".to_string())
    );
    assert_eq!(
        resolve_registry_url(&Some("ghcr.io/org".to_string()), &creds),
        ("https://ghcr.io".to_string(), "ghcr.io".to_string())
    );
}

#[test]
fn registry_url_uses_credential_base_url() {
    let creds = vec![("ghcr.io".to_string(), cred(Some("http://mirror.local:5000/")))];
    assert_eq!(
        resolve_registry_url(&Some("ghcr.io/org".to_string()), &creds),
        ("http://mirror.local:5000".to_string(), "ghcr.io".to_string())
    );
}

#[test]
fn image_name_resolution() {
    assert_eq!(resolve_image_name("nginx", &None), "library/nginx");
    assert_eq!(resolve_image_name("myorg/app", &None), "myorg/app");
    assert_eq!(resolve_image_name("ghcr.io/org/app", &Some("ghcr.io".to_string())), "org/app");
    assert_eq!(resolve_image_name("app", &Some("registry.example.com/team".to_string())), "team/app");
    assert_eq!(resolve_image_name("app", &Some("registry.example.com".to_string())), "app");
}

#[test]
fn www_authenticate_params() {
    let params = parse_www_authenticate(
        "Bearer realm=\"https://auth.docker.io/token\",service=\"registry.docker.io\",scope=\"repository:library/nginx:pull\"",
    );
    assert_eq!(challenge_param(&params, "realm").as_deref(), Some("https://auth.docker.io/token"));
    assert_eq!(challenge_param(&params, "service").as_deref(), Some("registry.docker.io"));
    assert_eq!(challenge_param(&params, "missing"), None);
    assert_eq!(
        token_url("https://auth.docker.io/token", Some("registry.docker.io"), Some("repository:library/nginx:pull")),
        "https://auth.docker.io/token?service=registry.docker.io&scope=repository:library/nginx:pull"
    );
    assert_eq!(token_url("https://a/token", None, None), "https://a/token");
}

#[test]
fn link_header_next_page() {
    assert_eq!(
        parse_link_next("</v2/nginx/tags/list?last=1.0&n=100>; rel=\"next\"", "https://registry-1.docker.io"),
        Some("https://registry-1.docker.io/v2/nginx/tags/list?last=1.0&n=100".to_string())
    );
    assert_eq!(
        parse_link_next("<https://other/v2/x?n=1>; rel=\"next\"", "https://base"),
        Some("https://other/v2/x?n=1".to_string())
    );
    assert_eq!(parse_link_next("<https://other/v2/x?n=1>; rel=\"prev\"", "https://base"), None);
}

#[test]
fn tags_become_versions() {
    let tags = vec!["latest".to_string(), "1.25".to_string(), "v2.0.1".to_string(), "alpine".to_string()];
    let versions = versions_from_tags(&tags);
    assert_eq!(versions.len(), 2);
    assert_eq!(versions[0].original_tag, "1.25");
    assert_eq!((versions[0].version.major, versions[0].version.minor), (1, 25));
    assert_eq!(versions[1].original_tag, "v2.0.1");
}

#[test]
fn token_response_prefers_token() {
    assert_eq!(token_from_response("h", Some("a".to_string()), Some("b".to_string())).unwrap(), "a");
    assert_eq!(token_from_response("h", None, Some("b".to_string())).unwrap(), "b");
    let err = token_from_response("h", None, None).unwrap_err();
    assert_eq!(err.message(), "Registry error for h: No token in response");
}

#[test]
fn basic_auth_header() {
    assert_eq!(basic_auth_value("user", "pass"), "Basic dXNlcjpwYXNz");
}

#[test]
fn docker_client_refuses_helm_repositories() {
    let helm = RegistrySource::HelmRepository { repo_url: "https://x".to_string(), chart_name: "c".to_string() };
    assert!(image_and_registry(&helm).is_err());
    let oci = RegistrySource::OciHelmRegistry { image: "r.io/c".to_string(), registry: Some("r.io".to_string()) };
    assert_eq!(image_and_registry(&oci).unwrap(), ("r.io/c".to_string(), Some("r.io".to_string())));
}

#[test]
fn helm_index_versions() {
    assert_eq!(index_url("https://charts.example.com/"), "https://charts.example.com/index.yaml");
    let body = "apiVersion: v1\nentries:\n  nginx:\n    - name: nginx\n      version: 1.2.3\n    - name: nginx\n      version: not-a-version\n    - name: nginx\n      version: 1.3.0\n";
    let versions = index_versions(body, "nginx", "https://charts.example.com").unwrap();
    let tags: Vec<&str> = versions.iter().map(|v| v.original_tag.as_str()).collect();
    assert_eq!(tags, vec!["1.2.3", "1.3.0"]);
    let err = index_versions(body, "redis", "https://charts.example.com").unwrap_err();
    assert_eq!(err.message(), "Registry error for https://charts.example.com: Chart 'redis' not found in index");
}
