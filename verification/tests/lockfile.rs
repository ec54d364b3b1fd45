use reforge::lockfile::extract_chart_url_from_index;
use reforge::lockfile::generate_chart_lock;
use reforge::lockfile::oci_manifest_url;
use reforge::lockfile::parse_chart_lock;
use reforge::lockfile::render_chart_lock;
use reforge::lockfile::content_digest;
use reforge::lockfile::update_chart_lock;
use reforge::lockfile::ChartLockDependency;

const SAMPLE_LOCK: &str = "\
dependencies:
- digest: sha256:aaaa
  name: ingress-nginx
  repository: https://kubernetes.github.io/ingress-nginx
  version: 4.8.3
- digest: sha256:bbbb
  name: redis
  repository: https://charts.bitnami.com/bitnami
  version: 18.4.0
digest: sha256:cccc
generated: \"2024-01-01T00:00:00.000000000Z\"
";

#[test]
fn test_parse_chart_lock() {
    let lock = parse_chart_lock(SAMPLE_LOCK).unwrap();
    assert_eq!(lock.dependencies.len(), 2);
    assert_eq!(lock.dependencies[0].name, "ingress-nginx");
    assert_eq!(lock.dependencies[0].version, "4.8.3");
    assert_eq!(lock.dependencies[1].name, "redis");
    assert_eq!(lock.dependencies[1].version, "18.4.0");
}

#[test]
fn test_generate_chart_lock() {
    let deps = vec![
        ChartLockDependency {
            name: "nginx".to_string(),
            repository: "https://charts.example.com".to_string(),
            version: "1.2.3".to_string(),
        },
    ];
    let digests = vec![("nginx".to_string(), "sha256:deadbeef".to_string())];

    let output = generate_chart_lock(&deps, &digests);
    assert!(output.contains("name: nginx"));
    assert!(output.contains("version: 1.2.3"));
    assert!(output.contains("digest: sha256:deadbeef"));
    assert!(output.contains("repository: https://charts.example.com"));
}

#[test]
fn test_update_chart_lock_version_and_digest() {
    let updated = update_chart_lock(SAMPLE_LOCK, "ingress-nginx", "4.9.0", "sha256:newdigest");
    assert!(updated.contains("version: 4.9.0"));
    assert!(updated.contains("digest: sha256:newdigest"));
    // The other dependency should be unchanged.
    assert!(updated.contains("version: 18.4.0"));
    assert!(updated.contains("digest: sha256:bbbb"));
}

#[test]
fn test_update_chart_lock_second_dep() {
    let updated = update_chart_lock(SAMPLE_LOCK, "redis", "19.0.0", "sha256:redisdigest");
    assert!(updated.contains("version: 19.0.0"));
    assert!(updated.contains("digest: sha256:redisdigest"));
    // The first dependency should be unchanged.
    assert!(updated.contains("version: 4.8.3"));
    assert!(updated.contains("digest: sha256:aaaa"));
}

#[test]
fn test_update_chart_lock_preserves_trailing_newline() {
    let updated = update_chart_lock(SAMPLE_LOCK, "redis", "19.0.0", "sha256:x");
    assert!(updated.ends_with('\n'));
}

#[test]
fn test_update_chart_lock_unknown_dep_unchanged() {
    let updated = update_chart_lock(SAMPLE_LOCK, "nonexistent", "1.0.0", "sha256:x");
    // No changes expected when the dep doesn't exist.
    assert!(updated.contains("version: 4.8.3"));
    assert!(updated.contains("version: 18.4.0"));
}

#[test]
fn sha256_of_known_input() {
    assert_eq!(
        content_digest(b"abc"),
        "sha256:ba7816bf8f01cfea414140de5dae2223b00361a396177a9cb410ff61f20015ad"
    );
}

#[test]
fn render_chart_lock_exact_layout() {
    let deps = vec![ChartLockDependency {
        name: "nginx".to_string(),
        repository: "https://charts.example.com".to_string(),
        version: "1.2.3".to_string(),
    }];
    let digests = vec![("nginx".to_string(), "sha256:deadbeef".to_string())];
    let out = render_chart_lock(&deps, &digests, "2024-01-01T00:00:00.000000000Z");
    let overall = content_digest(b"nginx:sha256:deadbeef");
    assert_eq!(
        out,
        format!(
            "dependencies:\n- digest: sha256:deadbeef\n  name: nginx\n  repository: https://charts.example.com\n  version: 1.2.3\ndigest: {}\ngenerated: \"2024-01-01T00:00:00.000000000Z\"\n",
            overall
        )
    );
    let lock = parse_chart_lock(&out).unwrap();
    assert_eq!(lock.dependencies.len(), 1);
    assert_eq!(lock.dependencies[0].repository, "https://charts.example.com");
}

#[test]
fn update_chart_lock_exact_block() {
    let updated = update_chart_lock(SAMPLE_LOCK, "redis", "19.0.0", "sha256:r");
    assert_eq!(
        updated,
        SAMPLE_LOCK.replace("- digest: sha256:bbbb", "- digest: sha256:r").replace("version: 18.4.0", "version: 19.0.0")
    );
}

#[test]
fn parse_chart_lock_rejects_bad_yaml() {
    assert!(parse_chart_lock("dependencies: [unclosed").is_err());
    assert!(parse_chart_lock("just a string").is_err());
}

#[test]
fn chart_url_lookup_in_index() {
    let index = "entries:\n  nginx:\n    - version: 1.2.3\n      urls:\n        - charts/nginx-1.2.3.tgz\n    - version: 1.2.4\n      urls:\n        - https://cdn.example.com/nginx-1.2.4.tgz\n";
    assert_eq!(
        extract_chart_url_from_index(index, "nginx", "1.2.3", "https://repo.example.com/").unwrap(),
        "https://repo.example.com/charts/nginx-1.2.3.tgz"
    );
    assert_eq!(
        extract_chart_url_from_index(index, "nginx", "1.2.4", "https://repo.example.com").unwrap(),
        "https://cdn.example.com/nginx-1.2.4.tgz"
    );
    let missing = extract_chart_url_from_index(index, "nginx", "9.9.9", "https://repo.example.com").unwrap_err();
    assert_eq!(missing.message(), "Registry error for https://repo.example.com: Version '9.9.9' of chart 'nginx' not found in index");
    let no_chart = extract_chart_url_from_index(index, "redis", "1.0.0", "https://repo.example.com").unwrap_err();
    assert_eq!(no_chart.message(), "Registry error for https://repo.example.com: Chart 'redis' not found in index");
}

#[test]
fn oci_manifest_url_strips_registry() {
    let (host, url) = oci_manifest_url("registry.example.com/charts/app", Some("registry.example.com"), "1.0.0");
    assert_eq!(host, "registry.example.com");
    assert_eq!(url, "https://registry.example.com/v2/charts/app/manifests/1.0.0");
    let (host2, url2) = oci_manifest_url("ghcr.io/org/app", None, "2.0.0");
    assert_eq!(host2, "ghcr.io");
    assert_eq!(url2, "https://ghcr.io/v2/org/app/manifests/2.0.0");
}

#[test]
fn render_chart_lock_ignores_digest_order() {
    let deps = vec![
        ChartLockDependency {
            name: "redis".to_string(),
            repository: "https://charts.bitnami.com/bitnami".to_string(),
            version: "18.4.0".to_string(),
        },
        ChartLockDependency {
            name: "nginx".to_string(),
            repository: "https://charts.example.com".to_string(),
            version: "1.2.3".to_string(),
        },
    ];
    let a = vec![
        ("redis".to_string(), "sha256:r".to_string()),
        ("nginx".to_string(), "sha256:n".to_string()),
    ];
    let b = vec![
        ("nginx".to_string(), "sha256:n".to_string()),
        ("redis".to_string(), "sha256:r".to_string()),
    ];
    let gen = "2024-01-01T00:00:00Z";
    assert_eq!(render_chart_lock(&deps, &a, gen), render_chart_lock(&deps, &b, gen));
    let expected_overall = content_digest(b"nginx:sha256:n,redis:sha256:r");
    assert!(render_chart_lock(&deps, &a, gen).contains(&format!("digest: {}\n", expected_overall)));
}

#[test]
fn update_chart_lock_matches_whole_name() {
    let lock = "dependencies:\n- digest: a\n  name: redis-cluster\n  version: 1.0.0\n- name: redis\n  version: 2.0.0\n";
    assert_eq!(
        update_chart_lock(lock, "redis", "3.0.0", "sha256:n"),
        "dependencies:\n- digest: a\n  name: redis-cluster\n  version: 1.0.0\n- name: redis\n  version: 3.0.0\n"
    );
}
