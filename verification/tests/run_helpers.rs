use reforge::config::RegexManagerConfig;
use reforge::config::RegistryCredential;
use reforge::dashboard::find_dashboard_issue;
use reforge::grouping::Group;
use reforge::manager::Dependency;
use reforge::manager::RegistrySource;
use reforge::manager::UpdateContext;
use reforge::orchestrator::group_file_commits;
use reforge::orchestrator::UpdateCandidate;
use reforge::platform::blob_entries;
use reforge::platform::gitlab::decode_file_content;
use reforge::platform::gitlab::next_page;
use reforge::platform::gitlab::retain_branch_prefix;
use reforge::platform::gitlab::tree_url;
use reforge::platform::gitlab::Issue;
use reforge::platform::gitlab::MergeRequest;
use reforge::platform::gitlab::TreeEntry;
use reforge::registry::helm::index_credential;
use reforge::registry::parse_version_lenient;
use reforge::registry::VersionInfo;
use reforge::replacement::check_dependencies_checked;
use reforge::replacement::is_resolvable;
use reforge::replacement::ReplacementDatabase;
use reforge::replacement::ReplacementRule;
use reforge::scan::Scanner;

fn dep(name: &str, version: &str, file: &str, ctx: UpdateContext) -> Dependency {
    Dependency {
        name: name.to_string(),
        current_version: version.to_string(),
        registry: RegistrySource::DockerRegistry { image: name.to_string(), registry: None },
        file_path: file.to_string(),
        update_context: ctx,
    }
}

fn cand(d: Dependency, tag: &str, content: &str) -> UpdateCandidate {
    UpdateCandidate {
        dependency: d,
        new_version: VersionInfo { version: parse_version_lenient(tag).unwrap(), original_tag: tag.to_string() },
        file_content: content.to_string(),
    }
}

fn mr(branch: &str) -> MergeRequest {
    MergeRequest {
        iid: 1,
        title: "t".to_string(),
        source_branch: branch.to_string(),
        target_branch: "main".to_string(),
        state: "opened".to_string(),
        web_url: "u".to_string(),
    }
}

#[test]
fn scanner_reads_files_per_manager() {
    let regex = RegexManagerConfig {
        name: "apps".to_string(),
        file_patterns: vec!["apps/*.yaml".to_string()],
        match_pattern: r"image:\s*(?P<depName>[^:\s]+):(?P<currentValue>\S+)".to_string(),
        datasource: "docker".to_string(),
        registry_url: None,
        versioning: None,
    };
    let broken = RegexManagerConfig { name: "broken".to_string(), match_pattern: "(".to_string(), ..regex.clone() };
    let (scanner, errors) = Scanner::new(&vec!["docker".to_string(), "npm".to_string()], &vec![regex, broken]);
    assert_eq!(errors.len(), 1);
    assert!(errors[0].message().contains("broken"));
    assert!(scanner.matches_any_pattern("svc/Dockerfile"));
    assert!(scanner.matches_any_pattern("apps/x.yaml"));
    assert!(!scanner.matches_any_pattern("svc/values.yaml"));
    let (deps, errs) = scanner.scan_file("svc/Dockerfile", "FROM nginx:1.25.3\n");
    assert!(errs.is_empty());
    assert_eq!(deps.len(), 1);
    assert_eq!(deps[0].name, "nginx");
    let (deps, _) = scanner.scan_file("apps/x.yaml", "image: redis:7.2\n");
    assert_eq!(deps.len(), 1);
    assert_eq!(deps[0].name, "redis");
    let (deps, errs) = scanner.scan_file("docker-compose.yaml", "services: [bad");
    assert!(deps.is_empty());
    assert_eq!(errs.len(), 1);
}

#[test]
fn file_commits_per_file() {
    let content = "FROM golang:1.22 AS b\nFROM alpine:3.19\n";
    let g = dep("golang", "1.22", "Dockerfile", UpdateContext::DockerFrom { line_number: 0, full_reference: "golang:1.22".to_string() });
    let a = dep("alpine", "3.19", "Dockerfile", UpdateContext::DockerFrom { line_number: 1, full_reference: "alpine:3.19".to_string() });
    let c = dep("redis", "18.4.0", "charts/app/Chart.yaml", UpdateContext::YamlKeyPath { keys: vec![] });
    let group = Group {
        name: "all".to_string(),
        candidates: vec![
            cand(g, "1.23", content),
            cand(c, "19.0.0", "dependencies:\n  - name: redis\n    version: 18.4.0\n"),
            cand(a, "3.20", content),
        ],
    };
    let commits = group_file_commits(&group, true);
    assert_eq!(commits.len(), 2);
    assert_eq!(commits[0].file_path, "Dockerfile");
    assert_eq!(commits[0].content, "FROM golang:1.23 AS b\nFROM alpine:3.20\n");
    assert_eq!(commits[0].message, "chore(deps): grouped update for 'all'");
    assert_eq!(commits[0].positions, vec![0, 2]);
    assert_eq!(commits[0].lock_path, None);
    assert_eq!(commits[1].content, "dependencies:\n  - name: redis\n    version: 19.0.0\n");
    assert_eq!(commits[1].message, "chore(deps): update redis from 18.4.0 to 19.0.0");
    assert_eq!(commits[1].names, vec!["redis".to_string()]);
    assert_eq!(commits[1].lock_path.as_deref(), Some("charts/app/Chart.lock"));
    assert_eq!(group_file_commits(&group, false)[1].lock_path, None);
}

#[test]
fn dashboard_issue_lookup() {
    let issue = |t: &str, iid: u64| Issue {
        iid,
        title: t.to_string(),
        description: None,
        web_url: String::new(),
        state: "opened".to_string(),
    };
    let issues = vec![issue("Other", 1), issue("Dependency Dashboard", 2), issue("Dependency Dashboard", 3)];
    assert_eq!(find_dashboard_issue(&issues), Some(1));
    assert_eq!(find_dashboard_issue(&vec![issue("Other", 1)]), None);
}

#[test]
fn gitlab_listing_helpers() {
    assert_eq!(next_page(Some("3"), 100, 100), Some(3));
    assert_eq!(next_page(Some("3"), 42, 100), None);
    assert_eq!(next_page(Some(""), 100, 100), None);
    assert_eq!(next_page(None, 100, 100), None);
    assert_eq!(
        tree_url("https://g", "a/b", "main", 100, 2, Some("charts"), true),
        "https://g/api/v4/projects/a%2Fb/repository/tree?ref=main&per_page=100&page=2&path=charts&recursive=true"
    );
    let kept = retain_branch_prefix(vec![mr("reforge/a"), mr("feature/b"), mr("reforge/c")], Some("reforge/"));
    let branches: Vec<&str> = kept.iter().map(|m| m.source_branch.as_str()).collect();
    assert_eq!(branches, vec!["reforge/a", "reforge/c"]);
    assert_eq!(retain_branch_prefix(vec![mr("x")], None).len(), 1);
    let entries = vec![
        TreeEntry { id: "1".to_string(), name: "a".to_string(), path: "a".to_string(), entry_type: "tree".to_string(), mode: "040000".to_string() },
        TreeEntry { id: "2".to_string(), name: "b".to_string(), path: "a/b".to_string(), entry_type: "blob".to_string(), mode: "100644".to_string() },
    ];
    let files = blob_entries(&entries);
    assert_eq!(files.len(), 1);
    assert_eq!(files[0].path, "a/b");
}

#[test]
fn file_content_decoding() {
    assert_eq!(decode_file_content("aGVs\nbG8=", "base64", "f").unwrap(), "hello");
    assert_eq!(decode_file_content("plain", "text", "f").unwrap(), "plain");
    let bad = decode_file_content("!!!", "base64", "f").unwrap_err();
    assert!(bad.message().starts_with("Failed to parse f: Base64 decode failed: "));
    let not_utf8 = decode_file_content("/w==", "base64", "f").unwrap_err();
    assert!(not_utf8.message().starts_with("Failed to parse f: UTF-8 decode failed: "));
}

#[test]
fn helm_credentials_by_host() {
    let cred = RegistryCredential { username: Some("u".to_string()), password_env: None, base_url: None };
    let creds = vec![("other.io".to_string(), cred.clone()), ("charts.example.com".to_string(), cred)];
    assert_eq!(index_credential("https://charts.example.com/stable/", &creds), Some(1));
    assert_eq!(index_credential("https://nowhere.example.com", &creds), None);
    assert_eq!(index_credential("not a url", &creds), None);
}

#[test]
fn replacement_resolvability() {
    let db = ReplacementDatabase {
        rules: vec![ReplacementRule {
            old_name: "**".to_string(),
            new_name: "new/*".to_string(),
            old_registry: None,
            new_registry: None,
            reason: None,
            deprecated_only: false,
        }],
    };
    let ok = dep("ax", "1.0.0", "Dockerfile", UpdateContext::DockerFrom { line_number: 0, full_reference: String::new() });
    let cut = dep("éx", "1.0.0", "Dockerfile", UpdateContext::DockerFrom { line_number: 0, full_reference: String::new() });
    assert!(is_resolvable(&ok, &db));
    assert!(!is_resolvable(&cut, &db));
    assert!(check_dependencies_checked(&[cut], &db).is_none());
    let actions = check_dependencies_checked(&[ok], &db).unwrap();
    assert_eq!(actions.len(), 1);
}

#[test]
fn scanned_dependencies_record_their_file() {
    let (scanner, _) = Scanner::new(&vec!["docker".to_string(), "helm".to_string()], &vec![]);
    let (deps, _) = scanner.scan_file("svc/values.yaml", "a:\n  image:\n    repository: nginx\n    tag: 1.0.0\nb:\n  repository: redis\n  tag: 7.0.0\n");
    assert_eq!(deps.len(), 2);
    assert!(deps.iter().all(|d| d.file_path == "svc/values.yaml"));
}
