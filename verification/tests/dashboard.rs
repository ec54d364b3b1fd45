use reforge::dashboard::build_statuses;
use reforge::dashboard::render_dashboard;
use reforge::dashboard::update_branch_name;
use reforge::dashboard::DependencyState;
use reforge::dashboard::DependencyStatus;
use reforge::dashboard::DASHBOARD_TITLE;
use reforge::manager::Dependency;
use reforge::manager::RegistrySource;
use reforge::manager::UpdateContext;
use reforge::orchestrator::UpdateCandidate;
use reforge::platform::gitlab::MergeRequest;
use reforge::registry::parse_version_lenient;
use reforge::registry::VersionInfo;

const DASHBOARD_MARKER: &str = "<!-- reforge-dashboard -->";

fn make_status(
    name: &str,
    manager: &str,
    current: &str,
    new_ver: Option<&str>,
    state: DependencyState,
    mr_url: Option<&str>,
    mr_iid: Option<u64>,
) -> DependencyStatus {
    DependencyStatus {
        name: name.to_string(),
        manager: manager.to_string(),
        current_version: current.to_string(),
        new_version: new_ver.map(|s| s.to_string()),
        file_path: "chart/values.yaml".to_string(),
        mr_url: mr_url.map(|s| s.to_string()),
        mr_iid,
        state,
    }
}

fn docker_dep(name: &str, version: &str) -> Dependency {
    Dependency {
        name: name.to_string(),
        current_version: version.to_string(),
        registry: RegistrySource::DockerRegistry { image: name.to_string(), registry: None },
        file_path: "Dockerfile".to_string(),
        update_context: UpdateContext::DockerFrom {
            line_number: 0,
            full_reference: format!("{}:{}", name, version),
        },
    }
}

fn candidate(dep: Dependency, tag: &str) -> UpdateCandidate {
    UpdateCandidate {
        dependency: dep,
        new_version: VersionInfo {
            version: parse_version_lenient(tag).unwrap(),
            original_tag: tag.to_string(),
        },
        file_content: String::new(),
    }
}

#[test]
fn render_empty_dashboard() {
    let body = render_dashboard(&[], "my-group/my-project");
    assert!(body.contains(DASHBOARD_MARKER));
    assert!(body.contains("Dependency Dashboard"));
    assert!(!body.contains("Pending Updates"));
    assert!(!body.contains("Open MRs"));
}

#[test]
fn render_pending_updates_table() {
    let statuses = vec![make_status(
        "nginx",
        "docker",
        "1.24.0",
        Some("1.25.0"),
        DependencyState::PendingUpdate,
        None,
        None,
    )];
    let body = render_dashboard(&statuses, "my-project");
    assert!(body.contains("### Pending Updates"));
    assert!(body.contains("`nginx`"));
    assert!(body.contains("1.24.0"));
    assert!(body.contains("**1.25.0**"));
    assert!(body.contains("- [ ]"));
}

#[test]
fn render_open_mr_with_link() {
    let statuses = vec![make_status(
        "alpine",
        "docker",
        "3.17.0",
        Some("3.18.0"),
        DependencyState::OpenMr,
        Some("https://gitlab.com/group/proj/-/merge_requests/42"),
        Some(42),
    )];
    let body = render_dashboard(&statuses, "my-project");
    assert!(body.contains("### Open MRs"));
    assert!(body.contains("[!42]"));
    assert!(body.contains("https://gitlab.com/group/proj/-/merge_requests/42"));
}

#[test]
fn render_up_to_date_in_details() {
    let statuses = vec![make_status("redis", "docker", "7.0.0", None, DependencyState::UpToDate, None, None)];
    let body = render_dashboard(&statuses, "my-project");
    assert!(body.contains("<details>"));
    assert!(body.contains("`redis`"));
    assert!(!body.contains("### Pending Updates"));
}

#[test]
fn render_mixed_statuses_ordering() {
    let statuses = vec![
        make_status("zz-last", "helm", "1.0.0", None, DependencyState::UpToDate, None, None),
        make_status("aa-first", "docker", "2.0.0", Some("3.0.0"), DependencyState::PendingUpdate, None, None),
        make_status(
            "bb-mr",
            "docker",
            "1.0.0",
            Some("1.1.0"),
            DependencyState::OpenMr,
            Some("https://gitlab.com/-/mr/1"),
            Some(1),
        ),
    ];
    let body = render_dashboard(&statuses, "project");
    let pending_pos = body.find("### Pending Updates").unwrap();
    let mr_pos = body.find("### Open MRs").unwrap();
    let details_pos = body.find("<details>").unwrap();
    assert!(pending_pos < mr_pos);
    assert!(mr_pos < details_pos);
}

#[test]
fn dashboard_contains_reforge_marker() {
    let body = render_dashboard(&[], "project");
    assert!(body.starts_with(DASHBOARD_MARKER));
    assert!(body.contains(DASHBOARD_TITLE));
}

#[test]
fn branch_name_replaces_slashes() {
    let dep = docker_dep("myorg/app", "1.0.0");
    assert_eq!(update_branch_name("reforge/", &dep, "1.1.0"), "reforge/docker-myorg-app-1.1.0");
}

#[test]
fn statuses_sorted_pending_then_mr_then_current() {
    let all = vec![
        (docker_dep("redis", "7.0.0"), String::new()),
        (docker_dep("nginx", "1.24.0"), String::new()),
        (docker_dep("alpine", "3.17.0"), String::new()),
    ];
    let cands = vec![
        candidate(docker_dep("nginx", "1.24.0"), "1.25.0"),
        candidate(docker_dep("alpine", "3.17.0"), "3.18.0"),
    ];
    let mrs = vec![MergeRequest {
        iid: 7,
        title: "Update alpine".to_string(),
        source_branch: "reforge/docker-alpine-3.18.0".to_string(),
        target_branch: "main".to_string(),
        state: "opened".to_string(),
        web_url: "https://gitlab.example/mr/7".to_string(),
    }];
    let statuses = build_statuses(&all, &cands, &mrs, "reforge/");
    let names: Vec<&str> = statuses.iter().map(|s| s.name.as_str()).collect();
    assert_eq!(names, vec!["nginx", "alpine", "redis"]);
    assert_eq!(statuses[0].state, DependencyState::PendingUpdate);
    assert_eq!(statuses[0].new_version.as_deref(), Some("1.25.0"));
    assert_eq!(statuses[1].state, DependencyState::OpenMr);
    assert_eq!(statuses[1].mr_iid, Some(7));
    assert_eq!(statuses[1].mr_url.as_deref(), Some("https://gitlab.example/mr/7"));
    assert_eq!(statuses[2].state, DependencyState::UpToDate);
    assert_eq!(statuses[2].manager, "docker");
}
