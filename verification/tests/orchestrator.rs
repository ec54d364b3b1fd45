use reforge::config::AutomergePolicy;
use reforge::config::UpdateTypeFilter;
use reforge::grouping::Group;
use reforge::manager::Dependency;
use reforge::manager::RegistrySource;
use reforge::manager::UpdateContext;
use reforge::orchestrator::apply_lock_updates;
use reforge::orchestrator::branch_name_for;
use reforge::orchestrator::branch_name_for_group;
use reforge::orchestrator::build_group_mr_content;
use reforge::orchestrator::candidates_by_file;
use reforge::orchestrator::chart_lock_path;
use reforge::orchestrator::commit_message;
use reforge::orchestrator::dry_run_report;
use reforge::orchestrator::enabled_managers;
use reforge::orchestrator::file_content_for;
use reforge::orchestrator::file_matches_manager_at;
use reforge::orchestrator::group_branch;
use reforge::orchestrator::group_step;
use reforge::orchestrator::lock_commit_message;
use reforge::orchestrator::migration_labels;
use reforge::orchestrator::migration_texts;
use reforge::orchestrator::registry_source_text;
use reforge::orchestrator::replacement_branch_name;
use reforge::orchestrator::use_automerge;
use reforge::orchestrator::BuiltinManager;
use reforge::orchestrator::GroupStep;
use reforge::orchestrator::UpdateCandidate;
use reforge::registry::parse_version_lenient;
use reforge::registry::VersionInfo;

fn cand(name: &str, current: &str, new_ver: &str, file: &str) -> UpdateCandidate {
    UpdateCandidate {
        dependency: Dependency {
            name: name.to_string(),
            current_version: current.to_string(),
            registry: RegistrySource::DockerRegistry { image: name.to_string(), registry: None },
            file_path: file.to_string(),
            update_context: UpdateContext::DockerFrom { line_number: 0, full_reference: String::new() },
        },
        new_version: VersionInfo { version: parse_version_lenient(new_ver).unwrap(), original_tag: new_ver.to_string() },
        file_content: String::new(),
    }
}

#[test]
fn branch_names() {
    let c = cand("myorg/app", "1.0.0", "1.1.0", "Dockerfile");
    assert_eq!(branch_name_for("reforge/", &c.dependency, &c.new_version), "reforge/docker-myorg-app-1.1.0");
    let g = branch_name_for_group("reforge/", "infra deps");
    assert!(g.starts_with("reforge/group-infra-deps-"));
    assert_eq!(g.len(), "reforge/group-infra-deps-".len() + 8);
    assert_eq!(g, branch_name_for_group("reforge/", "infra deps"));
    let single = Group { name: "x".to_string(), candidates: vec![cand("nginx", "1.0.0", "1.0.1", "Dockerfile")] };
    assert_eq!(group_branch("reforge/", &single), "reforge/docker-nginx-1.0.1");
    let r = replacement_branch_name("reforge/", "lib/nginx", "a", "b");
    assert!(r.starts_with("reforge/replace-lib-nginx-"));
    assert_eq!(r.len(), "reforge/replace-lib-nginx-".len() + 8);
}

#[test]
fn chart_lock_paths() {
    assert_eq!(chart_lock_path("charts/app/Chart.yaml"), "charts/app/Chart.lock");
    assert_eq!(chart_lock_path("Chart.yaml"), "Chart.lock");
}

#[test]
fn files_and_messages() {
    let cands = vec![
        cand("a", "1.0.0", "1.0.1", "Dockerfile"),
        cand("b", "1.0.0", "1.1.0", "values.yaml"),
        cand("c", "2.0.0", "3.0.0", "Dockerfile"),
    ];
    let files = candidates_by_file(&cands);
    assert_eq!(files.len(), 2);
    assert_eq!(files[0].0, "Dockerfile");
    assert_eq!(files[0].1, vec![0, 2]);
    assert_eq!(files[1].0, "values.yaml");
    assert_eq!(files[1].1, vec![1]);
    assert_eq!(commit_message("g", &cands, &vec![1]), "chore(deps): update b from 1.0.0 to 1.1.0");
    assert_eq!(commit_message("g", &cands, &vec![0, 2]), "chore(deps): grouped update for 'g'");
    assert_eq!(
        lock_commit_message(&vec!["a".to_string(), "b".to_string()]),
        "chore(deps): update Chart.lock for a, b"
    );
}

#[test]
fn lock_updates_in_turn() {
    let lock = "dependencies:\n- digest: sha256:aaaa\n  name: redis\n  version: 1.0.0\n";
    let out = apply_lock_updates(lock, &vec![("redis".to_string(), "2.0.0".to_string(), "sha256:bbbb".to_string())]);
    assert_eq!(out, "dependencies:\n- digest: sha256:bbbb\n  name: redis\n  version: 2.0.0\n");
}

#[test]
fn automerge_for_groups() {
    let one = vec![cand("nginx", "1.0.0", "1.0.1", "Dockerfile")];
    let two = vec![cand("nginx", "1.0.0", "1.0.1", "Dockerfile"), cand("redis", "1.0.0", "1.0.1", "Dockerfile")];
    let policies = vec![AutomergePolicy {
        match_pattern: "*".to_string(),
        update_types: vec![UpdateTypeFilter::Patch],
        enabled: true,
        minimum_age_days: None,
    }];
    assert!(use_automerge(&one, &policies, false));
    assert!(!use_automerge(&two, &policies, false));
    assert!(use_automerge(&two, &policies, true));
    assert!(!use_automerge(&one, &vec![], false));
}

#[test]
fn group_mr_content() {
    let g = Group { name: "x".to_string(), candidates: vec![cand("nginx", "1.0.0", "1.0.1", "Dockerfile")] };
    let (title, body) = build_group_mr_content(&g, Some("notes"), 2000);
    assert_eq!(title, "chore(deps): update nginx to 1.0.1");
    assert!(body.starts_with("## Dependency Update\n\n| Package | Manager | File | Current | New |\n"));
    assert!(body.contains("| nginx | docker | Dockerfile | 1.0.0 | 1.0.1 |\n"));
    assert!(body.contains("<details>\n<summary>Release Notes</summary>\n\nnotes\n\n</details>"));
    assert!(body.ends_with("*This MR was automatically created by reforge.*"));
    let (_, plain) = build_group_mr_content(&g, Some(""), 2000);
    assert!(!plain.contains("<details>"));
}

#[test]
fn group_steps() {
    let branches = vec!["reforge/a".to_string()];
    assert_eq!(group_step(0, 5, 0, "reforge/b", &branches), GroupStep::Skip);
    assert_eq!(group_step(1, 2, 2, "reforge/b", &branches), GroupStep::Stop);
    assert_eq!(group_step(1, 5, 0, "reforge/a", &branches), GroupStep::Skip);
    assert_eq!(group_step(1, 5, 0, "reforge/b", &branches), GroupStep::Create);
}

#[test]
fn manager_file_matching() {
    let docker = vec!["Dockerfile", "Dockerfile.*", "docker-compose.yml"];
    assert!(file_matches_manager_at("app/Dockerfile", &docker, None));
    assert!(file_matches_manager_at("app/Dockerfile.prod", &docker, None));
    assert!(!file_matches_manager_at("app/values.yaml", &docker, None));
    let none: Vec<&str> = vec![];
    let regex = vec!["*.yaml".to_string()];
    assert!(file_matches_manager_at("apps/x/app.yaml", &none, Some(&regex)));
    assert!(!file_matches_manager_at("apps/x/app.json", &none, Some(&regex)));
    assert!(!file_matches_manager_at("apps/x/app.yaml", &none, None));
}

#[test]
fn dry_run_reports() {
    assert_eq!(dry_run_report(&vec![]), "\nNo updates available.\n");
    let report = dry_run_report(&vec![cand("nginx", "1.0.0", "1.0.1", "Dockerfile")]);
    assert!(report.contains("Dependency Update Report (dry-run)"));
    assert!(report.contains("nginx"));
    assert!(report.contains("1.0.1"));
}

#[test]
fn migration_helpers() {
    let (commit, title) = migration_texts("nginx", "docker.io/library/nginx", "docker.io/nginxinc/nginx-unprivileged");
    assert_eq!(commit, "chore(deps): migrate nginx from docker.io/library/nginx to docker.io/nginxinc/nginx-unprivileged");
    assert_eq!(title, "chore(deps): migrate nginx to docker.io/nginxinc/nginx-unprivileged");
    assert_eq!(migration_labels(&vec!["deps".to_string()]), vec!["deps".to_string(), "replacement".to_string()]);
}

#[test]
fn scan_helpers() {
    assert_eq!(
        enabled_managers(&vec!["helm".to_string(), "npm".to_string(), "docker".to_string()]),
        vec![BuiltinManager::Helm, BuiltinManager::Docker]
    );
    let c = cand("nginx", "1.0.0", "1.0.1", "Dockerfile");
    let all = vec![(c.dependency.duplicate(), "FROM nginx:1.0.0\n".to_string())];
    assert_eq!(file_content_for(&all, "nginx", "Dockerfile"), "FROM nginx:1.0.0\n");
    assert_eq!(file_content_for(&all, "nginx", "other"), "");
    assert_eq!(
        registry_source_text(&RegistrySource::HelmRepository { repo_url: "https://c".to_string(), chart_name: "x".to_string() }),
        "https://c/x"
    );
}
