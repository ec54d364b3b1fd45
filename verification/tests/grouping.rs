use reforge::config::GroupBy;
use reforge::config::GroupingRule;
use reforge::grouping::group_candidates;
use reforge::grouping::rule_matches;
use reforge::grouping::sub_group_key;
use reforge::manager::Dependency;
use reforge::manager::RegistrySource;
use reforge::manager::UpdateContext;
use reforge::orchestrator::UpdateCandidate;
use reforge::registry::parse_version_lenient;
use reforge::registry::SemVer;
use reforge::registry::VersionInfo;

fn make_candidate(
    name: &str,
    current: &str,
    new_ver: &str,
    file_path: &str,
    registry: RegistrySource,
) -> UpdateCandidate {
    let version = parse_version_lenient(new_ver).unwrap_or(SemVer {
        major: 0,
        minor: 0,
        patch: 0,
        pre: String::new(),
        build: String::new(),
    });
    UpdateCandidate {
        dependency: Dependency {
            name: name.to_string(),
            current_version: current.to_string(),
            registry,
            file_path: file_path.to_string(),
            update_context: UpdateContext::YamlKeyPath { keys: vec!["tag".to_string()] },
        },
        new_version: VersionInfo { original_tag: new_ver.to_string(), version },
        file_content: String::new(),
    }
}

fn docker_registry(image: &str) -> RegistrySource {
    RegistrySource::DockerRegistry { image: image.to_string(), registry: None }
}

fn helm_registry(repo: &str, chart: &str) -> RegistrySource {
    RegistrySource::HelmRepository { repo_url: repo.to_string(), chart_name: chart.to_string() }
}

#[test]
fn per_dependency_default() {
    let candidates = vec![
        make_candidate("nginx", "1.25.0", "1.26.0", "Dockerfile", docker_registry("nginx")),
        make_candidate("redis", "7.0.0", "7.2.0", "Dockerfile", docker_registry("redis")),
    ];
    let groups = group_candidates(candidates, &[], "per-dependency");
    assert_eq!(groups.len(), 2);
    assert!(groups.iter().any(|g| g.name.contains("nginx")));
    assert!(groups.iter().any(|g| g.name.contains("redis")));
    for g in &groups {
        assert_eq!(g.candidates.len(), 1);
    }
}

#[test]
fn grouped_default_merges_unmatched() {
    let candidates = vec![
        make_candidate("nginx", "1.25.0", "1.26.0", "Dockerfile", docker_registry("nginx")),
        make_candidate("redis", "7.0.0", "7.2.0", "Dockerfile", docker_registry("redis")),
    ];
    let groups = group_candidates(candidates, &[], "grouped");
    assert_eq!(groups.len(), 1);
    assert_eq!(groups[0].name, "all");
    assert_eq!(groups[0].candidates.len(), 2);
}

#[test]
fn rule_by_pattern_groups_all_matches() {
    let rule = GroupingRule {
        name: "infra".to_string(),
        match_patterns: vec!["nginx".to_string(), "redis".to_string()],
        group_by: GroupBy::Pattern,
        separate_major: false,
    };
    let candidates = vec![
        make_candidate("nginx", "1.25.0", "1.26.0", "Dockerfile", docker_registry("nginx")),
        make_candidate("redis", "7.0.0", "7.2.0", "Dockerfile", docker_registry("redis")),
        make_candidate("postgres", "15.0.0", "16.0.0", "docker-compose.yaml", docker_registry("postgres")),
    ];
    let groups = group_candidates(candidates, &[rule], "per-dependency");
    // "infra" group + 1 per-dep group for postgres
    assert_eq!(groups.len(), 2);
    let infra = groups.iter().find(|g| g.name == "infra").unwrap();
    assert_eq!(infra.candidates.len(), 2);
}

#[test]
fn rule_by_update_type() {
    let rule = GroupingRule {
        name: "deps".to_string(),
        match_patterns: vec![],
        group_by: GroupBy::UpdateType,
        separate_major: false,
    };
    let candidates = vec![
        make_candidate("nginx", "1.25.0", "1.25.1", "Dockerfile", docker_registry("nginx")),
        make_candidate("redis", "7.0.0", "7.0.1", "Dockerfile", docker_registry("redis")),
        make_candidate("postgres", "15.0.0", "15.1.0", "Dockerfile", docker_registry("postgres")),
    ];
    let groups = group_candidates(candidates, &[rule], "per-dependency");
    // patch group + minor group
    assert_eq!(groups.len(), 2);
    let patch = groups.iter().find(|g| g.name == "deps-patch").unwrap();
    assert_eq!(patch.candidates.len(), 2);
    let minor = groups.iter().find(|g| g.name == "deps-minor").unwrap();
    assert_eq!(minor.candidates.len(), 1);
}

#[test]
fn rule_by_manager() {
    let rule = GroupingRule {
        name: "all-deps".to_string(),
        match_patterns: vec![],
        group_by: GroupBy::Manager,
        separate_major: false,
    };
    let candidates = vec![
        make_candidate("nginx", "1.25.0", "1.26.0", "Dockerfile", docker_registry("nginx")),
        make_candidate("my-chart", "0.1.0", "0.2.0", "charts/values.yaml", helm_registry("https://charts.example.com", "my-chart")),
    ];
    let groups = group_candidates(candidates, &[rule], "per-dependency");
    assert_eq!(groups.len(), 2);
    assert!(groups.iter().any(|g| g.name == "all-deps-docker"));
    assert!(groups.iter().any(|g| g.name == "all-deps-helm"));
}

#[test]
fn separate_major_splits_into_own_group() {
    let rule = GroupingRule {
        name: "deps".to_string(),
        match_patterns: vec![],
        group_by: GroupBy::Pattern,
        separate_major: true,
    };
    let candidates = vec![
        make_candidate("nginx", "1.25.0", "1.26.0", "Dockerfile", docker_registry("nginx")),
        make_candidate("redis", "7.0.0", "8.0.0", "Dockerfile", docker_registry("redis")),
    ];
    let groups = group_candidates(candidates, &[rule], "per-dependency");
    assert_eq!(groups.len(), 2);
    assert!(groups.iter().any(|g| g.name == "deps"));
    assert!(groups.iter().any(|g| g.name == "deps-major"));
    let major = groups.iter().find(|g| g.name == "deps-major").unwrap();
    assert_eq!(major.candidates[0].dependency.name, "redis");
}

#[test]
fn rule_by_path() {
    let rule = GroupingRule {
        name: "by-path".to_string(),
        match_patterns: vec![],
        group_by: GroupBy::Path,
        separate_major: false,
    };
    let candidates = vec![
        make_candidate("nginx", "1.25.0", "1.26.0", "services/web/Dockerfile", docker_registry("nginx")),
        make_candidate("redis", "7.0.0", "7.2.0", "services/cache/Dockerfile", docker_registry("redis")),
        make_candidate("postgres", "15.0.0", "16.0.0", "services/web/docker-compose.yaml", docker_registry("postgres")),
    ];
    let groups = group_candidates(candidates, &[rule], "per-dependency");
    assert_eq!(groups.len(), 2);
    let web = groups.iter().find(|g| g.name.contains("web")).unwrap();
    assert_eq!(web.candidates.len(), 2);
    let cache = groups.iter().find(|g| g.name.contains("cache")).unwrap();
    assert_eq!(cache.candidates.len(), 1);
}

#[test]
fn first_matching_rule_wins() {
    let rule1 = GroupingRule {
        name: "nginx-group".to_string(),
        match_patterns: vec!["nginx".to_string()],
        group_by: GroupBy::Pattern,
        separate_major: false,
    };
    let rule2 = GroupingRule {
        name: "all".to_string(),
        match_patterns: vec![],
        group_by: GroupBy::Pattern,
        separate_major: false,
    };
    let candidates = vec![
        make_candidate("nginx", "1.25.0", "1.26.0", "Dockerfile", docker_registry("nginx")),
        make_candidate("redis", "7.0.0", "7.2.0", "Dockerfile", docker_registry("redis")),
    ];
    let groups = group_candidates(candidates, &[rule1, rule2], "per-dependency");
    assert_eq!(groups.len(), 2);
    let ng = groups.iter().find(|g| g.name == "nginx-group").unwrap();
    assert_eq!(ng.candidates.len(), 1);
    assert_eq!(ng.candidates[0].dependency.name, "nginx");
    let all = groups.iter().find(|g| g.name == "all").unwrap();
    assert_eq!(all.candidates.len(), 1);
    assert_eq!(all.candidates[0].dependency.name, "redis");
}

#[test]
fn sub_group_keys_per_mode() {
    let c = make_candidate("nginx", "1.25.0", "2.0.0", "services/web/Dockerfile", docker_registry("nginx"));
    let mut rule = GroupingRule {
        name: "g".to_string(),
        match_patterns: vec![],
        group_by: GroupBy::Pattern,
        separate_major: false,
    };
    assert_eq!(sub_group_key(&rule, &c), "");
    rule.group_by = GroupBy::UpdateType;
    assert_eq!(sub_group_key(&rule, &c), "major");
    rule.group_by = GroupBy::Manager;
    assert_eq!(sub_group_key(&rule, &c), "docker");
    rule.group_by = GroupBy::Path;
    assert_eq!(sub_group_key(&rule, &c), "services-web");
}

#[test]
fn rule_matches_uses_globs() {
    let c = make_candidate("myorg/nginx", "1.0.0", "1.1.0", "Dockerfile", docker_registry("myorg/nginx"));
    let rule = GroupingRule {
        name: "g".to_string(),
        match_patterns: vec!["redis".to_string(), "myorg/**".to_string()],
        group_by: GroupBy::Pattern,
        separate_major: false,
    };
    assert!(rule_matches(&rule, &c));
    let other = GroupingRule { match_patterns: vec!["redis".to_string()], ..rule.clone() };
    assert!(!rule_matches(&other, &c));
    let empty = GroupingRule { match_patterns: vec![], ..rule };
    assert!(rule_matches(&empty, &c));
}

#[test]
fn every_candidate_in_exactly_one_group() {
    let rule = GroupingRule {
        name: "infra".to_string(),
        match_patterns: vec!["nginx".to_string(), "redis".to_string()],
        group_by: GroupBy::UpdateType,
        separate_major: true,
    };
    let names = ["nginx", "redis", "postgres", "nginx", "mysql"];
    let candidates: Vec<UpdateCandidate> = names
        .iter()
        .enumerate()
        .map(|(i, n)| make_candidate(n, "1.0.0", if i % 2 == 0 { "2.0.0" } else { "1.1.0" }, "Dockerfile", docker_registry(n)))
        .collect();
    for grouping in ["grouped", "per-dependency"] {
        let input: Vec<UpdateCandidate> = candidates.iter().map(|c| c.duplicate()).collect();
        let groups = group_candidates(input, &[rule.clone()], grouping);
        let mut seen: Vec<String> = groups
            .iter()
            .flat_map(|g| g.candidates.iter().map(|c| format!("{}@{}", c.dependency.name, c.new_version.original_tag)))
            .collect();
        let mut expected: Vec<String> =
            candidates.iter().map(|c| format!("{}@{}", c.dependency.name, c.new_version.original_tag)).collect();
        seen.sort();
        expected.sort();
        assert_eq!(seen, expected);
    }
}
