use reforge::config::default_branch_prefix;
use reforge::config::default_changelog_max_length;
use reforge::config::default_gitlab_url;
use reforge::config::default_grouping;
use reforge::config::default_managers;
use reforge::config::default_pin_strategy;
use reforge::config::CliOverrides;
use reforge::config::Config;
use reforge::config::EnvValues;
use reforge::config::RegexManagerConfig;
use reforge::config::StaleMrStrategy;

fn no_env() -> EnvValues {
    EnvValues {
        reforge_gitlab_url: None,
        renovate_gitlab_url: None,
        reforge_token: None,
        renovate_token: None,
        github_token: None,
    }
}

fn no_cli() -> CliOverrides {
    CliOverrides { token: None, gitlab_url: None, repo: None, local_path: None }
}

fn regex_config(pattern: &str, datasource: &str) -> RegexManagerConfig {
    RegexManagerConfig {
        name: "m".to_string(),
        file_patterns: vec!["*.yaml".to_string()],
        match_pattern: pattern.to_string(),
        datasource: datasource.to_string(),
        registry_url: None,
        versioning: None,
    }
}

#[test]
fn defaults() {
    assert_eq!(default_gitlab_url(), "https://gitlab.com");
    assert_eq!(default_managers(), vec!["helm".to_string(), "docker".to_string()]);
    assert_eq!(default_pin_strategy(), "semver-minor");
    assert_eq!(default_branch_prefix(), "reforge/");
    assert_eq!(default_grouping(), "per-dependency");
    assert_eq!(default_changelog_max_length(), 2000);
}

#[test]
fn from_cli_layers_environment() {
    let env = EnvValues {
        reforge_gitlab_url: None,
        renovate_gitlab_url: Some("https://renovate.example".to_string()),
        reforge_token: Some("t1".to_string()),
        renovate_token: Some("t2".to_string()),
        github_token: Some("gh".to_string()),
    };
    let c = Config::from_cli(
        CliOverrides { token: None, gitlab_url: None, repo: Some("g/p".to_string()), local_path: None },
        &env,
    )
    .unwrap();
    assert_eq!(c.gitlab.url, "https://renovate.example");
    assert_eq!(c.gitlab.token.as_deref(), Some("t1"));
    assert_eq!(c.scan.projects, vec!["g/p".to_string()]);
    assert_eq!(c.changelog.github_token.as_deref(), Some("gh"));
    assert_eq!(c.merge_request.stale_mr_strategy, StaleMrStrategy::Rebase);
    let d = Config::from_cli(no_cli(), &no_env()).unwrap();
    assert_eq!(d.gitlab.url, "https://gitlab.com");
    assert!(d.gitlab.token.is_none());
    assert!(d.scan.projects.is_empty());
}

#[test]
fn apply_overrides_cli_wins() {
    let mut c = Config::from_cli(no_cli(), &no_env()).unwrap();
    c.gitlab.token = Some("file-token".to_string());
    let env = EnvValues { reforge_token: Some("env-token".to_string()), ..no_env() };
    c.apply_overrides(
        CliOverrides {
            token: None,
            gitlab_url: Some("https://cli.example".to_string()),
            repo: None,
            local_path: Some("/src".to_string()),
        },
        &env,
    )
    .unwrap();
    assert_eq!(c.gitlab.token.as_deref(), Some("file-token"));
    assert_eq!(c.gitlab.url, "https://cli.example");
    assert_eq!(c.local_path.as_deref(), Some("/src"));
}

#[test]
fn apply_overrides_reports_invalid_regex_manager() {
    let mut c = Config::from_cli(no_cli(), &no_env()).unwrap();
    c.regex_managers.push(regex_config(r"(?P<depName>\S+) (?P<currentValue>\S+)", "docker"));
    c.regex_managers.push(regex_config(r"(?P<depName>\S+)", "docker"));
    let err = c.apply_overrides(no_cli(), &no_env()).unwrap_err();
    assert!(err.message().contains("currentValue"));
}

#[test]
fn validate_messages() {
    assert!(regex_config(r"(?P<depName>\S+) (?P<currentValue>\S+)", "helm-repo").validate().is_ok());
    assert_eq!(
        regex_config(r"(?P<depName>\S+) (?P<currentValue>\S+)", "npm").validate().unwrap_err().message(),
        "Configuration error: regex_manager 'm': unknown datasource 'npm'; expected docker, helm-oci, or helm-repo"
    );
    assert_eq!(
        regex_config(r"(?P<currentValue>\S+)", "docker").validate().unwrap_err().message(),
        "Configuration error: regex_manager 'm': match_pattern is missing required named capture group '(?P<depName>...)'"
    );
}

#[test]
fn apply_overrides_keeps_other_settings() {
    let mut c = Config::from_cli(no_cli(), &no_env()).unwrap();
    c.merge_request.branch_prefix = "deps/".to_string();
    c.changelog.max_length = 123;
    c.gitlab.insecure = true;
    c.apply_overrides(no_cli(), &EnvValues { github_token: Some("gh".to_string()), ..no_env() }).unwrap();
    assert_eq!(c.merge_request.branch_prefix, "deps/");
    assert_eq!(c.changelog.max_length, 123);
    assert_eq!(c.changelog.github_token.as_deref(), Some("gh"));
    assert!(c.gitlab.insecure);

    let mut bad = Config::from_cli(no_cli(), &no_env()).unwrap();
    bad.regex_managers.push(regex_config(r"(?P<depName>\S+)", "docker"));
    assert!(bad.apply_overrides(no_cli(), &EnvValues { github_token: Some("gh".to_string()), ..no_env() }).is_err());
    assert_eq!(bad.changelog.github_token, None);
}
