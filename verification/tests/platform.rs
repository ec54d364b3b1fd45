use reforge::error::ReforgeError;
use reforge::platform::git::git_failure;
use reforge::platform::git::parse_branch_list;
use reforge::platform::git::parse_listed_paths;
use reforge::platform::git::parse_log;
use reforge::platform::git::parse_origin_head;
use reforge::platform::git::GitRepo;
use reforge::platform::gitlab::api_url;
use reforge::platform::gitlab::base_url;
use reforge::platform::gitlab::encode;
use reforge::platform::gitlab::encode_project;
use reforge::platform::gitlab::retry_step;
use reforge::platform::gitlab::AttemptOutcome;
use reforge::platform::gitlab::RetryStep;
use reforge::platform::LocalGitSource;

fn response(status: u16, retry_after: Option<&str>) -> AttemptOutcome {
    AttemptOutcome::Response { status, retry_after: retry_after.map(|s| s.to_string()) }
}

#[test]
fn gitlab_urls() {
    assert_eq!(base_url("https://gitlab.example.com//"), "https://gitlab.example.com");
    assert_eq!(api_url("https://gitlab.example.com", "/projects"), "https://gitlab.example.com/api/v4/projects");
    assert_eq!(encode_project("group/sub/project"), "group%2Fsub%2Fproject");
    assert_eq!(encode("a b/c~d_e.f-g"), "a%20b%2Fc~d_e.f-g");
    assert_eq!(encode("é"), "%C3%A9");
}

#[test]
fn retry_policy_steps() {
    assert_eq!(retry_step(0, &response(200, None)), RetryStep::Success);
    assert_eq!(retry_step(2, &response(204, None)), RetryStep::Success);
    assert_eq!(retry_step(0, &response(429, Some("7"))), RetryStep::WaitSecs(7));
    assert_eq!(retry_step(0, &response(429, Some("soon"))), RetryStep::Fail);
    assert_eq!(retry_step(0, &response(503, None)), RetryStep::WaitMillis(500));
    assert_eq!(retry_step(1, &response(500, None)), RetryStep::WaitMillis(1000));
    assert_eq!(retry_step(2, &response(500, None)), RetryStep::Fail);
    assert_eq!(retry_step(0, &AttemptOutcome::TransportError), RetryStep::WaitMillis(500));
    assert_eq!(retry_step(2, &AttemptOutcome::TransportError), RetryStep::Fail);
    assert_eq!(retry_step(0, &response(404, None)), RetryStep::Fail);
}

#[test]
fn git_output_parsing() {
    assert_eq!(parse_listed_paths("a.txt\n\nsub/b.yaml\n"), vec!["a.txt".to_string(), "sub/b.yaml".to_string()]);
    let log = parse_log("abc123\tFirst commit\ndef456\tSecond\n");
    assert_eq!(log.len(), 2);
    assert_eq!(log[0].hash, "abc123");
    assert_eq!(log[0].subject, "First commit");
    assert_eq!(log[1].subject, "Second");
    assert_eq!(parse_origin_head("refs/remotes/origin/main\n"), Some("main".to_string()));
    assert_eq!(parse_origin_head("  \n"), None);
    assert_eq!(parse_branch_list("  feature\n* main\n\n"), vec!["feature".to_string(), "main".to_string()]);
}

#[test]
fn git_failure_classification() {
    let args = vec!["checkout".to_string(), "-b".to_string(), "reforge/x".to_string()];
    match git_failure(&args, 128, "fatal: a branch named 'reforge/x' already exists\n") {
        ReforgeError::GitBranchExists { branch } => assert_eq!(branch, "reforge/x"),
        other => panic!("unexpected {:?}", other),
    }
    match git_failure(&args, 1, " error: boom \n") {
        ReforgeError::GitCommand { exit_code, stderr } => {
            assert_eq!(exit_code, 1);
            assert_eq!(stderr, "error: boom");
        }
        other => panic!("unexpected {:?}", other),
    }
}

#[test]
fn error_messages() {
    assert_eq!(
        ReforgeError::GitCommand { exit_code: -1, stderr: "x".to_string() }.message(),
        "Git command failed (exit -1): x"
    );
    assert_eq!(ReforgeError::GitLabApi { status: 404, message: "nf".to_string() }.message(), "GitLab API error: 404 nf");
    assert_eq!(ReforgeError::Config("bad".to_string()).message(), "Configuration error: bad");
    assert_eq!(
        ReforgeError::GitBranchExists { branch: "b".to_string() }.message(),
        "Git branch 'b' already exists"
    );
}

#[test]
fn repo_handles_keep_path() {
    assert_eq!(GitRepo::new("/tmp/repo".to_string()).path, "/tmp/repo");
    assert_eq!(LocalGitSource::new("/tmp/repo".to_string()).repo.path, "/tmp/repo");
}
