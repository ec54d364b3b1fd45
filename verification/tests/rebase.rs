use reforge::config::StaleMrStrategy;
use reforge::platform::gitlab::CommitActionKind;
use reforge::platform::gitlab::MergeRequest;
use reforge::platform::gitlab::MrDetail;
use reforge::rebase::local_branch_action;
use reforge::rebase::recreate_commit_actions;
use reforge::rebase::stale_mr_plan;
use reforge::rebase::LocalBranchAction;
use reforge::rebase::StaleMr;
use reforge::rebase::StaleMrPlan;
use reforge::rebase::StalenessChecker;

fn make_mr() -> MergeRequest {
    MergeRequest {
        iid: 1,
        title: "test".to_string(),
        source_branch: "reforge/test".to_string(),
        target_branch: "main".to_string(),
        state: "opened".to_string(),
        web_url: "https://gitlab.example.com/mr/1".to_string(),
    }
}

fn detail(has_conflicts: bool, diverged: Option<u64>) -> MrDetail {
    MrDetail {
        iid: 1,
        title: "test".to_string(),
        source_branch: "reforge/test".to_string(),
        target_branch: "main".to_string(),
        state: "opened".to_string(),
        web_url: "https://gitlab.example.com/mr/1".to_string(),
        has_conflicts,
        diverged_commits_count: diverged,
    }
}

#[test]
fn test_stale_mr_strategy_default_is_rebase() {
    let strategy = StaleMrStrategy::default();
    assert_eq!(strategy, StaleMrStrategy::Rebase);
}

#[test]
fn test_stale_mr_needs_action_conflicts() {
    let stale = StaleMr { mr: make_mr(), has_conflicts: true, is_behind: false };
    assert!(stale.needs_action());
}

#[test]
fn test_stale_mr_needs_action_behind() {
    let stale = StaleMr { mr: make_mr(), has_conflicts: false, is_behind: true };
    assert!(stale.needs_action());
}

#[test]
fn test_stale_mr_no_action_needed() {
    let stale = StaleMr { mr: make_mr(), has_conflicts: false, is_behind: false };
    assert!(!stale.needs_action());
}

#[test]
fn assess_reports_behind_and_conflicts() {
    let checker = StalenessChecker::new();
    let mr = make_mr();
    assert!(checker.assess(&mr, &detail(false, Some(0))).is_none());
    assert!(checker.assess(&mr, &detail(false, None)).is_none());
    let behind = checker.assess(&mr, &detail(false, Some(3))).unwrap();
    assert!(behind.is_behind && !behind.has_conflicts);
    assert_eq!(behind.mr.iid, 1);
    let conflicting = checker.assess(&mr, &detail(true, None)).unwrap();
    assert!(conflicting.has_conflicts && !conflicting.is_behind);
}

#[test]
fn plan_and_local_actions_follow_strategy() {
    assert_eq!(stale_mr_plan(0, StaleMrStrategy::Rebase), StaleMrPlan::LeaveAll);
    assert_eq!(stale_mr_plan(2, StaleMrStrategy::Ignore), StaleMrPlan::LeaveAll);
    assert_eq!(stale_mr_plan(2, StaleMrStrategy::Rebase), StaleMrPlan::RebaseEach);
    assert_eq!(stale_mr_plan(2, StaleMrStrategy::Recreate), StaleMrPlan::RebaseEach);
    assert_eq!(local_branch_action(StaleMrStrategy::Rebase, false, false), LocalBranchAction::Keep);
    assert_eq!(local_branch_action(StaleMrStrategy::Ignore, true, true), LocalBranchAction::Keep);
    assert_eq!(local_branch_action(StaleMrStrategy::Rebase, true, false), LocalBranchAction::Rebase);
    assert_eq!(local_branch_action(StaleMrStrategy::Recreate, false, true), LocalBranchAction::Delete);
}

#[test]
fn recreate_commit_is_single_update() {
    let actions = recreate_commit_actions("Dockerfile", "FROM nginx:1.26.0\n");
    assert_eq!(actions.len(), 1);
    assert_eq!(actions[0].action, CommitActionKind::Update);
    assert_eq!(actions[0].file_path, "Dockerfile");
    assert_eq!(actions[0].content, "FROM nginx:1.26.0\n");
}
