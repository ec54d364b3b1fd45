//! Stale merge requests: which are stale and what the configured strategy does
//! with them.
use vstd::prelude::*;

pub use crate::config::StaleMrStrategy;
use crate::platform::gitlab::CommitAction;
use crate::platform::gitlab::CommitActionKind;
use crate::platform::gitlab::MergeRequest;
use crate::platform::gitlab::MrDetail;
use crate::text::copy_string;

verus! {

/// An open merge request that conflicts with or lags behind its target branch.
#[derive(Debug, Clone)]
pub struct StaleMr {
    pub mr: MergeRequest,
    pub has_conflicts: bool,
    pub is_behind: bool,
}

impl StaleMr {
    /// Whether the merge request needs rebasing or recreating.
    pub fn needs_action(&self) -> (r: bool)
        ensures
            r == (self.has_conflicts || self.is_behind),
    {
        self.has_conflicts || self.is_behind
    }
}

/// Finds stale merge requests.
pub struct StalenessChecker;

impl StalenessChecker {
    /// A checker.
    pub fn new() -> (r: Self) {
        StalenessChecker
    }

    /// The staleness of a merge request from its detail: conflicting when GitLab
    /// reports conflicts, behind when it reports diverged commits; `None` when neither.
    pub fn assess(&self, mr: &MergeRequest, detail: &MrDetail) -> (r: Option<StaleMr>)
        ensures
            match r {
                Some(s) => s.mr@ == mr@ && s.has_conflicts == detail.has_conflicts && s.is_behind == (
                detail.diverged_commits_count matches Some(n) && n > 0) && (s.has_conflicts || s.is_behind),
                None => !detail.has_conflicts && !(detail.diverged_commits_count matches Some(n) && n > 0),
            },
    {
        let has_conflicts = detail.has_conflicts;
        let is_behind = match detail.diverged_commits_count {
            Some(n) => n > 0,
            None => false,
        };
        if has_conflicts || is_behind {
            Some(StaleMr { mr: mr.duplicate(), has_conflicts, is_behind })
        } else {
            None
        }
    }
}

/// What to do with the stale merge requests of a project.
#[derive(Debug, Clone, Copy, PartialEq, Eq, Structural)]
pub enum StaleMrPlan {
    /// Leave them (nothing stale, or the strategy is `Ignore`).
    LeaveAll,
    /// Ask GitLab to rebase each one (`Rebase`; `Recreate` falls back to this in
    /// API mode, where no re-scan context is at hand).
    RebaseEach,
}

/// Chooses how stale merge requests are handled under a strategy.
pub fn stale_mr_plan(stale_count: usize, strategy: StaleMrStrategy) -> (r: StaleMrPlan)
    ensures
        r == (if stale_count == 0 || strategy == StaleMrStrategy::Ignore {
            StaleMrPlan::LeaveAll
        } else {
            StaleMrPlan::RebaseEach
        }),
{
    if stale_count == 0 {
        return StaleMrPlan::LeaveAll;
    }
    match strategy {
        StaleMrStrategy::Ignore => StaleMrPlan::LeaveAll,
        StaleMrStrategy::Rebase | StaleMrStrategy::Recreate => StaleMrPlan::RebaseEach,
    }
}

/// What happens to a local update branch.
#[derive(Debug, Clone, Copy, PartialEq, Eq, Structural)]
pub enum LocalBranchAction {
    Keep,
    Rebase,
    Delete,
}

/// The action for a local update branch: kept when it is neither behind nor
/// conflicting or the strategy is `Ignore`; else rebased (`Rebase`) or deleted so
/// that the next scan recreates it (`Recreate`).
pub fn local_branch_action(strategy: StaleMrStrategy, is_behind: bool, has_conflicts: bool) -> (r: LocalBranchAction)
    ensures
        r == (if strategy == StaleMrStrategy::Ignore || (!is_behind && !has_conflicts) {
            LocalBranchAction::Keep
        } else if strategy == StaleMrStrategy::Rebase {
            LocalBranchAction::Rebase
        } else {
            LocalBranchAction::Delete
        }),
{
    if !is_behind && !has_conflicts {
        return LocalBranchAction::Keep;
    }
    match strategy {
        StaleMrStrategy::Ignore => LocalBranchAction::Keep,
        StaleMrStrategy::Rebase => LocalBranchAction::Rebase,
        StaleMrStrategy::Recreate => LocalBranchAction::Delete,
    }
}

/// The commit that recreates a merge request's branch: one update of the file.
pub fn recreate_commit_actions(file_path: &str, updated_content: &str) -> (r: Vec<CommitAction>)
    ensures
        r@.len() == 1,
        r@[0].action == CommitActionKind::Update,
        r@[0].file_path@ == file_path@,
        r@[0].content@ == updated_content@,
{
    let mut v: Vec<CommitAction> = Vec::new();
    v.push(CommitAction {
        action: CommitActionKind::Update,
        file_path: file_path.to_string(),
        content: updated_content.to_string(),
    });
    v
}

} // verus!
