//! Error types for the reforge crate.
//!
//! [`ReforgeError`] covers the failure modes of the library: API errors,
//! registry failures, configuration issues, parse errors and git operations.
use vstd::prelude::*;

use crate::fmt::decimal_of;
use crate::fmt::decimal_spec;
use crate::text::extend_chars;
use crate::text::push_text;
use crate::text::string_of;

verus! {

/// All errors that the library's logic reports.
#[derive(Debug, Clone)]
pub enum ReforgeError {
    /// GitLab API returned a non-success status code.
    GitLabApi { status: u16, message: String },
    /// Failed to communicate with a container or Helm registry.
    Registry { registry: String, message: String },
    /// Failed to parse a file (YAML, TOML, Dockerfile, etc.).
    Parse { file: String, reason: String },
    /// Invalid or missing configuration.
    Config(String),
    /// A `git` subprocess exited with an error.
    GitCommand { exit_code: i32, stderr: String },
    /// The specified path is not a git repository.
    GitRepoNotFound { path: String },
    /// Attempted to create a branch that already exists.
    GitBranchExists { branch: String },
    /// A git operation failed for a reason not covered by other variants.
    Git(String),
}

/// The mathematical value of a [`ReforgeError`].
pub enum ReforgeErrorView {
    GitLabApi { status: u16, message: Seq<char> },
    Registry { registry: Seq<char>, message: Seq<char> },
    Parse { file: Seq<char>, reason: Seq<char> },
    Config(Seq<char>),
    GitCommand { exit_code: i32, stderr: Seq<char> },
    GitRepoNotFound { path: Seq<char> },
    GitBranchExists { branch: Seq<char> },
    Git(Seq<char>),
}

impl View for ReforgeError {
    type V = ReforgeErrorView;

    open spec fn view(&self) -> ReforgeErrorView {
        match self {
            ReforgeError::GitLabApi { status, message } => ReforgeErrorView::GitLabApi {
                status: *status,
                message: message@,
            },
            ReforgeError::Registry { registry, message } => ReforgeErrorView::Registry {
                registry: registry@,
                message: message@,
            },
            ReforgeError::Parse { file, reason } => ReforgeErrorView::Parse {
                file: file@,
                reason: reason@,
            },
            ReforgeError::Config(m) => ReforgeErrorView::Config(m@),
            ReforgeError::GitCommand { exit_code, stderr } => ReforgeErrorView::GitCommand {
                exit_code: *exit_code,
                stderr: stderr@,
            },
            ReforgeError::GitRepoNotFound { path } => ReforgeErrorView::GitRepoNotFound {
                path: path@,
            },
            ReforgeError::GitBranchExists { branch } => ReforgeErrorView::GitBranchExists {
                branch: branch@,
            },
            ReforgeError::Git(m) => ReforgeErrorView::Git(m@),
        }
    }
}

/// The decimal rendering of a signed number, with a leading `-` when negative.
pub open spec fn signed_decimal_spec(n: int) -> Seq<char> {
    if n < 0 {
        seq!['-'] + decimal_spec((-n) as nat)
    } else {
        decimal_spec(n as nat)
    }
}

/// The human-readable message of an error.
pub open spec fn message_spec(e: ReforgeErrorView) -> Seq<char> {
    match e {
        ReforgeErrorView::GitLabApi { status, message } => "GitLab API error: "@ + decimal_spec(
            status as nat,
        ) + " "@ + message,
        ReforgeErrorView::Registry { registry, message } => "Registry error for "@ + registry
            + ": "@ + message,
        ReforgeErrorView::Parse { file, reason } => "Failed to parse "@ + file + ": "@ + reason,
        ReforgeErrorView::Config(m) => "Configuration error: "@ + m,
        ReforgeErrorView::GitCommand { exit_code, stderr } => "Git command failed (exit "@
            + signed_decimal_spec(exit_code as int) + "): "@ + stderr,
        ReforgeErrorView::GitRepoNotFound { path } => "Git repository not found at "@ + path,
        ReforgeErrorView::GitBranchExists { branch } => "Git branch '"@ + branch
            + "' already exists"@,
        ReforgeErrorView::Git(m) => "Git operation failed: "@ + m,
    }
}

fn push_string(dst: &mut Vec<char>, s: &String)
    ensures
        final(dst)@ == old(dst)@ + s@,
{
    push_text(dst, s.as_str());
}

fn signed_decimal_of(n: i32) -> (r: Vec<char>)
    ensures
        r@ == signed_decimal_spec(n as int),
{
    if n < 0 {
        let m: i64 = -(n as i64);
        let mut v: Vec<char> = Vec::new();
        v.push('-');
        let d = decimal_of(m as u64);
        extend_chars(&mut v, &d);
        v
    } else {
        decimal_of(n as u64)
    }
}

impl ReforgeError {
    /// The human-readable message of this error.
    pub fn message(&self) -> (r: String)
        ensures
            r@ == message_spec(self@),
    {
        let mut v: Vec<char> = Vec::new();
        match self {
            ReforgeError::GitLabApi { status, message } => {
                push_text(&mut v, "GitLab API error: ");
                let d = decimal_of(*status as u64);
                extend_chars(&mut v, &d);
                push_text(&mut v, " ");
                push_string(&mut v, message);
            },
            ReforgeError::Registry { registry, message } => {
                push_text(&mut v, "Registry error for ");
                push_string(&mut v, registry);
                push_text(&mut v, ": ");
                push_string(&mut v, message);
            },
            ReforgeError::Parse { file, reason } => {
                push_text(&mut v, "Failed to parse ");
                push_string(&mut v, file);
                push_text(&mut v, ": ");
                push_string(&mut v, reason);
            },
            ReforgeError::Config(m) => {
                push_text(&mut v, "Configuration error: ");
                push_string(&mut v, m);
            },
            ReforgeError::GitCommand { exit_code, stderr } => {
                push_text(&mut v, "Git command failed (exit ");
                let d = signed_decimal_of(*exit_code);
                extend_chars(&mut v, &d);
                push_text(&mut v, "): ");
                push_string(&mut v, stderr);
            },
            ReforgeError::GitRepoNotFound { path } => {
                push_text(&mut v, "Git repository not found at ");
                push_string(&mut v, path);
            },
            ReforgeError::GitBranchExists { branch } => {
                push_text(&mut v, "Git branch '");
                push_string(&mut v, branch);
                push_text(&mut v, "' already exists");
            },
            ReforgeError::Git(m) => {
                push_text(&mut v, "Git operation failed: ");
                push_string(&mut v, m);
            },
        }
        string_of(&v)
    }
}

} // verus!
