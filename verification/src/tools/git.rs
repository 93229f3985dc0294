//! Git operations: which are risky, the permission decision, the arguments
//! of the git command for each operation, and the reported result. Running
//! git is left to the application.

use crate::permissions::{PermissionBehavior, PermissionResult};
use crate::text;
use crate::text::{decimal, trim, views};
use vstd::prelude::*;

verus! {

/// Git operation type
#[derive(Debug, Clone, Copy, PartialEq, Eq, Structural)]
pub enum GitOperation {
    /// Show working tree status
    Status,
    /// Show changes between commits, commit and working tree, etc
    Diff,
    /// Show commit logs
    Log,
    /// Add file contents to the index
    Add,
    /// Record changes to the repository
    Commit,
    /// List, create, or delete branches
    Branch,
    /// Switch branches or restore working tree files
    Checkout,
    /// Show current branch name
    CurrentBranch,
}

/// GitTool input parameters
#[derive(Debug, Clone)]
pub struct GitInput {
    /// Git operation to perform
    pub operation: GitOperation,
    /// Optional arguments for the operation
    pub args: Option<Vec<String>>,
    /// Commit message (for commit operation)
    pub message: Option<String>,
    /// Branch name (for checkout operation)
    pub branch: Option<String>,
    /// Files to add (for add operation)
    pub files: Option<Vec<String>>,
    /// Number of commits to show (for log operation)
    pub limit: Option<u32>,
}

/// GitTool output result
#[derive(Debug, Clone)]
pub struct GitOutput {
    /// Operation that was performed
    pub operation: String,
    /// Git command output
    pub output: String,
    /// Whether the operation succeeded
    pub success: bool,
    /// Error message if failed
    pub error: Option<String>,
}

/// GitTool implementation
pub struct GitTool;

/// Only checkout is risky: it can lose uncommitted changes.
pub open spec fn spec_is_dangerous(op: GitOperation) -> bool {
    op == GitOperation::Checkout
}

/// The operation's name as the results report it.
pub open spec fn spec_operation_name(op: GitOperation) -> Seq<char> {
    match op {
        GitOperation::Status => "status"@,
        GitOperation::Diff => "diff"@,
        GitOperation::Log => "log"@,
        GitOperation::Add => "add"@,
        GitOperation::Commit => "commit"@,
        GitOperation::Branch => "branch"@,
        GitOperation::Checkout => "checkout"@,
        GitOperation::CurrentBranch => "current_branch"@,
    }
}

/// The extra arguments, or none.
pub open spec fn opt_args(a: Option<Vec<String>>) -> Seq<Seq<char>> {
    match a {
        Some(v) => views(v@),
        None => seq![],
    }
}

/// The arguments given to `git` for an operation.
pub open spec fn spec_git_args(input: GitInput) -> Seq<Seq<char>> {
    match input.operation {
        GitOperation::Status => seq!["status"@, "--porcelain"@],
        GitOperation::Diff => seq!["diff"@] + opt_args(input.args),
        GitOperation::Log => seq!["log"@, "--oneline"@] + (match input.limit {
            Some(n) => seq!["-n"@, decimal(n as nat)],
            None => seq![],
        }) + opt_args(input.args),
        GitOperation::Add => seq!["add"@] + (match input.files {
            Some(f) => views(f@),
            None => seq!["."@],
        }),
        GitOperation::Commit => seq!["commit"@, "-m"@, match input.message {
            Some(m) => m@,
            None => "Update"@,
        }],
        GitOperation::Branch => seq!["branch"@] + opt_args(input.args),
        GitOperation::Checkout => seq!["checkout"@] + (match input.branch {
            Some(b) => seq![b@],
            None => seq![],
        }),
        GitOperation::CurrentBranch => seq!["branch"@, "--show-current"@],
    }
}

/// The message reporting a finished git command.
pub open spec fn spec_git_message(op: GitOperation, success: bool, stdout: Seq<char>, stderr: Seq<char>) -> Seq<char> {
    if success {
        if stdout.len() == 0 {
            "Git "@ + spec_operation_name(op) + ": No changes"@
        } else {
            "Git "@ + spec_operation_name(op) + ":\n"@ + trim(stdout)
        }
    } else {
        "Git "@ + spec_operation_name(op) + " failed: "@ + trim(stderr)
    }
}

/// Appends copies of all strings of `extra` to `v`.
fn push_all(v: &mut Vec<String>, extra: &Vec<String>)
    ensures
        views(final(v)@) == views(old(v)@) + views(extra@),
{
    let mut i: usize = 0;
    while i < extra.len()
        invariant
            i <= extra@.len(),
            v@ == old(v)@ + extra@.take(i as int),
        decreases extra@.len() - i,
    {
        v.push(extra[i].clone());
        i += 1;
        assert(v@ =~= old(v)@ + extra@.take(i as int));
    }
    assert(extra@.take(i as int) =~= extra@);
    assert(views(v@) =~= views(old(v)@) + views(extra@));
}

impl GitTool {
    /// Create a new GitTool instance
    pub fn new() -> (t: Self) {
        Self
    }

    /// Tool name (used in API calls)
    pub fn name(&self) -> (n: &'static str)
        ensures
            n@ == "Git"@,
    {
        "Git"
    }

    /// Tool description (shown to LLM)
    pub fn description(&self) -> (d: String)
        ensures
            d@ == "Execute Git operations. Supported operations: status, diff, log, add, commit, branch, checkout, current_branch. Use this tool to check repository status, view changes, commit files, and manage branches."@,
    {
        text::owned(
            "Execute Git operations. Supported operations: status, diff, log, add, commit, branch, checkout, current_branch. Use this tool to check repository status, view changes, commit files, and manage branches.",
        )
    }

    /// Check if operation is dangerous
    pub fn is_dangerous_operation(operation: &GitOperation) -> (b: bool)
        ensures
            b == spec_is_dangerous(*operation),
    {
        match operation {
            GitOperation::Status => false,
            GitOperation::Diff => false,
            GitOperation::Log => false,
            GitOperation::Branch => false,
            GitOperation::CurrentBranch => false,
            GitOperation::Add => false,
            GitOperation::Commit => false,
            GitOperation::Checkout => true,
        }
    }

    /// Check permission for git operation: risky operations are asked for,
    /// the others allowed.
    pub fn check_permission(operation: &GitOperation) -> (r: PermissionResult)
        ensures
            spec_is_dangerous(*operation) ==> r.behavior == PermissionBehavior::Ask && r.message@
                == "Git checkout may lose uncommitted changes"@,
            !spec_is_dangerous(*operation) ==> r.behavior == PermissionBehavior::Allow && r.message@
                == "Git operation allowed"@,
    {
        if Self::is_dangerous_operation(operation) {
            PermissionResult::ask("Git checkout may lose uncommitted changes")
        } else {
            PermissionResult::allow("Git operation allowed")
        }
    }

    /// The operation's name as the results report it.
    pub fn operation_name(operation: &GitOperation) -> (n: &'static str)
        ensures
            n@ == spec_operation_name(*operation),
    {
        match operation {
            GitOperation::Status => "status",
            GitOperation::Diff => "diff",
            GitOperation::Log => "log",
            GitOperation::Add => "add",
            GitOperation::Commit => "commit",
            GitOperation::Branch => "branch",
            GitOperation::Checkout => "checkout",
            GitOperation::CurrentBranch => "current_branch",
        }
    }

    /// The arguments of the git command for the input's operation.
    pub fn build_args(input: &GitInput) -> (args: Vec<String>)
        ensures
            views(args@) == spec_git_args(*input),
    {
        let mut args: Vec<String> = Vec::new();
        match input.operation {
            GitOperation::Status => {
                args.push(text::owned("status"));
                args.push(text::owned("--porcelain"));
            },
            GitOperation::Diff => {
                args.push(text::owned("diff"));
                if let Some(extra) = &input.args {
                    push_all(&mut args, extra);
                }
            },
            GitOperation::Log => {
                args.push(text::owned("log"));
                args.push(text::owned("--oneline"));
                if let Some(limit) = input.limit {
                    args.push(text::owned("-n"));
                    args.push(text::decimal_string(limit as u64));
                }
                if let Some(extra) = &input.args {
                    push_all(&mut args, extra);
                }
            },
            GitOperation::Add => {
                args.push(text::owned("add"));
                if let Some(files) = &input.files {
                    push_all(&mut args, files);
                } else {
                    args.push(text::owned("."));
                }
            },
            GitOperation::Commit => {
                args.push(text::owned("commit"));
                args.push(text::owned("-m"));
                if let Some(message) = &input.message {
                    args.push(message.clone());
                } else {
                    args.push(text::owned("Update"));
                }
            },
            GitOperation::Branch => {
                args.push(text::owned("branch"));
                if let Some(extra) = &input.args {
                    push_all(&mut args, extra);
                }
            },
            GitOperation::Checkout => {
                args.push(text::owned("checkout"));
                if let Some(branch) = &input.branch {
                    args.push(branch.clone());
                }
            },
            GitOperation::CurrentBranch => {
                args.push(text::owned("branch"));
                args.push(text::owned("--show-current"));
            },
        }
        assert(views(args@) =~= spec_git_args(*input));
        args
    }

    /// The message reporting a finished git command.
    pub fn result_message(operation: &GitOperation, success: bool, stdout: &str, stderr: &str) -> (m: String)
        ensures
            m@ == spec_git_message(*operation, success, stdout@, stderr@),
    {
        let name = Self::operation_name(operation);
        let mut m = text::owned("Git ");
        text::push_str(&mut m, name);
        if success {
            if stdout.is_empty() {
                text::push_str(&mut m, ": No changes");
            } else {
                text::push_str(&mut m, ":\n");
                let t = text::str_trim(stdout);
                text::push_str(&mut m, t.as_str());
            }
        } else {
            text::push_str(&mut m, " failed: ");
            let t = text::str_trim(stderr);
            text::push_str(&mut m, t.as_str());
        }
        m
    }

    /// Read-only operations: status, diff, log, branch, current branch.
    pub fn is_read_only(input: &GitInput) -> (b: bool)
        ensures
            b == (input.operation == GitOperation::Status || input.operation == GitOperation::Diff
                || input.operation == GitOperation::Log || input.operation == GitOperation::Branch
                || input.operation == GitOperation::CurrentBranch),
    {
        match input.operation {
            GitOperation::Status | GitOperation::Diff | GitOperation::Log | GitOperation::Branch
            | GitOperation::CurrentBranch => true,
            _ => false,
        }
    }

    /// Summary of a git operation for display.
    pub fn summarize(input: &GitInput) -> (s: &'static str)
        ensures
            s@ == match input.operation {
                GitOperation::Status => "Checking git status"@,
                GitOperation::Diff => "Viewing git diff"@,
                GitOperation::Log => "Viewing git log"@,
                GitOperation::Add => "Adding files to git"@,
                GitOperation::Commit => "Committing changes"@,
                GitOperation::Branch => "Managing git branches"@,
                GitOperation::Checkout => "Switching git branch"@,
                GitOperation::CurrentBranch => "Getting current branch"@,
            },
    {
        match input.operation {
            GitOperation::Status => "Checking git status",
            GitOperation::Diff => "Viewing git diff",
            GitOperation::Log => "Viewing git log",
            GitOperation::Add => "Adding files to git",
            GitOperation::Commit => "Committing changes",
            GitOperation::Branch => "Managing git branches",
            GitOperation::Checkout => "Switching git branch",
            GitOperation::CurrentBranch => "Getting current branch",
        }
    }
}

} // verus!
