//! Actions the planner can emit.

use vstd::prelude::*;
use crate::kernel::state::{Issue, IssueView};

verus! {

/// Why a workspace is cleaned up.
#[derive(Debug, PartialEq, Eq, Structural, Clone, Copy)]
pub enum CleanupReason {
    SessionCrashed,
    SessionStalled,
    SessionFinished,
    MalformedHandoff,
    OrphanedWorkspace,
}

/// Actions the planner can emit.
#[derive(Clone, Debug)]
pub enum Action {
    StartImplementer { issue: Issue, workspace_name: String, base_commit: String },
    CleanupWorkspace { workspace_name: String, reason: CleanupReason },
    MergeImplementation {
        workspace_name: String,
        commit: String,
        base_commit: String,
        issue_number: u64,
    },
    PostComment { issue_number: u64, body: String },
    ResolveConflict {
        workspace_name: String,
        commit: String,
        base_commit: String,
        issue_number: u64,
    },
    DiscardImplementation { workspace_name: String, issue_number: u64 },
    TerminateSession { session_id: String },
    PushToRemote,
    Noop,
}

/// What the laws see of an action.
pub enum ActionView {
    StartImplementer { issue: IssueView, workspace_name: Seq<char>, base_commit: Seq<char> },
    CleanupWorkspace { workspace_name: Seq<char>, reason: CleanupReason },
    MergeImplementation {
        workspace_name: Seq<char>,
        commit: Seq<char>,
        base_commit: Seq<char>,
        issue_number: u64,
    },
    PostComment { issue_number: u64, body: Seq<char> },
    ResolveConflict {
        workspace_name: Seq<char>,
        commit: Seq<char>,
        base_commit: Seq<char>,
        issue_number: u64,
    },
    DiscardImplementation { workspace_name: Seq<char>, issue_number: u64 },
    TerminateSession { session_id: Seq<char> },
    PushToRemote,
    Noop,
}

impl View for Action {
    type V = ActionView;

    open spec fn view(&self) -> ActionView {
        match self {
            Action::StartImplementer { issue, workspace_name, base_commit } =>
                ActionView::StartImplementer {
                    issue: issue@,
                    workspace_name: workspace_name@,
                    base_commit: base_commit@,
                },
            Action::CleanupWorkspace { workspace_name, reason } => ActionView::CleanupWorkspace {
                workspace_name: workspace_name@,
                reason: *reason,
            },
            Action::MergeImplementation { workspace_name, commit, base_commit, issue_number } =>
                ActionView::MergeImplementation {
                    workspace_name: workspace_name@,
                    commit: commit@,
                    base_commit: base_commit@,
                    issue_number: *issue_number,
                },
            Action::PostComment { issue_number, body } => ActionView::PostComment {
                issue_number: *issue_number,
                body: body@,
            },
            Action::ResolveConflict { workspace_name, commit, base_commit, issue_number } =>
                ActionView::ResolveConflict {
                    workspace_name: workspace_name@,
                    commit: commit@,
                    base_commit: base_commit@,
                    issue_number: *issue_number,
                },
            Action::DiscardImplementation { workspace_name, issue_number } =>
                ActionView::DiscardImplementation {
                    workspace_name: workspace_name@,
                    issue_number: *issue_number,
                },
            Action::TerminateSession { session_id } => ActionView::TerminateSession {
                session_id: session_id@,
            },
            Action::PushToRemote => ActionView::PushToRemote,
            Action::Noop => ActionView::Noop,
        }
    }
}

} // verus!
