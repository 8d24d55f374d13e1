//! The state snapshot fed to the planner, and the handoff result format.

use vstd::prelude::*;
use crate::config::Config;

verus! {

/// A GitHub issue. Timestamps are nanoseconds since the Unix epoch.
#[derive(Clone, Debug)]
pub struct Issue {
    pub number: u64,
    pub title: String,
    pub body: String,
    pub author: String,
    pub created_at: i128,
    pub updated_at: i128,
    pub comments: Vec<Comment>,
}

/// A comment on an issue.
#[derive(Clone, Debug)]
pub struct Comment {
    pub author: String,
    pub body: String,
    pub created_at: i128,
    pub is_supervisor: bool,
}

/// What the planner and the laws see of a comment.
pub struct CommentView {
    pub author: Seq<char>,
    pub body: Seq<char>,
    pub created_at: i128,
    pub is_supervisor: bool,
}

/// What the planner and the laws see of an issue.
pub struct IssueView {
    pub number: u64,
    pub title: Seq<char>,
    pub body: Seq<char>,
    pub author: Seq<char>,
    pub created_at: i128,
    pub updated_at: i128,
    pub comments: Seq<CommentView>,
}

impl View for Comment {
    type V = CommentView;

    open spec fn view(&self) -> CommentView {
        CommentView {
            author: self.author@,
            body: self.body@,
            created_at: self.created_at,
            is_supervisor: self.is_supervisor,
        }
    }
}

impl View for Issue {
    type V = IssueView;

    open spec fn view(&self) -> IssueView {
        IssueView {
            number: self.number,
            title: self.title@,
            body: self.body@,
            author: self.author@,
            created_at: self.created_at,
            updated_at: self.updated_at,
            comments: self.comments@.map_values(|c: Comment| c@),
        }
    }
}

impl Comment {
    /// A copy with the same contents.
    pub fn duplicate(&self) -> (r: Comment)
        ensures
            r@ == self@,
    {
        Comment {
            author: self.author.clone(),
            body: self.body.clone(),
            created_at: self.created_at,
            is_supervisor: self.is_supervisor,
        }
    }
}

impl Issue {
    /// A copy with the same contents.
    pub fn duplicate(&self) -> (r: Issue)
        ensures
            r@ == self@,
    {
        let mut comments: Vec<Comment> = Vec::new();
        let mut i: usize = 0;
        while i < self.comments.len()
            invariant
                i <= self.comments.len(),
                comments@.len() == i,
                forall|j: int| 0 <= j < i ==> comments@[j]@ == #[trigger] self.comments@[j]@,
            decreases self.comments.len() - i,
        {
            comments.push(self.comments[i].duplicate());
            i = i + 1;
        }
        let r = Issue {
            number: self.number,
            title: self.title.clone(),
            body: self.body.clone(),
            author: self.author.clone(),
            created_at: self.created_at,
            updated_at: self.updated_at,
            comments,
        };
        assert(r@.comments =~= self@.comments);
        r
    }
}

/// The outcome an implementer reported through its handoff.
#[derive(Clone, Debug)]
pub enum ImplementerResult {
    Done { commit: String },
    NeedsFeedback { message: String },
}

/// The lifecycle status of an implementer session.
#[derive(Clone, Debug)]
pub enum ImplementerStatus {
    Running,
    Finished(ImplementerResult),
    Malformed { error: String },
    Crashed,
}

/// What the planner sees of an implementer outcome.
pub enum ImplementerResultView {
    Done { commit: Seq<char> },
    NeedsFeedback { message: Seq<char> },
}

/// What the planner sees of an implementer status.
pub enum ImplementerStatusView {
    Running,
    Finished(ImplementerResultView),
    Malformed { error: Seq<char> },
    Crashed,
}

impl View for ImplementerResult {
    type V = ImplementerResultView;

    open spec fn view(&self) -> ImplementerResultView {
        match self {
            ImplementerResult::Done { commit } => ImplementerResultView::Done { commit: commit@ },
            ImplementerResult::NeedsFeedback { message } => ImplementerResultView::NeedsFeedback {
                message: message@,
            },
        }
    }
}

impl View for ImplementerStatus {
    type V = ImplementerStatusView;

    open spec fn view(&self) -> ImplementerStatusView {
        match self {
            ImplementerStatus::Running => ImplementerStatusView::Running,
            ImplementerStatus::Finished(r) => ImplementerStatusView::Finished(r@),
            ImplementerStatus::Malformed { error } => ImplementerStatusView::Malformed {
                error: error@,
            },
            ImplementerStatus::Crashed => ImplementerStatusView::Crashed,
        }
    }
}

/// A tracked implementer session.
#[derive(Clone, Debug)]
pub struct ImplementerState {
    pub issue_number: u64,
    pub session_id: String,
    pub workspace_name: String,
    pub workspace_path: String,
    pub base_commit: String,
    pub started_at: i128,
    pub status: ImplementerStatus,
    pub used_tokens: Option<u32>,
    pub limit_tokens: Option<u32>,
    pub stall_cycles: u32,
    pub most_recent_assistant_text: Option<String>,
}

/// What the planner sees of an implementer session.
pub struct ImplementerStateView {
    pub issue_number: u64,
    pub session_id: Seq<char>,
    pub workspace_name: Seq<char>,
    pub workspace_path: Seq<char>,
    pub base_commit: Seq<char>,
    pub started_at: i128,
    pub status: ImplementerStatusView,
}

impl View for ImplementerState {
    type V = ImplementerStateView;

    open spec fn view(&self) -> ImplementerStateView {
        ImplementerStateView {
            issue_number: self.issue_number,
            session_id: self.session_id@,
            workspace_name: self.workspace_name@,
            workspace_path: self.workspace_path@,
            base_commit: self.base_commit@,
            started_at: self.started_at,
            status: self.status@,
        }
    }
}

/// A managed workspace found on disk.
#[derive(Clone, Debug)]
pub struct WorkspaceState {
    pub name: String,
    pub path: String,
    pub task_issue: Option<u64>,
    pub session_id: Option<String>,
    pub daemon_alive: bool,
    pub has_result_file: bool,
}

/// What the planner sees of a workspace.
pub struct WorkspaceStateView {
    pub name: Seq<char>,
    pub path: Seq<char>,
    pub task_issue: Option<u64>,
    pub has_session: bool,
    pub daemon_alive: bool,
    pub has_result_file: bool,
}

impl View for WorkspaceState {
    type V = WorkspaceStateView;

    open spec fn view(&self) -> WorkspaceStateView {
        WorkspaceStateView {
            name: self.name@,
            path: self.path@,
            task_issue: self.task_issue,
            has_session: self.session_id is Some,
            daemon_alive: self.daemon_alive,
            has_result_file: self.has_result_file,
        }
    }
}

/// Complete state snapshot fed to the planner.
#[derive(Clone, Debug)]
pub struct SupervisorState {
    pub config: Config,
    pub issues: Vec<Issue>,
    pub implementers: Vec<ImplementerState>,
    pub workspaces: Vec<WorkspaceState>,
    pub main_head: String,
    pub completed_issues: Vec<u64>,
}

/// What the planner sees of the snapshot.
pub struct SupervisorStateView {
    pub allowlist: Seq<Seq<char>>,
    pub prefix: Seq<char>,
    pub max_parallelism: usize,
    pub issues: Seq<IssueView>,
    pub implementers: Seq<ImplementerStateView>,
    pub workspaces: Seq<WorkspaceStateView>,
    pub main_head: Seq<char>,
    pub completed_issues: Seq<u64>,
}

impl View for SupervisorState {
    type V = SupervisorStateView;

    open spec fn view(&self) -> SupervisorStateView {
        SupervisorStateView {
            allowlist: self.config.github.allowlist@.map_values(|a: String| a@),
            prefix: self.config.workspace.prefix@,
            max_parallelism: self.config.supervisor.max_parallelism,
            issues: self.issues@.map_values(|i: Issue| i@),
            implementers: self.implementers@.map_values(|i: ImplementerState| i@),
            workspaces: self.workspaces@.map_values(|w: WorkspaceState| w@),
            main_head: self.main_head@,
            completed_issues: self.completed_issues@,
        }
    }
}

/// Whether an implementer is still running.
pub open spec fn is_running(imp: ImplementerStateView) -> bool {
    imp.status is Running
}

/// The number of running implementers among `imps`.
pub open spec fn running_count(imps: Seq<ImplementerStateView>) -> nat
    decreases imps.len(),
{
    if imps.len() == 0 {
        0
    } else {
        running_count(imps.drop_last()) + if is_running(imps.last()) { 1nat } else { 0nat }
    }
}

/// The issue numbers of the running implementers, in order.
pub open spec fn running_issues(imps: Seq<ImplementerStateView>) -> Seq<u64>
    decreases imps.len(),
{
    if imps.len() == 0 {
        Seq::empty()
    } else if is_running(imps.last()) {
        running_issues(imps.drop_last()).push(imps.last().issue_number)
    } else {
        running_issues(imps.drop_last())
    }
}

/// `running_count` never exceeds the number of implementers.
pub proof fn lemma_running_count_bound(imps: Seq<ImplementerStateView>)
    ensures
        running_count(imps) <= imps.len(),
    decreases imps.len(),
{
    if imps.len() > 0 {
        lemma_running_count_bound(imps.drop_last());
    }
}

/// An issue number is among `running_issues` exactly when some running implementer works on it.
pub proof fn lemma_running_issues_contains(imps: Seq<ImplementerStateView>, n: u64)
    ensures
        running_issues(imps).contains(n) <==> exists|i: int|
            0 <= i < imps.len() && is_running(#[trigger] imps[i]) && imps[i].issue_number == n,
    decreases imps.len(),
{
    if imps.len() > 0 {
        let prev = imps.drop_last();
        lemma_running_issues_contains(prev, n);
        if running_issues(imps).contains(n) {
            if is_running(imps.last()) && imps.last().issue_number == n {
                assert(is_running(imps[imps.len() - 1]));
            } else {
                if is_running(imps.last()) {
                    let k = choose|k: int| 0 <= k < running_issues(imps).len() && running_issues(imps)[k] == n;
                    assert(running_issues(prev)[k] == n);
                }
                let i = choose|i: int| 0 <= i < prev.len() && is_running(#[trigger] prev[i]) && prev[i].issue_number == n;
                assert(imps[i] == prev[i]);
            }
        } else {
            assert forall|i: int| 0 <= i < imps.len() && is_running(#[trigger] imps[i]) implies imps[i].issue_number != n by {
                if i < imps.len() - 1 {
                    assert(imps[i] == prev[i]);
                    if imps[i].issue_number == n {
                        assert(running_issues(prev).contains(n));
                        let k = choose|k: int| 0 <= k < running_issues(prev).len() && running_issues(prev)[k] == n;
                        if is_running(imps.last()) {
                            assert(running_issues(imps)[k] == n);
                        }
                    }
                } else {
                    if imps[i].issue_number == n {
                        assert(running_issues(imps).last() == n);
                    }
                }
            }
        }
    }
}

impl SupervisorState {
    /// Count of implementers currently running (not finished/crashed).
    pub fn active_count(&self) -> (n: usize)
        ensures
            n == running_count(self@.implementers),
    {
        let ghost imps = self@.implementers;
        let mut n: usize = 0;
        let mut i: usize = 0;
        while i < self.implementers.len()
            invariant
                imps == self@.implementers,
                i <= self.implementers.len(),
                n == running_count(imps.take(i as int)),
                n <= i,
            decreases self.implementers.len() - i,
        {
            assert(imps.take(i + 1).drop_last() =~= imps.take(i as int));
            if let ImplementerStatus::Running = self.implementers[i].status {
                n = n + 1;
            }
            i = i + 1;
        }
        assert(imps.take(i as int) =~= imps);
        n
    }

    /// Issue numbers currently being implemented.
    pub fn active_issues(&self) -> (v: Vec<u64>)
        ensures
            v@ == running_issues(self@.implementers),
    {
        let ghost imps = self@.implementers;
        let mut v: Vec<u64> = Vec::new();
        let mut i: usize = 0;
        while i < self.implementers.len()
            invariant
                imps == self@.implementers,
                i <= self.implementers.len(),
                v@ == running_issues(imps.take(i as int)),
            decreases self.implementers.len() - i,
        {
            assert(imps.take(i + 1).drop_last() =~= imps.take(i as int));
            if let ImplementerStatus::Running = self.implementers[i].status {
                v.push(self.implementers[i].issue_number);
            }
            i = i + 1;
        }
        assert(imps.take(i as int) =~= imps);
        v
    }
}

/// Evidence recorded by an approved handoff.
#[derive(Clone, Debug)]
pub struct HandoffEvidence {
    pub plan_review: String,
    pub implementation_review: String,
    pub tests: Vec<TestEvidence>,
    pub acceptance_mapping: Vec<AcceptanceTestMapping>,
    pub unresolved_findings: bool,
}

/// One entry of the test inventory.
#[derive(Clone, Debug)]
pub struct TestEvidence {
    pub name: String,
    pub result: String,
}

/// One acceptance criterion and how it was verified.
#[derive(Clone, Debug)]
pub struct AcceptanceTestMapping {
    pub acceptance_criterion: String,
    pub verification: String,
}

/// Result file written by the handoff command, read by the supervisor.
#[derive(Clone, Debug)]
pub enum HandoffResult {
    Done {
        manifest_version: u32,
        commit: String,
        timestamp: String,
        issue: Option<u64>,
        summary: String,
        evidence: Option<HandoffEvidence>,
    },
    NeedsFeedback { message: String, timestamp: String },
}

/// The manifest version assumed when a result file names none.
pub fn default_manifest_version() -> (v: u32)
    ensures
        v == 1,
{
    1
}

} // verus!
