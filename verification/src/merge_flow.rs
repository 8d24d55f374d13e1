//! Merging a finished implementation, and resolving its conflicts with a one-shot agent,
//! as a state machine: each state issues one command to the outside world (a jj, GitHub
//! or Polytoken call, a cleanup or a pause), and the command's outcome decides the next
//! state and what is recorded in the state file.

use vstd::prelude::*;
use crate::config::Config;
use crate::state_file::{
    completed_without, imps_without_workspace, retries_incremented, retries_without, retry_count,
    ActiveImplementer, CompletedTask, ConflictRetry, StateFile,
};
use crate::supervisor::{find_in_workspace, first_in_workspace};
use crate::text::{append_str, owned};

verus! {

/// How many failed resolutions an issue may have before the supervisor asks for help.
pub const CONFLICT_RETRY_LIMIT: u32 = 3;

/// How long a resolution agent may work, in seconds.
pub const RESOLUTION_TIMEOUT_SECS: u64 = 1800;

/// The pause between two looks at a working resolution agent, in seconds.
pub const RESOLUTION_POLL_SECS: u64 = 10;

/// The tool-turn budget of a resolution agent.
pub const RESOLUTION_MAX_TURNS: u32 = 50;

/// The instruction given to a resolution agent.
pub const RESOLUTION_PROMPT: &'static str = "Resolve the merge conflicts in this workspace. Use the jj-resolve-conflicts skill. Do not make any changes beyond what is needed to resolve the conflicts.";

/// The comment posted when an issue has used up its resolution attempts.
pub const PERSISTENT_CONFLICT_COMMENT: &'static str = "<!-- grindbot -->\n\n**Persistent merge conflict:**\n\nThe implementation for this issue has failed to merge after 3 conflict resolution attempts. The conflicts may indicate that the issue requires a different approach or manual intervention.\n\nPlease review and provide guidance.";

/// Where a merge stands.
#[derive(Clone, Debug)]
pub enum MergePhase {
    /// Rebasing the implementation onto the base branch (again, after a resolution).
    Rebase { resolved: bool },
    Bookmark { resolved: bool },
    Push { resolved: bool },
    /// Announcing the merge on the issue.
    Comment { resolved: bool },
    /// Announcing that the resolution attempts are used up.
    PersistentComment,
    /// Removing the workspace at `path`.
    Cleanup { path: String },
    /// Installing the always-stop hook in the workspace.
    Setup,
    Spawn,
    Facet,
    Permissions,
    Goal,
    Prompt,
    /// Asking the resolution agent whether it still works.
    Poll,
    /// Pausing before asking again.
    Sleep,
    CheckConflicts,
    /// Stopping the resolution agent; then merging again, or giving up.
    Terminate { retry_merge: bool },
    Finished,
    /// A step that the merge cannot do without failed.
    Failed,
}

/// The view of a phase.
pub enum PhaseView {
    Rebase { resolved: bool },
    Bookmark { resolved: bool },
    Push { resolved: bool },
    Comment { resolved: bool },
    PersistentComment,
    Cleanup { path: Seq<char> },
    Setup,
    Spawn,
    Facet,
    Permissions,
    Goal,
    Prompt,
    Poll,
    Sleep,
    CheckConflicts,
    Terminate { retry_merge: bool },
    Finished,
    Failed,
}

impl View for MergePhase {
    type V = PhaseView;

    open spec fn view(&self) -> PhaseView {
        match self {
            MergePhase::Rebase { resolved } => PhaseView::Rebase { resolved: *resolved },
            MergePhase::Bookmark { resolved } => PhaseView::Bookmark { resolved: *resolved },
            MergePhase::Push { resolved } => PhaseView::Push { resolved: *resolved },
            MergePhase::Comment { resolved } => PhaseView::Comment { resolved: *resolved },
            MergePhase::PersistentComment => PhaseView::PersistentComment,
            MergePhase::Cleanup { path } => PhaseView::Cleanup { path: path@ },
            MergePhase::Setup => PhaseView::Setup,
            MergePhase::Spawn => PhaseView::Spawn,
            MergePhase::Facet => PhaseView::Facet,
            MergePhase::Permissions => PhaseView::Permissions,
            MergePhase::Goal => PhaseView::Goal,
            MergePhase::Prompt => PhaseView::Prompt,
            MergePhase::Poll => PhaseView::Poll,
            MergePhase::Sleep => PhaseView::Sleep,
            MergePhase::CheckConflicts => PhaseView::CheckConflicts,
            MergePhase::Terminate { retry_merge } => PhaseView::Terminate { retry_merge: *retry_merge },
            MergePhase::Finished => PhaseView::Finished,
            MergePhase::Failed => PhaseView::Failed,
        }
    }
}

/// What the outside world is asked to do next.
#[derive(Clone, Debug)]
pub enum MergeCommand {
    /// `jj rebase -r <revset> -d <dest>`; answered by `Rebased`.
    Rebase { revset: String, dest: String },
    SetBookmark { name: String, rev: String },
    Push { remote: String, branch: String },
    PostComment { issue_number: u64, body: String },
    /// Forget the jj workspace and remove its directory; failures are only logged.
    CleanupWorkspace { name: String, path: String },
    /// Install the conflict-resolution hook and permissions in the workspace.
    SetupConflictWorkspace { path: String },
    /// Start a Polytoken session in the workspace; later agent commands address it.
    SpawnAgent { workspace_dir: String },
    SetFacet { facet: String },
    SetPermissionMode { mode: String },
    SetGoal { summary: String },
    SendPrompt { content: String, max_turns: u32 },
    /// Ask the agent's state; answered by `AgentState`, or `Failed` when it is gone.
    GetAgentState,
    /// Pause; answered by `Slept` with the seconds since the prompt was sent.
    Sleep { secs: u64 },
    /// Stop the agent; its failure is ignored.
    TerminateAgent,
    /// Ask jj whether conflicts remain; answered by `ConflictCheck`.
    CheckConflicts,
    /// The merge is over.
    Finish,
    /// The merge stopped at a failed step.
    Stop,
}

/// The view of a command.
pub enum CommandView {
    Rebase { revset: Seq<char>, dest: Seq<char> },
    SetBookmark { name: Seq<char>, rev: Seq<char> },
    Push { remote: Seq<char>, branch: Seq<char> },
    PostComment { issue_number: u64, body: Seq<char> },
    CleanupWorkspace { name: Seq<char>, path: Seq<char> },
    SetupConflictWorkspace { path: Seq<char> },
    SpawnAgent { workspace_dir: Seq<char> },
    SetFacet { facet: Seq<char> },
    SetPermissionMode { mode: Seq<char> },
    SetGoal { summary: Seq<char> },
    SendPrompt { content: Seq<char>, max_turns: u32 },
    GetAgentState,
    Sleep { secs: u64 },
    TerminateAgent,
    CheckConflicts,
    Finish,
    Stop,
}

impl View for MergeCommand {
    type V = CommandView;

    open spec fn view(&self) -> CommandView {
        match self {
            MergeCommand::Rebase { revset, dest } => CommandView::Rebase { revset: revset@, dest: dest@ },
            MergeCommand::SetBookmark { name, rev } => CommandView::SetBookmark { name: name@, rev: rev@ },
            MergeCommand::Push { remote, branch } => CommandView::Push { remote: remote@, branch: branch@ },
            MergeCommand::PostComment { issue_number, body } =>
                CommandView::PostComment { issue_number: *issue_number, body: body@ },
            MergeCommand::CleanupWorkspace { name, path } =>
                CommandView::CleanupWorkspace { name: name@, path: path@ },
            MergeCommand::SetupConflictWorkspace { path } => CommandView::SetupConflictWorkspace { path: path@ },
            MergeCommand::SpawnAgent { workspace_dir } => CommandView::SpawnAgent { workspace_dir: workspace_dir@ },
            MergeCommand::SetFacet { facet } => CommandView::SetFacet { facet: facet@ },
            MergeCommand::SetPermissionMode { mode } => CommandView::SetPermissionMode { mode: mode@ },
            MergeCommand::SetGoal { summary } => CommandView::SetGoal { summary: summary@ },
            MergeCommand::SendPrompt { content, max_turns } =>
                CommandView::SendPrompt { content: content@, max_turns: *max_turns },
            MergeCommand::GetAgentState => CommandView::GetAgentState,
            MergeCommand::Sleep { secs } => CommandView::Sleep { secs: *secs },
            MergeCommand::TerminateAgent => CommandView::TerminateAgent,
            MergeCommand::CheckConflicts => CommandView::CheckConflicts,
            MergeCommand::Finish => CommandView::Finish,
            MergeCommand::Stop => CommandView::Stop,
        }
    }
}

/// The outcome of a command.
#[derive(Clone, Copy, Debug)]
pub enum MergeEvent {
    Completed,
    Failed,
    Rebased { conflict: bool },
    AgentState { turn_in_flight: bool },
    Slept { elapsed_secs: u64 },
    /// `None` when jj could not be asked.
    ConflictCheck { conflicts: Option<bool> },
}

/// A merge in progress.
#[derive(Clone, Debug)]
pub struct MergeFlow {
    pub workspace_name: String,
    /// The workspace a resolution agent works in.
    pub resolution_path: String,
    pub commit: String,
    pub base_commit: String,
    pub issue_number: u64,
    pub base_branch: String,
    pub phase: MergePhase,
}

/// The view of a merge.
pub struct FlowView {
    pub workspace_name: Seq<char>,
    pub resolution_path: Seq<char>,
    pub commit: Seq<char>,
    pub base_commit: Seq<char>,
    pub issue_number: u64,
    pub base_branch: Seq<char>,
    pub phase: PhaseView,
}

impl View for MergeFlow {
    type V = FlowView;

    open spec fn view(&self) -> FlowView {
        FlowView {
            workspace_name: self.workspace_name@,
            resolution_path: self.resolution_path@,
            commit: self.commit@,
            base_commit: self.base_commit@,
            issue_number: self.issue_number,
            base_branch: self.base_branch@,
            phase: self.phase@,
        }
    }
}

/// The path recorded for workspace `name` (that of the first active implementer in it).
pub open spec fn recorded_path(imps: Seq<ActiveImplementer>, name: Seq<char>) -> Option<Seq<char>> {
    if exists|i: int| first_in_workspace(imps, name, i) {
        Some(imps[choose|i: int| first_in_workspace(imps, name, i)].workspace_path@)
    } else {
        None
    }
}

pub proof fn lemma_first_unique(imps: Seq<ActiveImplementer>, name: Seq<char>, i: int)
    requires
        first_in_workspace(imps, name, i),
    ensures
        recorded_path(imps, name) == Some(imps[i].workspace_path@),
{
    let j = choose|j: int| first_in_workspace(imps, name, j);
    assert(first_in_workspace(imps, name, j));
    if j < i {
        assert(imps[j].workspace_name@ != name);
    }
    if i < j {
        assert(imps[i].workspace_name@ != name);
    }
}

/// The workspace a resolution agent works in: the recorded one, or
/// `./<workspaces dir>/<name>`.
pub open spec fn resolution_path_for(imps: Seq<ActiveImplementer>, workspaces_dir: Seq<char>, name: Seq<char>) -> Seq<char> {
    match recorded_path(imps, name) {
        Some(p) => p,
        None => "./"@ + workspaces_dir + "/"@ + name,
    }
}

/// Where a resolution begins: with the give-up comment once the issue has had its
/// resolution attempts, otherwise with preparing the workspace for an agent.
pub open spec fn resolution_start(retries: Seq<ConflictRetry>, issue: u64) -> PhaseView {
    if retry_count(retries, issue) >= CONFLICT_RETRY_LIMIT {
        PhaseView::PersistentComment
    } else {
        PhaseView::Setup
    }
}

/// The state after `phase` when its command had outcome `e`.
pub open spec fn next_phase(f: FlowView, imps: Seq<ActiveImplementer>, retries: Seq<ConflictRetry>, e: MergeEvent) -> PhaseView {
    match f.phase {
        PhaseView::Rebase { resolved } => match e {
            MergeEvent::Rebased { conflict } => if !conflict {
                PhaseView::Bookmark { resolved }
            } else if !resolved {
                resolution_start(retries, f.issue_number)
            } else {
                PhaseView::Cleanup { path: f.resolution_path }
            },
            _ => PhaseView::Failed,
        },
        PhaseView::Bookmark { resolved } => if e is Completed { PhaseView::Push { resolved } } else { PhaseView::Failed },
        PhaseView::Push { resolved } => if e is Completed { PhaseView::Comment { resolved } } else { PhaseView::Failed },
        PhaseView::Comment { resolved } => if !(e is Completed) {
            PhaseView::Failed
        } else if resolved {
            PhaseView::Cleanup { path: f.resolution_path }
        } else {
            match recorded_path(imps, f.workspace_name) {
                Some(p) => PhaseView::Cleanup { path: p },
                None => PhaseView::Finished,
            }
        },
        PhaseView::PersistentComment => if e is Completed {
            PhaseView::Cleanup { path: f.resolution_path }
        } else {
            PhaseView::Failed
        },
        PhaseView::Cleanup { .. } => PhaseView::Finished,
        PhaseView::Setup => if e is Completed { PhaseView::Spawn } else { PhaseView::Failed },
        PhaseView::Spawn => if e is Completed { PhaseView::Facet } else { PhaseView::Failed },
        PhaseView::Facet => if e is Completed { PhaseView::Permissions } else { PhaseView::Failed },
        PhaseView::Permissions => if e is Completed { PhaseView::Goal } else { PhaseView::Failed },
        PhaseView::Goal => if e is Completed { PhaseView::Prompt } else { PhaseView::Failed },
        PhaseView::Prompt => if e is Completed { PhaseView::Poll } else { PhaseView::Failed },
        PhaseView::Poll => match e {
            MergeEvent::AgentState { turn_in_flight } => if turn_in_flight {
                PhaseView::Sleep
            } else {
                PhaseView::CheckConflicts
            },
            _ => PhaseView::Cleanup { path: f.resolution_path },
        },
        PhaseView::Sleep => match e {
            MergeEvent::Slept { elapsed_secs } => if elapsed_secs > RESOLUTION_TIMEOUT_SECS {
                PhaseView::Terminate { retry_merge: false }
            } else {
                PhaseView::Poll
            },
            _ => PhaseView::Poll,
        },
        PhaseView::CheckConflicts => match e {
            MergeEvent::ConflictCheck { conflicts: Some(false) } => PhaseView::Terminate { retry_merge: true },
            _ => PhaseView::Terminate { retry_merge: false },
        },
        PhaseView::Terminate { retry_merge } => if retry_merge {
            PhaseView::Rebase { resolved: true }
        } else {
            PhaseView::Cleanup { path: f.resolution_path }
        },
        PhaseView::Finished => PhaseView::Finished,
        PhaseView::Failed => PhaseView::Failed,
    }
}

/// What a step records in the state file.
pub enum Record {
    Nothing,
    /// The issue is completed with the merged commit, and its retry counter dropped.
    Merged,
    /// `Merged`, and the implementer released (there is no workspace to clean up).
    MergedAndReleased,
    /// One more failed resolution counted for the issue.
    FailedResolution,
    /// The implementer released from its workspace.
    Released,
}

/// What the step from `phase` with outcome `e` records.
pub open spec fn record_of(f: FlowView, imps: Seq<ActiveImplementer>, e: MergeEvent) -> Record {
    match f.phase {
        PhaseView::Rebase { resolved } => if resolved && e == (MergeEvent::Rebased { conflict: true }) {
            Record::FailedResolution
        } else {
            Record::Nothing
        },
        PhaseView::Comment { resolved } => if !(e is Completed) {
            Record::Nothing
        } else if !resolved && recorded_path(imps, f.workspace_name) is None {
            Record::MergedAndReleased
        } else {
            Record::Merged
        },
        PhaseView::Poll => if e is AgentState { Record::Nothing } else { Record::FailedResolution },
        PhaseView::Terminate { retry_merge } => if retry_merge { Record::Nothing } else { Record::FailedResolution },
        PhaseView::Cleanup { .. } => Record::Released,
        _ => Record::Nothing,
    }
}

/// The completed tasks after recording `issue` as merged with `commit` at `at`.
pub open spec fn merged_into(old: Seq<CompletedTask>, new: Seq<CompletedTask>, issue: u64, commit: Seq<char>, at: Seq<char>) -> bool {
    &&& new.len() > 0
    &&& new.drop_last() == completed_without(old, issue)
    &&& new.last().issue_number == issue
    &&& new.last().commit@ == commit
    &&& new.last().completed_at@ == at
}

/// The retry counters after one more failed resolution of `issue` (a counter at its
/// maximum stays there).
pub open spec fn counted(old: Seq<ConflictRetry>, issue: u64) -> Seq<ConflictRetry> {
    if retry_count(old, issue) < u32::MAX {
        retries_incremented(old, issue)
    } else {
        old
    }
}

/// Whether the state file went from `old` to `new` by recording `r` for the merge `f`
/// at time `now`.
pub open spec fn recorded(old: StateFile, new: StateFile, f: FlowView, r: Record, now: Seq<char>) -> bool {
    &&& new.version == old.version
    &&& new.needs_feedback@ == old.needs_feedback@
    &&& match r {
        Record::Nothing => new.active_implementers@ == old.active_implementers@
            && new.completed_tasks@ == old.completed_tasks@
            && new.conflict_retries@ == old.conflict_retries@,
        Record::Merged => new.active_implementers@ == old.active_implementers@
            && merged_into(old.completed_tasks@, new.completed_tasks@, f.issue_number, f.commit, now)
            && new.conflict_retries@ == retries_without(old.conflict_retries@, f.issue_number),
        Record::MergedAndReleased => new.active_implementers@ == imps_without_workspace(old.active_implementers@, f.workspace_name)
            && merged_into(old.completed_tasks@, new.completed_tasks@, f.issue_number, f.commit, now)
            && new.conflict_retries@ == retries_without(old.conflict_retries@, f.issue_number),
        Record::FailedResolution => new.active_implementers@ == old.active_implementers@
            && new.completed_tasks@ == old.completed_tasks@
            && new.conflict_retries@ == counted(old.conflict_retries@, f.issue_number),
        Record::Released => new.active_implementers@ == imps_without_workspace(old.active_implementers@, f.workspace_name)
            && new.completed_tasks@ == old.completed_tasks@
            && new.conflict_retries@ == old.conflict_retries@,
    }
}

/// The comment announcing a merge.
pub open spec fn merged_comment(commit: Seq<char>, branch: Seq<char>, resolved: bool) -> Seq<char> {
    if resolved {
        "<!-- grindbot -->\n\nImplementation complete (after conflict resolution). Commit `"@ + commit
            + "` has been merged to `"@ + branch + "`."@
    } else {
        "<!-- grindbot -->\n\nImplementation complete. Commit `"@ + commit + "` has been merged to `"@ + branch + "`."@
    }
}

/// The command a merge in phase `f.phase` issues.
pub open spec fn command_of(f: FlowView) -> CommandView {
    match f.phase {
        PhaseView::Rebase { .. } => CommandView::Rebase {
            revset: f.base_commit + "::"@ + f.commit,
            dest: f.base_branch + "@origin"@,
        },
        PhaseView::Bookmark { .. } => CommandView::SetBookmark { name: f.base_branch, rev: f.commit },
        PhaseView::Push { .. } => CommandView::Push { remote: "origin"@, branch: f.base_branch },
        PhaseView::Comment { resolved } => CommandView::PostComment {
            issue_number: f.issue_number,
            body: merged_comment(f.commit, f.base_branch, resolved),
        },
        PhaseView::PersistentComment => CommandView::PostComment {
            issue_number: f.issue_number,
            body: PERSISTENT_CONFLICT_COMMENT@,
        },
        PhaseView::Cleanup { path } => CommandView::CleanupWorkspace { name: f.workspace_name, path },
        PhaseView::Setup => CommandView::SetupConflictWorkspace { path: f.resolution_path },
        PhaseView::Spawn => CommandView::SpawnAgent { workspace_dir: f.resolution_path },
        PhaseView::Facet => CommandView::SetFacet { facet: "execute"@ },
        PhaseView::Permissions => CommandView::SetPermissionMode { mode: "bypass_plus"@ },
        PhaseView::Goal => CommandView::SetGoal { summary: "Resolve merge conflicts in workspace"@ },
        PhaseView::Prompt => CommandView::SendPrompt { content: RESOLUTION_PROMPT@, max_turns: RESOLUTION_MAX_TURNS },
        PhaseView::Poll => CommandView::GetAgentState,
        PhaseView::Sleep => CommandView::Sleep { secs: RESOLUTION_POLL_SECS },
        PhaseView::CheckConflicts => CommandView::CheckConflicts,
        PhaseView::Terminate { .. } => CommandView::TerminateAgent,
        PhaseView::Finished => CommandView::Finish,
        PhaseView::Failed => CommandView::Stop,
    }
}

fn resolution_path_exec(config: &Config, state_file: &StateFile, workspace_name: &str) -> (p: String)
    ensures
        p@ == resolution_path_for(state_file.active_implementers@, config.workspace.workspaces_dir@, workspace_name@),
{
    match find_in_workspace(&state_file.active_implementers, workspace_name) {
        Some(i) => {
            proof {
                lemma_first_unique(state_file.active_implementers@, workspace_name@, i as int);
            }
            state_file.active_implementers[i].workspace_path.clone()
        },
        None => {
            let mut p = owned("./");
            append_str(&mut p, config.workspace.workspaces_dir.as_str());
            append_str(&mut p, "/");
            append_str(&mut p, workspace_name);
            p
        },
    }
}

fn start_resolution(state_file: &StateFile, issue_number: u64) -> (p: MergePhase)
    ensures
        p@ == resolution_start(state_file.conflict_retries@, issue_number),
{
    if state_file.conflict_retry_count(issue_number) >= CONFLICT_RETRY_LIMIT {
        MergePhase::PersistentComment
    } else {
        MergePhase::Setup
    }
}

impl MergeFlow {
    /// A merge of the implementation `base_commit::commit` in workspace `workspace_name`:
    /// it begins with the rebase onto the base branch.
    pub fn merge(config: &Config, state_file: &StateFile, workspace_name: &str, commit: &str, base_commit: &str, issue_number: u64)
        -> (f: MergeFlow)
        ensures
            f@.workspace_name == workspace_name@,
            f@.resolution_path == resolution_path_for(state_file.active_implementers@, config.workspace.workspaces_dir@, workspace_name@),
            f@.commit == commit@,
            f@.base_commit == base_commit@,
            f@.issue_number == issue_number,
            f@.base_branch == config.supervisor.base_branch@,
            f@.phase == (PhaseView::Rebase { resolved: false }),
    {
        MergeFlow {
            workspace_name: owned(workspace_name),
            resolution_path: resolution_path_exec(config, state_file, workspace_name),
            commit: owned(commit),
            base_commit: owned(base_commit),
            issue_number,
            base_branch: config.supervisor.base_branch.clone(),
            phase: MergePhase::Rebase { resolved: false },
        }
    }

    /// The resolution of a merge that conflicted: it begins where `resolution_start` says.
    pub fn resolve(config: &Config, state_file: &StateFile, workspace_name: &str, commit: &str, base_commit: &str, issue_number: u64)
        -> (f: MergeFlow)
        ensures
            f@.workspace_name == workspace_name@,
            f@.resolution_path == resolution_path_for(state_file.active_implementers@, config.workspace.workspaces_dir@, workspace_name@),
            f@.commit == commit@,
            f@.base_commit == base_commit@,
            f@.issue_number == issue_number,
            f@.base_branch == config.supervisor.base_branch@,
            f@.phase == resolution_start(state_file.conflict_retries@, issue_number),
    {
        MergeFlow {
            workspace_name: owned(workspace_name),
            resolution_path: resolution_path_exec(config, state_file, workspace_name),
            commit: owned(commit),
            base_commit: owned(base_commit),
            issue_number,
            base_branch: config.supervisor.base_branch.clone(),
            phase: start_resolution(state_file, issue_number),
        }
    }

    /// The command the merge issues now.
    pub fn command(&self) -> (c: MergeCommand)
        ensures
            c@ == command_of(self@),
            self@.phase is Bookmark ==> c@ == (CommandView::SetBookmark { name: self@.base_branch, rev: self@.commit }),
            self@.phase is Setup ==> c@ == (CommandView::SetupConflictWorkspace { path: self@.resolution_path }),
            self@.phase is Spawn ==> c@ == (CommandView::SpawnAgent { workspace_dir: self@.resolution_path }),
    {
        match &self.phase {
            MergePhase::Rebase { .. } => {
                let mut revset = self.base_commit.clone();
                append_str(&mut revset, "::");
                append_str(&mut revset, self.commit.as_str());
                let mut dest = self.base_branch.clone();
                append_str(&mut dest, "@origin");
                MergeCommand::Rebase { revset, dest }
            },
            MergePhase::Bookmark { .. } => MergeCommand::SetBookmark { name: self.base_branch.clone(), rev: self.commit.clone() },
            MergePhase::Push { .. } => MergeCommand::Push { remote: owned("origin"), branch: self.base_branch.clone() },
            MergePhase::Comment { resolved } => {
                let mut body = if *resolved {
                    owned("<!-- grindbot -->\n\nImplementation complete (after conflict resolution). Commit `")
                } else {
                    owned("<!-- grindbot -->\n\nImplementation complete. Commit `")
                };
                append_str(&mut body, self.commit.as_str());
                append_str(&mut body, "` has been merged to `");
                append_str(&mut body, self.base_branch.as_str());
                append_str(&mut body, "`.");
                MergeCommand::PostComment { issue_number: self.issue_number, body }
            },
            MergePhase::PersistentComment => MergeCommand::PostComment {
                issue_number: self.issue_number,
                body: owned(PERSISTENT_CONFLICT_COMMENT),
            },
            MergePhase::Cleanup { path } => MergeCommand::CleanupWorkspace { name: self.workspace_name.clone(), path: path.clone() },
            MergePhase::Setup => MergeCommand::SetupConflictWorkspace { path: self.resolution_path.clone() },
            MergePhase::Spawn => MergeCommand::SpawnAgent { workspace_dir: self.resolution_path.clone() },
            MergePhase::Facet => MergeCommand::SetFacet { facet: owned("execute") },
            MergePhase::Permissions => MergeCommand::SetPermissionMode { mode: owned("bypass_plus") },
            MergePhase::Goal => MergeCommand::SetGoal { summary: owned("Resolve merge conflicts in workspace") },
            MergePhase::Prompt => MergeCommand::SendPrompt { content: owned(RESOLUTION_PROMPT), max_turns: RESOLUTION_MAX_TURNS },
            MergePhase::Poll => MergeCommand::GetAgentState,
            MergePhase::Sleep => MergeCommand::Sleep { secs: RESOLUTION_POLL_SECS },
            MergePhase::CheckConflicts => MergeCommand::CheckConflicts,
            MergePhase::Terminate { .. } => MergeCommand::TerminateAgent,
            MergePhase::Finished => MergeCommand::Finish,
            MergePhase::Failed => MergeCommand::Stop,
        }
    }

    /// Takes in the outcome of the current command: moves to the next phase and records
    /// in the state file what the step completes (`now` is the time of the step, RFC 3339).
    pub fn step(&mut self, state_file: &mut StateFile, event: MergeEvent, now: &str)
        ensures
            final(self)@.phase == next_phase(old(self)@, old(state_file).active_implementers@, old(state_file).conflict_retries@, event),
            final(self)@.workspace_name == old(self)@.workspace_name,
            final(self)@.resolution_path == old(self)@.resolution_path,
            final(self)@.commit == old(self)@.commit,
            final(self)@.base_commit == old(self)@.base_commit,
            final(self)@.issue_number == old(self)@.issue_number,
            final(self)@.base_branch == old(self)@.base_branch,
            recorded(*old(state_file), *final(state_file), old(self)@, record_of(old(self)@, old(state_file).active_implementers@, event), now@),
    {
        let ghost old_completed = state_file.completed_tasks@;
        let next = match &self.phase {
            MergePhase::Rebase { resolved } => match event {
                MergeEvent::Rebased { conflict } => if !conflict {
                    MergePhase::Bookmark { resolved: *resolved }
                } else if !*resolved {
                    start_resolution(state_file, self.issue_number)
                } else {
                    self.count_failure(state_file);
                    MergePhase::Cleanup { path: self.resolution_path.clone() }
                },
                _ => MergePhase::Failed,
            },
            MergePhase::Bookmark { resolved } => match event {
                MergeEvent::Completed => MergePhase::Push { resolved: *resolved },
                _ => MergePhase::Failed,
            },
            MergePhase::Push { resolved } => match event {
                MergeEvent::Completed => MergePhase::Comment { resolved: *resolved },
                _ => MergePhase::Failed,
            },
            MergePhase::Comment { resolved } => match event {
                MergeEvent::Completed => {
                    let path = if *resolved {
                        Some(self.resolution_path.clone())
                    } else {
                        match find_in_workspace(&state_file.active_implementers, self.workspace_name.as_str()) {
                            Some(i) => {
                                proof {
                                    lemma_first_unique(state_file.active_implementers@, self.workspace_name@, i as int);
                                }
                                Some(state_file.active_implementers[i].workspace_path.clone())
                            },
                            None => None,
                        }
                    };
                    state_file.add_completed(CompletedTask {
                        issue_number: self.issue_number,
                        commit: self.commit.clone(),
                        completed_at: owned(now),
                    });
                    assert(state_file.completed_tasks@.drop_last() =~= completed_without(old_completed, self.issue_number));
                    state_file.reset_conflict_retry(self.issue_number);
                    match path {
                        Some(p) => MergePhase::Cleanup { path: p },
                        None => {
                            state_file.remove_implementer(self.workspace_name.as_str());
                            MergePhase::Finished
                        },
                    }
                },
                _ => MergePhase::Failed,
            },
            MergePhase::PersistentComment => match event {
                MergeEvent::Completed => MergePhase::Cleanup { path: self.resolution_path.clone() },
                _ => MergePhase::Failed,
            },
            MergePhase::Cleanup { .. } => {
                state_file.remove_implementer(self.workspace_name.as_str());
                MergePhase::Finished
            },
            MergePhase::Setup => match event {
                MergeEvent::Completed => MergePhase::Spawn,
                _ => MergePhase::Failed,
            },
            MergePhase::Spawn => match event {
                MergeEvent::Completed => MergePhase::Facet,
                _ => MergePhase::Failed,
            },
            MergePhase::Facet => match event {
                MergeEvent::Completed => MergePhase::Permissions,
                _ => MergePhase::Failed,
            },
            MergePhase::Permissions => match event {
                MergeEvent::Completed => MergePhase::Goal,
                _ => MergePhase::Failed,
            },
            MergePhase::Goal => match event {
                MergeEvent::Completed => MergePhase::Prompt,
                _ => MergePhase::Failed,
            },
            MergePhase::Prompt => match event {
                MergeEvent::Completed => MergePhase::Poll,
                _ => MergePhase::Failed,
            },
            MergePhase::Poll => match event {
                MergeEvent::AgentState { turn_in_flight } => if turn_in_flight {
                    MergePhase::Sleep
                } else {
                    MergePhase::CheckConflicts
                },
                _ => {
                    self.count_failure(state_file);
                    MergePhase::Cleanup { path: self.resolution_path.clone() }
                },
            },
            MergePhase::Sleep => match event {
                MergeEvent::Slept { elapsed_secs } => if elapsed_secs > RESOLUTION_TIMEOUT_SECS {
                    MergePhase::Terminate { retry_merge: false }
                } else {
                    MergePhase::Poll
                },
                _ => MergePhase::Poll,
            },
            MergePhase::CheckConflicts => match event {
                MergeEvent::ConflictCheck { conflicts: Some(false) } => MergePhase::Terminate { retry_merge: true },
                _ => MergePhase::Terminate { retry_merge: false },
            },
            MergePhase::Terminate { retry_merge } => if *retry_merge {
                MergePhase::Rebase { resolved: true }
            } else {
                self.count_failure(state_file);
                MergePhase::Cleanup { path: self.resolution_path.clone() }
            },
            MergePhase::Finished => MergePhase::Finished,
            MergePhase::Failed => MergePhase::Failed,
        };
        self.phase = next;
    }

    /// Counts one more failed resolution of the merge's issue.
    fn count_failure(&self, state_file: &mut StateFile)
        ensures
            final(state_file).conflict_retries@ == counted(old(state_file).conflict_retries@, self.issue_number),
            final(state_file).version == old(state_file).version,
            final(state_file).active_implementers@ == old(state_file).active_implementers@,
            final(state_file).completed_tasks@ == old(state_file).completed_tasks@,
            final(state_file).needs_feedback@ == old(state_file).needs_feedback@,
    {
        if state_file.conflict_retry_count(self.issue_number) < u32::MAX {
            state_file.increment_conflict_retry(self.issue_number);
        }
    }
}


/// A resolution agent's workspace is prepared only for an issue that has had fewer than
/// `CONFLICT_RETRY_LIMIT` failed resolutions; past that, the issue's author is asked.
pub proof fn law_resolution_respects_retry_limit(
    f: FlowView,
    imps: Seq<ActiveImplementer>,
    retries: Seq<ConflictRetry>,
    e: MergeEvent,
)
    ensures
        next_phase(f, imps, retries, e) is Setup ==> !(f.phase is Setup)
            && retry_count(retries, f.issue_number) < CONFLICT_RETRY_LIMIT,
        next_phase(f, imps, retries, e) is PersistentComment ==> !(f.phase is PersistentComment)
            && retry_count(retries, f.issue_number) >= CONFLICT_RETRY_LIMIT,
{
}

/// An issue is recorded as completed only when the merge's comment was posted, and the
/// comment is posted only after a conflict-free rebase, the bookmark move and the push,
/// in that order.
pub proof fn law_completion_follows_push(
    f: FlowView,
    imps: Seq<ActiveImplementer>,
    retries: Seq<ConflictRetry>,
    e: MergeEvent,
)
    ensures
        (record_of(f, imps, e) is Merged || record_of(f, imps, e) is MergedAndReleased)
            ==> f.phase is Comment && e is Completed,
        (next_phase(f, imps, retries, e) is Comment && !(f.phase is Comment))
            ==> f.phase is Push && e is Completed,
        (next_phase(f, imps, retries, e) is Push && !(f.phase is Push))
            ==> f.phase is Bookmark && e is Completed,
        (next_phase(f, imps, retries, e) is Bookmark && !(f.phase is Bookmark))
            ==> f.phase is Rebase && e == (MergeEvent::Rebased { conflict: false }),
{
}

/// A merge that finishes has released its implementer from the workspace.
pub proof fn law_finish_releases(f: FlowView, imps: Seq<ActiveImplementer>, retries: Seq<ConflictRetry>, e: MergeEvent)
    ensures
        (next_phase(f, imps, retries, e) is Finished && !(f.phase is Finished)) ==> (record_of(f, imps, e) is Released
            || record_of(f, imps, e) is MergedAndReleased),
{
}

/// A step that fails records nothing, and a merge that has finished or failed stays so
/// and records nothing more.
pub proof fn law_failure_records_nothing(f: FlowView, imps: Seq<ActiveImplementer>, retries: Seq<ConflictRetry>, e: MergeEvent)
    ensures
        next_phase(f, imps, retries, e) is Failed ==> record_of(f, imps, e) is Nothing,
        f.phase is Finished ==> next_phase(f, imps, retries, e) is Finished && record_of(f, imps, e) is Nothing,
        f.phase is Failed ==> next_phase(f, imps, retries, e) is Failed && record_of(f, imps, e) is Nothing,
{
}

/// A merge whose rebase went through moves the base branch to the implementation's
/// commit (the tip of the merged work), not to any other revision.
pub proof fn law_clean_rebase_moves_branch_to_commit(
    f: FlowView,
    imps: Seq<ActiveImplementer>,
    retries: Seq<ConflictRetry>,
    resolved: bool,
)
    requires
        f.phase == (PhaseView::Rebase { resolved }),
    ensures
        ({
            let g = FlowView { phase: next_phase(f, imps, retries, MergeEvent::Rebased { conflict: false }), ..f };
            command_of(g) == (CommandView::SetBookmark { name: f.base_branch, rev: f.commit })
        }),
{
}

/// A resolution agent is spawned in the very workspace directory that was prepared for
/// it: the setup writes to the merge's resolution path, and once the setup completes the
/// agent is started there.
pub proof fn law_agent_spawned_where_workspace_was_set_up(
    f: FlowView,
    imps: Seq<ActiveImplementer>,
    retries: Seq<ConflictRetry>,
)
    requires
        f.phase is Setup,
    ensures
        command_of(f) == (CommandView::SetupConflictWorkspace { path: f.resolution_path }),
        ({
            let g = FlowView { phase: next_phase(f, imps, retries, MergeEvent::Completed), ..f };
            command_of(g) == (CommandView::SpawnAgent { workspace_dir: f.resolution_path })
        }),
{
}

} // verus!
