//! The supervisor's decisions between the calls it makes to the outside: how observed
//! sessions and workspaces become the planner's state, what startup cleanup does with
//! each workspace, where an action's workspace lies, and how actions are described.

use vstd::prelude::*;
use crate::config::{same_config, workspace_name_of, Config};
use crate::io::SessionInfo;
use crate::kernel::actions::{Action, ActionView, CleanupReason};
use crate::kernel::laws::count_where;
use crate::kernel::state::{
    ImplementerResult, ImplementerState, ImplementerStateView, ImplementerStatus, ImplementerStatusView, Issue,
    SupervisorState, WorkspaceState,
};
use crate::state_file::{feedback_without, imps_without_workspace, ActiveImplementer, NeedsFeedbackTask, StateFile};
use crate::text::{
    append_str, chars_of, decimal, owned, parse_u64, parse_u64_spec, path_join, seq_starts_with,
    starts_with, strip_prefix, strip_prefix_chars, u64_to_string,
};
use crate::workspace::workspace_path;
use crate::io::github::{is_supervisor_body, SUPERVISOR_MARKER};
use crate::kernel::planner::{invalid_handoff_body, needs_feedback_body};
use crate::merge_flow::{merged_comment, recorded, FlowView, Record, PERSISTENT_CONFLICT_COMMENT};
use crate::kernel::filters::{eligible, last_by_supervisor};
use crate::kernel::state::IssueView;
use crate::state_file::CompletedTask;
use crate::text::trim_start;

verus! {

/// Whether `i` is the first active implementer working in workspace `name`.
pub open spec fn first_in_workspace(imps: Seq<ActiveImplementer>, name: Seq<char>, i: int) -> bool {
    &&& 0 <= i < imps.len()
    &&& imps[i].workspace_name@ == name
    &&& forall|j: int| 0 <= j < i ==> #[trigger] imps[j].workspace_name@ != name
}

/// Whether no active implementer works in workspace `name`.
pub open spec fn none_in_workspace(imps: Seq<ActiveImplementer>, name: Seq<char>) -> bool {
    forall|j: int| 0 <= j < imps.len() ==> #[trigger] imps[j].workspace_name@ != name
}

/// The index of the first active implementer in workspace `name`.
pub fn find_in_workspace(imps: &Vec<ActiveImplementer>, name: &str) -> (r: Option<usize>)
    ensures
        match r {
            Some(i) => first_in_workspace(imps@, name@, i as int),
            None => none_in_workspace(imps@, name@),
        },
{
    let n = owned(name);
    let mut i: usize = 0;
    while i < imps.len()
        invariant
            i <= imps.len(),
            n@ == name@,
            forall|j: int| 0 <= j < i ==> #[trigger] imps@[j].workspace_name@ != name@,
        decreases imps.len() - i,
    {
        if imps[i].workspace_name == n {
            return Some(i);
        }
        i = i + 1;
    }
    None
}

/// The path recorded for workspace `name`: that of the first active implementer in it.
pub fn find_workspace_path(_config: &Config, state_file: &StateFile, workspace_name: &str) -> (r: Option<String>)
    ensures
        match r {
            Some(p) => exists|i: int| first_in_workspace(state_file.active_implementers@, workspace_name@, i)
                && p@ == state_file.active_implementers@[i].workspace_path@,
            None => none_in_workspace(state_file.active_implementers@, workspace_name@),
        },
{
    match find_in_workspace(&state_file.active_implementers, workspace_name) {
        Some(i) => Some(state_file.active_implementers[i].workspace_path.clone()),
        None => None,
    }
}

/// How to reach an active implementer's session again.
pub fn reconstruct_session_info(active: &ActiveImplementer) -> (s: SessionInfo)
    ensures
        s.session_id@ == active.session_id@,
        s.port == active.port,
        s.bearer_token@ == active.bearer_token@,
        s.credential_file@ == active.credential_file@,
{
    SessionInfo {
        session_id: active.session_id.clone(),
        port: active.port,
        bearer_token: active.bearer_token.clone(),
        credential_file: active.credential_file.clone(),
    }
}

/// `reconstruct_session_info`, for the status report.
pub fn reconstruct_session_info_pub(active: &ActiveImplementer) -> (s: SessionInfo)
    ensures
        s.session_id@ == active.session_id@,
        s.port == active.port,
        s.bearer_token@ == active.bearer_token@,
        s.credential_file@ == active.credential_file@,
{
    reconstruct_session_info(active)
}

/// The session to terminate for `session_id`: that of the first active implementer with
/// this session, or else one that knows only the id (port 0, no token, no credential file).
pub fn session_for_termination(state_file: &StateFile, session_id: &str) -> (s: SessionInfo)
    ensures
        s.session_id@ == session_id@,
        (exists|i: int| 0 <= i < state_file.active_implementers@.len()
            && (forall|j: int| 0 <= j < i ==> #[trigger] state_file.active_implementers@[j].session_id@ != session_id@)
            && state_file.active_implementers@[i].session_id@ == session_id@
            && s.port == state_file.active_implementers@[i].port
            && s.bearer_token@ == state_file.active_implementers@[i].bearer_token@
            && s.credential_file@ == state_file.active_implementers@[i].credential_file@)
        || ((forall|j: int| 0 <= j < state_file.active_implementers@.len()
                ==> #[trigger] state_file.active_implementers@[j].session_id@ != session_id@)
            && s.port == 0 && s.bearer_token@.len() == 0 && s.credential_file@.len() == 0),
{
    let id = owned(session_id);
    let imps = &state_file.active_implementers;
    let mut i: usize = 0;
    while i < imps.len()
        invariant
            i <= imps.len(),
            id@ == session_id@,
            imps == &state_file.active_implementers,
            forall|j: int| 0 <= j < i ==> #[trigger] imps@[j].session_id@ != session_id@,
        decreases imps.len() - i,
    {
        if imps[i].session_id == id {
            return reconstruct_session_info(&imps[i]);
        }
        i = i + 1;
    }
    SessionInfo { session_id: id, port: 0, bearer_token: String::new(), credential_file: String::new() }
}

/// What the result file of a session holds.
#[derive(Clone, Debug)]
pub enum ResultFile {
    /// There is no result file.
    Absent,
    /// The handoff the file records.
    Parsed(ImplementerResult),
    /// The file exists but does not hold a handoff result (or cannot be read); the error.
    Unparsable(String),
}

/// A session's status from whether it is alive and what its result file holds: a result
/// decides; a file that holds no result counts as a crash; without a file, a live session
/// is running and a dead one has crashed.
pub fn implementer_status(alive: bool, result: ResultFile) -> (s: ImplementerStatus)
    ensures
        match result {
            ResultFile::Absent => if alive { s is Running } else { s is Crashed },
            ResultFile::Parsed(r) => s@ == ImplementerStatusView::Finished(r@),
            ResultFile::Unparsable(_) => s is Crashed,
        },
{
    match result {
        ResultFile::Absent => if alive { ImplementerStatus::Running } else { ImplementerStatus::Crashed },
        ResultFile::Parsed(r) => ImplementerStatus::Finished(r),
        ResultFile::Unparsable(_) => ImplementerStatus::Crashed,
    }
}

/// `chrono::DateTime::parse_from_rfc3339` followed by `timestamp` and
/// `timestamp_subsec_nanos`: the instant an RFC 3339 text denotes, as seconds since the
/// epoch and nanoseconds into that second.
pub uninterp spec fn rfc3339_instant(text: Seq<char>) -> Option<(i64, u32)>;

/// Parses an RFC 3339 timestamp with chrono. chrono's grammar is named, not written out.
#[verifier::external_body]
fn parse_rfc3339(text: &str) -> (r: Option<(i64, u32)>)
    ensures
        r == rfc3339_instant(text@),
{
    match chrono::DateTime::parse_from_rfc3339(text) {
        Ok(dt) => Some((dt.timestamp(), dt.timestamp_subsec_nanos())),
        Err(_) => None,
    }
}

/// A stored start time, or `now` when it does not parse (seconds and nanoseconds).
pub fn parse_started_at(text: &str, now: (i64, u32)) -> (r: (i64, u32))
    ensures
        r == (match rfc3339_instant(text@) {
            Some(t) => t,
            None => now,
        }),
{
    match parse_rfc3339(text) {
        Some(t) => t,
        None => now,
    }
}

/// An instant in nanoseconds since the epoch.
pub open spec fn nanos_of(t: (i64, u32)) -> int {
    t.0 * 1_000_000_000 + t.1
}

/// Executable `nanos_of`.
pub fn instant_nanos(t: (i64, u32)) -> (n: i128)
    ensures
        n == nanos_of(t),
{
    (t.0 as i128) * 1_000_000_000 + (t.1 as i128)
}

/// The planner's view of an active implementer: its record, the start time parsed
/// (`now` when it does not parse) and the observed status.
pub fn implementer_from_active(active: &ActiveImplementer, status: ImplementerStatus, now: (i64, u32))
    -> (s: ImplementerState)
    ensures
        s.issue_number == active.issue_number,
        s.session_id@ == active.session_id@,
        s.workspace_name@ == active.workspace_name@,
        s.workspace_path@ == active.workspace_path@,
        s.base_commit@ == active.base_commit@,
        s.started_at == nanos_of(match rfc3339_instant(active.started_at@) {
            Some(t) => t,
            None => now,
        }),
        s.status == status,
        s.used_tokens is None,
        s.limit_tokens is None,
        s.stall_cycles == 0,
        s.most_recent_assistant_text is None,
{
    let t = parse_started_at(active.started_at.as_str(), now);
    ImplementerState {
        issue_number: active.issue_number,
        session_id: active.session_id.clone(),
        workspace_name: active.workspace_name.clone(),
        workspace_path: active.workspace_path.clone(),
        base_commit: active.base_commit.clone(),
        started_at: instant_nanos(t),
        status,
        used_tokens: None,
        limit_tokens: None,
        stall_cycles: 0,
        most_recent_assistant_text: None,
    }
}

/// Where a session's result file lies in its workspace.
pub open spec fn result_path_of(workspace_path: Seq<char>) -> Seq<char> {
    workspace_path + "/.grindbot/result.json"@
}

/// Executable `result_path_of`.
pub fn result_file_path(workspace_path: &str) -> (p: String)
    ensures
        p@ == result_path_of(workspace_path@),
{
    let mut p = owned(workspace_path);
    append_str(&mut p, "/.grindbot/result.json");
    p
}

/// Whether a jj workspace is one the supervisor manages: its name begins with the prefix.
pub fn is_managed_workspace(config: &Config, name: &str) -> (b: bool)
    ensures
        b == seq_starts_with(name@, config.workspace.prefix@),
{
    let n = chars_of(name);
    let p = chars_of(config.workspace.prefix.as_str());
    starts_with(n.as_slice(), p.as_slice())
}

/// The issue number in a managed workspace's name (`<prefix>-<number>`), or 0.
pub open spec fn workspace_issue(prefix: Seq<char>, name: Seq<char>) -> u64 {
    match strip_prefix(name, prefix + "-"@) {
        Some(rest) => match parse_u64_spec(rest) {
            Some(n) => n,
            None => 0,
        },
        None => 0,
    }
}

/// Executable `workspace_issue`.
pub fn workspace_issue_number(config: &Config, name: &str) -> (n: u64)
    ensures
        n == workspace_issue(config.workspace.prefix@, name@),
{
    let mut p = owned(config.workspace.prefix.as_str());
    append_str(&mut p, "-");
    let pv = chars_of(p.as_str());
    let nv = chars_of(name);
    match strip_prefix_chars(nv.as_slice(), pv.as_slice()) {
        Some(rest) => match parse_u64(rest.as_slice()) {
            Some(n) => n,
            None => 0,
        },
        None => 0,
    }
}

/// The planner's view of managed workspace `name`: its path (derived from the issue
/// number in its name), and, when an active implementer works in it, that implementer's
/// issue and session and whether the session is alive.
pub fn workspace_state_for(
    config: &Config,
    repo_path: &str,
    state_file: &StateFile,
    name: &str,
    session_alive: bool,
    has_result_file: bool,
) -> (w: WorkspaceState)
    ensures
        w.name@ == name@,
        w.path@ == path_join(path_join(repo_path@, config.workspace.workspaces_dir@),
            workspace_name_of(config.workspace.prefix@, workspace_issue(config.workspace.prefix@, name@))),
        w.has_result_file == has_result_file,
        match w.task_issue {
            Some(n) => exists|i: int| first_in_workspace(state_file.active_implementers@, name@, i)
                && n == state_file.active_implementers@[i].issue_number
                && (w.session_id matches Some(s) && s@ == state_file.active_implementers@[i].session_id@)
                && w.daemon_alive == session_alive,
            None => none_in_workspace(state_file.active_implementers@, name@) && w.session_id is None
                && !w.daemon_alive,
        },
{
    let n = workspace_issue_number(config, name);
    let path = workspace_path(config, repo_path, n);
    match find_in_workspace(&state_file.active_implementers, name) {
        Some(i) => {
            let a = &state_file.active_implementers[i];
            WorkspaceState {
                name: owned(name),
                path,
                task_issue: Some(a.issue_number),
                session_id: Some(a.session_id.clone()),
                daemon_alive: session_alive,
                has_result_file,
            }
        },
        None => WorkspaceState {
            name: owned(name),
            path,
            task_issue: None,
            session_id: None,
            daemon_alive: false,
            has_result_file,
        },
    }
}

/// The state the planner is given: the configuration, the open issues, the observed
/// implementers and workspaces, the main head and the completed issues on record.
pub fn assemble_state(
    config: &Config,
    issues: Vec<Issue>,
    implementers: Vec<ImplementerState>,
    workspaces: Vec<WorkspaceState>,
    main_head: String,
    state_file: &StateFile,
) -> (s: SupervisorState)
    ensures
        same_config(s.config, *config),
        s.issues == issues,
        s.implementers == implementers,
        s.workspaces == workspaces,
        s.main_head == main_head,
        s.completed_issues@ == state_file.completed_tasks@.map_values(|t: crate::state_file::CompletedTask| t.issue_number),
{
    SupervisorState {
        config: config.duplicate(),
        issues,
        implementers,
        workspaces,
        main_head,
        completed_issues: state_file.completed_issues(),
    }
}

/// What startup cleanup does with a jj workspace.
#[derive(Clone, Debug)]
pub enum StartupStep {
    /// Not a managed workspace.
    Skip,
    /// A managed workspace with an active implementer (the first recorded for it): when
    /// its session is dead, its result is processed and the workspace cleaned up.
    CheckSession { active: ActiveImplementer },
    /// A managed workspace nobody works in: cleaned up at `path`.
    CleanupOrphan { path: String },
}

/// Startup cleanup's decision for workspace `name`.
pub fn startup_step(config: &Config, repo_path: &str, state_file: &StateFile, name: &str) -> (s: StartupStep)
    ensures
        !seq_starts_with(name@, config.workspace.prefix@) ==> s is Skip,
        seq_starts_with(name@, config.workspace.prefix@) ==> match s {
            StartupStep::Skip => false,
            StartupStep::CheckSession { active } => exists|i: int|
                first_in_workspace(state_file.active_implementers@, name@, i)
                && active == state_file.active_implementers@[i],
            StartupStep::CleanupOrphan { path } => none_in_workspace(state_file.active_implementers@, name@)
                && path@ == repo_path@ + "/"@ + config.workspace.workspaces_dir@ + "/"@ + name@,
        },
{
    if !is_managed_workspace(config, name) {
        return StartupStep::Skip;
    }
    match find_in_workspace(&state_file.active_implementers, name) {
        Some(i) => StartupStep::CheckSession { active: state_file.active_implementers[i].duplicate() },
        None => {
            let mut p = owned(repo_path);
            append_str(&mut p, "/");
            append_str(&mut p, config.workspace.workspaces_dir.as_str());
            append_str(&mut p, "/");
            append_str(&mut p, name);
            StartupStep::CleanupOrphan { path: p }
        },
    }
}


/// The workspace whose implementer the state file forgets once an action has been
/// carried out: that of a cleanup or of a discarded implementation. No other action
/// forgets an implementer.
pub fn forgotten_workspace(action: &Action) -> (r: Option<String>)
    ensures
        match action {
            Action::CleanupWorkspace { workspace_name, .. } => (r matches Some(n) && n@ == workspace_name@),
            Action::DiscardImplementation { workspace_name, .. } => (r matches Some(n) && n@ == workspace_name@),
            _ => r is None,
        },
{
    match action {
        Action::CleanupWorkspace { workspace_name, .. } => Some(workspace_name.clone()),
        Action::DiscardImplementation { workspace_name, .. } => Some(workspace_name.clone()),
        _ => None,
    }
}

/// What startup cleanup does with the session of an active implementer.
#[derive(Clone, Debug)]
pub enum SessionStep {
    /// The session lives: it is left alone.
    Leave,
    /// The session is dead with no result that parses: its workspace is cleaned up and
    /// the implementer forgotten.
    Discard,
    /// The session is dead and finished its work: the commit is merged, then as `Discard`.
    MergeThenDiscard { commit: String },
    /// The session is dead and asked for feedback: the message is posted and recorded,
    /// then as `Discard`.
    FeedbackThenDiscard { message: String },
}

/// Startup cleanup's decision for a session, from whether it is alive and the handoff its
/// result file holds (`None` when there is no file or it does not parse).
pub fn session_step(alive: bool, result: Option<ImplementerResult>) -> (s: SessionStep)
    ensures
        alive ==> s is Leave,
        !alive ==> match result {
            None => s is Discard,
            Some(ImplementerResult::Done { commit }) => (s matches SessionStep::MergeThenDiscard { commit: c }
                && c@ == commit@),
            Some(ImplementerResult::NeedsFeedback { message }) => (s matches SessionStep::FeedbackThenDiscard {
                message: m,
            } && m@ == message@),
        },
{
    if alive {
        return SessionStep::Leave;
    }
    match result {
        None => SessionStep::Discard,
        Some(ImplementerResult::Done { commit }) => SessionStep::MergeThenDiscard { commit },
        Some(ImplementerResult::NeedsFeedback { message }) => SessionStep::FeedbackThenDiscard { message },
    }
}

/// How many of the implementers have a status that satisfies `f`.
pub open spec fn status_count(imps: Seq<ImplementerStateView>, f: spec_fn(ImplementerStatusView) -> bool) -> nat
    decreases imps.len(),
{
    if imps.len() == 0 {
        0
    } else {
        status_count(imps.drop_last(), f) + if f(imps.last().status) { 1nat } else { 0nat }
    }
}

proof fn lemma_status_count_bound(imps: Seq<ImplementerStateView>, f: spec_fn(ImplementerStatusView) -> bool)
    ensures
        status_count(imps, f) <= imps.len(),
    decreases imps.len(),
{
    if imps.len() > 0 {
        lemma_status_count_bound(imps.drop_last(), f);
    }
}

proof fn lemma_count_where_bound(a: Seq<ActionView>, f: spec_fn(ActionView) -> bool)
    ensures
        count_where(a, f) <= a.len(),
    decreases a.len(),
{
    if a.len() > 0 {
        lemma_count_where_bound(a.drop_last(), f);
    }
}

/// The counts a cycle reports.
#[derive(Clone, Debug)]
pub struct CycleSummary {
    pub running: usize,
    pub finished: usize,
    pub crashed: usize,
    pub total_issues: usize,
    pub completed: usize,
    pub action_count: usize,
}

/// The counts reported after planning a cycle: implementers running, finished and
/// crashed, open issues, completed issues, and the actions other than `Noop`.
pub fn cycle_summary(state: &SupervisorState, actions: &Vec<Action>) -> (c: CycleSummary)
    ensures
        c.running == status_count(state@.implementers, |s: ImplementerStatusView| s is Running),
        c.finished == status_count(state@.implementers, |s: ImplementerStatusView| s is Finished),
        c.crashed == status_count(state@.implementers, |s: ImplementerStatusView| s is Crashed),
        c.total_issues == state.issues@.len(),
        c.completed == state.completed_issues@.len(),
        c.action_count == count_where(actions@.map_values(|a: Action| a@), |a: ActionView| !(a is Noop)),
{
    let ghost imps = state@.implementers;
    let ghost fr = |s: ImplementerStatusView| s is Running;
    let ghost ff = |s: ImplementerStatusView| s is Finished;
    let ghost fc = |s: ImplementerStatusView| s is Crashed;
    let mut running: usize = 0;
    let mut finished: usize = 0;
    let mut crashed: usize = 0;
    let mut i: usize = 0;
    while i < state.implementers.len()
        invariant
            i <= state.implementers.len(),
            imps == state@.implementers,
            imps.len() == state.implementers@.len(),
            fr == (|s: ImplementerStatusView| s is Running),
            ff == (|s: ImplementerStatusView| s is Finished),
            fc == (|s: ImplementerStatusView| s is Crashed),
            running == status_count(imps.take(i as int), fr),
            finished == status_count(imps.take(i as int), ff),
            crashed == status_count(imps.take(i as int), fc),
        decreases state.implementers.len() - i,
    {
        proof {
            assert(imps.take(i + 1).drop_last() =~= imps.take(i as int));
            assert(imps.take(i + 1).last() == state.implementers@[i as int]@);
            lemma_status_count_bound(imps.take(i as int), fr);
            lemma_status_count_bound(imps.take(i as int), ff);
            lemma_status_count_bound(imps.take(i as int), fc);
        }
        match &state.implementers[i].status {
            ImplementerStatus::Running => {
                running = running + 1;
            },
            ImplementerStatus::Finished(_) => {
                finished = finished + 1;
            },
            ImplementerStatus::Crashed => {
                crashed = crashed + 1;
            },
            ImplementerStatus::Malformed { .. } => {},
        }
        i = i + 1;
    }
    assert(imps.take(i as int) =~= imps);
    let ghost avs = actions@.map_values(|a: Action| a@);
    let ghost fa = |a: ActionView| !(a is Noop);
    let mut n: usize = 0;
    let mut k: usize = 0;
    while k < actions.len()
        invariant
            k <= actions.len(),
            avs == actions@.map_values(|a: Action| a@),
            fa == (|a: ActionView| !(a is Noop)),
            n == count_where(avs.take(k as int), fa),
        decreases actions.len() - k,
    {
        proof {
            assert(avs.take(k + 1).drop_last() =~= avs.take(k as int));
            assert(avs.take(k + 1).last() == actions@[k as int]@);
            lemma_count_where_bound(avs.take(k as int), fa);
        }
        match &actions[k] {
            Action::Noop => {},
            _ => {
                n = n + 1;
            },
        }
        k = k + 1;
    }
    assert(avs.take(k as int) =~= avs);
    CycleSummary {
        running,
        finished,
        crashed,
        total_issues: state.issues.len(),
        completed: state.completed_issues.len(),
        action_count: n,
    }
}

/// The name of a cleanup reason, as `{:?}` writes it.
pub open spec fn reason_name(r: CleanupReason) -> Seq<char> {
    match r {
        CleanupReason::SessionCrashed => "SessionCrashed"@,
        CleanupReason::SessionStalled => "SessionStalled"@,
        CleanupReason::SessionFinished => "SessionFinished"@,
        CleanupReason::MalformedHandoff => "MalformedHandoff"@,
        CleanupReason::OrphanedWorkspace => "OrphanedWorkspace"@,
    }
}

fn reason_text(r: CleanupReason) -> (s: &'static str)
    ensures
        s@ == reason_name(r),
{
    match r {
        CleanupReason::SessionCrashed => "SessionCrashed",
        CleanupReason::SessionStalled => "SessionStalled",
        CleanupReason::SessionFinished => "SessionFinished",
        CleanupReason::MalformedHandoff => "MalformedHandoff",
        CleanupReason::OrphanedWorkspace => "OrphanedWorkspace",
    }
}

/// The dry-run line that describes an action.
pub open spec fn action_line(a: ActionView) -> Seq<char> {
    match a {
        ActionView::Noop => "  NOOP     no actions this cycle"@,
        ActionView::StartImplementer { issue, workspace_name, .. } =>
            "  START    implementer for issue #"@ + decimal(issue.number as nat) + " in workspace "@ + workspace_name,
        ActionView::CleanupWorkspace { workspace_name, reason } =>
            "  CLEANUP  workspace "@ + workspace_name + " ("@ + reason_name(reason) + ")"@,
        ActionView::MergeImplementation { workspace_name, commit, .. } =>
            "  MERGE    implementation from "@ + workspace_name + " (commit: "@ + commit + ")"@,
        ActionView::PostComment { issue_number, .. } => "  COMMENT  on issue #"@ + decimal(issue_number as nat),
        ActionView::ResolveConflict { workspace_name, .. } => "  RESOLVE  conflict in "@ + workspace_name,
        ActionView::DiscardImplementation { workspace_name, issue_number } =>
            "  DISCARD  implementation from "@ + workspace_name + " (issue #"@ + decimal(issue_number as nat) + ")"@,
        ActionView::TerminateSession { session_id } => "  TERM     session "@ + session_id,
        ActionView::PushToRemote => "  PUSH     to remote"@,
    }
}

/// Describes an action for the dry-run listing.
pub fn format_action(action: &Action) -> (s: String)
    ensures
        s@ == action_line(action@),
{
    match action {
        Action::Noop => owned("  NOOP     no actions this cycle"),
        Action::StartImplementer { issue, workspace_name, .. } => {
            let mut s = owned("  START    implementer for issue #");
            append_str(&mut s, u64_to_string(issue.number).as_str());
            append_str(&mut s, " in workspace ");
            append_str(&mut s, workspace_name.as_str());
            s
        },
        Action::CleanupWorkspace { workspace_name, reason } => {
            let mut s = owned("  CLEANUP  workspace ");
            append_str(&mut s, workspace_name.as_str());
            append_str(&mut s, " (");
            append_str(&mut s, reason_text(*reason));
            append_str(&mut s, ")");
            s
        },
        Action::MergeImplementation { workspace_name, commit, .. } => {
            let mut s = owned("  MERGE    implementation from ");
            append_str(&mut s, workspace_name.as_str());
            append_str(&mut s, " (commit: ");
            append_str(&mut s, commit.as_str());
            append_str(&mut s, ")");
            s
        },
        Action::PostComment { issue_number, .. } => {
            let mut s = owned("  COMMENT  on issue #");
            append_str(&mut s, u64_to_string(*issue_number).as_str());
            s
        },
        Action::ResolveConflict { workspace_name, .. } => {
            let mut s = owned("  RESOLVE  conflict in ");
            append_str(&mut s, workspace_name.as_str());
            s
        },
        Action::DiscardImplementation { workspace_name, issue_number } => {
            let mut s = owned("  DISCARD  implementation from ");
            append_str(&mut s, workspace_name.as_str());
            append_str(&mut s, " (issue #");
            append_str(&mut s, u64_to_string(*issue_number).as_str());
            append_str(&mut s, ")");
            s
        },
        Action::TerminateSession { session_id } => {
            let mut s = owned("  TERM     session ");
            append_str(&mut s, session_id.as_str());
            s
        },
        Action::PushToRemote => owned("  PUSH     to remote"),
    }
}


/// Records that an implementer asked for feedback and is done: the request is kept
/// (replacing an earlier one for the issue) and the implementer released from its workspace.
pub fn record_needs_feedback(state_file: &mut StateFile, issue_number: u64, message: &str, timestamp: &str, workspace_name: &str)
    ensures
        final(state_file).needs_feedback@.len() > 0,
        final(state_file).needs_feedback@.drop_last() == feedback_without(old(state_file).needs_feedback@, issue_number),
        final(state_file).needs_feedback@.last().issue_number == issue_number,
        final(state_file).needs_feedback@.last().message@ == message@,
        final(state_file).needs_feedback@.last().timestamp@ == timestamp@,
        final(state_file).active_implementers@ == imps_without_workspace(old(state_file).active_implementers@, workspace_name@),
        final(state_file).completed_tasks@ == old(state_file).completed_tasks@,
        final(state_file).conflict_retries@ == old(state_file).conflict_retries@,
        final(state_file).version == old(state_file).version,
{
    let ghost before = state_file.needs_feedback@;
    state_file.add_needs_feedback(NeedsFeedbackTask {
        issue_number,
        message: owned(message),
        timestamp: owned(timestamp),
    });
    assert(state_file.needs_feedback@.drop_last() =~= feedback_without(before, issue_number));
    state_file.remove_implementer(workspace_name);
}


/// The name of the workspace made for an issue gives back the issue's number, so that the
/// workspaces listed by jj are matched to their issues.
pub proof fn law_workspace_name_roundtrip(prefix: Seq<char>, n: u64)
    ensures
        workspace_issue(prefix, workspace_name_of(prefix, n)) == n,
{
    reveal_strlit("-");
    assert("-"@ =~= seq!['-']);
    let name = workspace_name_of(prefix, n);
    let p = prefix + "-"@;
    assert(name.take(p.len() as int) =~= p);
    assert(name.skip(p.len() as int) =~= decimal(n as nat));
    crate::text::lemma_decimal_parses(n as nat);
}


proof fn lemma_marked(lit: Seq<char>, rest: Seq<char>)
    requires
        seq_starts_with(lit, SUPERVISOR_MARKER@),
        SUPERVISOR_MARKER@.len() > 0,
        SUPERVISOR_MARKER@[0] == '<',
    ensures
        is_supervisor_body(lit + rest),
{
    let s = lit + rest;
    assert(s[0] == lit[0]);
    assert(lit[0] == lit.take(SUPERVISOR_MARKER@.len() as int)[0]);
    assert(!crate::text::is_ws(s[0]));
    assert(trim_start(s) == s);
    assert(s.take(SUPERVISOR_MARKER@.len() as int) =~= lit.take(SUPERVISOR_MARKER@.len() as int));
}

/// Every comment the supervisor posts (a merge, a merge after conflict resolution, a
/// feedback request, an invalid handoff, and the give-up after failed resolutions) carries
/// the supervisor marker, so an issue whose last comment is one of them waits for a human
/// reply before it is picked up again.
pub proof fn law_supervisor_comments_are_marked(commit: Seq<char>, branch: Seq<char>, resolved: bool, message: Seq<char>)
    ensures
        is_supervisor_body(merged_comment(commit, branch, resolved)),
        is_supervisor_body(needs_feedback_body(message)),
        is_supervisor_body(invalid_handoff_body(message)),
        is_supervisor_body(PERSISTENT_CONFLICT_COMMENT@),
{
    reveal_strlit("<!-- grindbot -->");
    reveal_strlit("<!-- grindbot -->\n\nImplementation complete (after conflict resolution). Commit `");
    reveal_strlit("<!-- grindbot -->\n\nImplementation complete. Commit `");
    reveal_strlit("<!-- grindbot -->\n\n**Needs feedback:**\n\n");
    reveal_strlit("<!-- grindbot -->\\n\\n**Invalid handoff:**\\n\\n");
    reveal_strlit("<!-- grindbot -->\n\n**Persistent merge conflict:**\n\nThe implementation for this issue has failed to merge after 3 conflict resolution attempts. The conflicts may indicate that the issue requires a different approach or manual intervention.\n\nPlease review and provide guidance.");
    let m = SUPERVISOR_MARKER@;
    let a = "<!-- grindbot -->\n\nImplementation complete (after conflict resolution). Commit `"@;
    let b = "<!-- grindbot -->\n\nImplementation complete. Commit `"@;
    let c = "<!-- grindbot -->\n\n**Needs feedback:**\n\n"@;
    let d = "<!-- grindbot -->\\n\\n**Invalid handoff:**\\n\\n"@;
    let e = PERSISTENT_CONFLICT_COMMENT@;
    assert(a.take(m.len() as int) =~= m);
    assert(b.take(m.len() as int) =~= m);
    assert(c.take(m.len() as int) =~= m);
    assert(d.take(m.len() as int) =~= m);
    assert(e.take(m.len() as int) =~= m);
    let tail = commit + "` has been merged to `"@ + branch + "`."@;
    lemma_marked(a, tail);
    lemma_marked(b, tail);
    assert(merged_comment(commit, branch, true) =~= a + tail);
    assert(merged_comment(commit, branch, false) =~= b + tail);
    lemma_marked(c, message);
    lemma_marked(d, message);
    lemma_marked(e, Seq::empty());
    assert(e + Seq::<char>::empty() =~= e);
}


/// A merged issue is not picked up again: once a merge has recorded an issue as
/// completed, the completed issues the planner is given (those of the state file) make
/// the issue ineligible.
pub proof fn law_merged_issue_not_restarted(
    old: StateFile,
    new: StateFile,
    f: FlowView,
    r: Record,
    now: Seq<char>,
    issue: IssueView,
    allowlist: Seq<Seq<char>>,
    active: Seq<u64>,
)
    requires
        r is Merged || r is MergedAndReleased,
        recorded(old, new, f, r, now),
        issue.number == f.issue_number,
    ensures
        !eligible(issue, allowlist, active, new.completed_tasks@.map_values(|t: CompletedTask| t.issue_number)),
{
    let done = new.completed_tasks@.map_values(|t: CompletedTask| t.issue_number);
    assert(done[new.completed_tasks@.len() - 1] == issue.number);
    assert(done.contains(issue.number));
}


/// The goal given to an implementer session.
pub open spec fn implementer_goal_of(issue_number: u64) -> Seq<char> {
    "Implement issue #"@ + decimal(issue_number as nat)
}

/// Executable `implementer_goal_of`.
pub fn implementer_goal(issue_number: u64) -> (g: String)
    ensures
        g@ == implementer_goal_of(issue_number),
{
    let mut g = owned("Implement issue #");
    append_str(&mut g, u64_to_string(issue_number).as_str());
    g
}

/// The repository's web address, given to the implementer in its prompt.
pub fn github_url(config: &Config) -> (u: String)
    ensures
        u@ == "https://github.com/"@ + config.github.owner@ + "/"@ + config.github.repo@,
{
    let mut u = owned("https://github.com/");
    append_str(&mut u, config.github.owner.as_str());
    append_str(&mut u, "/");
    append_str(&mut u, config.github.repo.as_str());
    u
}

/// The record of a started implementer: its issue, its session (id, port, token and
/// credential file), its workspace, the commit it started from, and when it started.
pub fn started_implementer(
    issue_number: u64,
    session: &SessionInfo,
    workspace_name: &str,
    workspace_path: &str,
    base_commit: &str,
    started_at: &str,
) -> (a: ActiveImplementer)
    ensures
        a.issue_number == issue_number,
        a.session_id@ == session.session_id@,
        a.port == session.port,
        a.bearer_token@ == session.bearer_token@,
        a.credential_file@ == session.credential_file@,
        a.workspace_name@ == workspace_name@,
        a.workspace_path@ == workspace_path@,
        a.base_commit@ == base_commit@,
        a.started_at@ == started_at@,
{
    ActiveImplementer {
        issue_number,
        session_id: session.session_id.clone(),
        workspace_name: owned(workspace_name),
        workspace_path: owned(workspace_path),
        base_commit: owned(base_commit),
        started_at: owned(started_at),
        port: session.port,
        bearer_token: session.bearer_token.clone(),
        credential_file: session.credential_file.clone(),
    }
}


/// What `imps_without_workspace` keeps comes from the sequence and is in another workspace.
proof fn lemma_kept_member(imps: Seq<ActiveImplementer>, name: Seq<char>, j: int)
    requires
        0 <= j < imps_without_workspace(imps, name).len(),
    ensures
        imps.contains(imps_without_workspace(imps, name)[j]),
        imps_without_workspace(imps, name)[j].workspace_name@ != name,
    decreases imps.len(),
{
    reveal_with_fuel(Seq::filter, 1);
    if imps.len() > 0 {
        let prev = imps_without_workspace(imps.drop_last(), name);
        if imps.last().workspace_name@ != name && j == prev.len() {
            assert(imps_without_workspace(imps, name)[j] == imps.last());
            assert(imps[imps.len() - 1] == imps.last());
        } else {
            assert(imps_without_workspace(imps, name)[j] == prev[j]);
            lemma_kept_member(imps.drop_last(), name, j);
            let k = choose|k: int| 0 <= k < imps.drop_last().len() && imps.drop_last()[k] == prev[j];
            assert(imps[k] == imps.drop_last()[k]);
        }
    }
}

/// A crashed task remains eligible: once the workspace of its implementer is cleaned up
/// (the implementer released), the issue is no longer active, and an issue whose author is
/// allowlisted, whose last comment is not the supervisor's and that is not completed is
/// eligible again.
pub proof fn law_crashed_task_remains_eligible(
    imps: Seq<ActiveImplementer>,
    workspace_name: Seq<char>,
    issue: IssueView,
    allowlist: Seq<Seq<char>>,
    completed: Seq<u64>,
)
    requires
        forall|i: int| 0 <= i < imps.len() && #[trigger] imps[i].issue_number == issue.number
            ==> imps[i].workspace_name@ == workspace_name,
        allowlist.contains(issue.author),
        !last_by_supervisor(issue),
        !completed.contains(issue.number),
    ensures
        eligible(
            issue,
            allowlist,
            imps_without_workspace(imps, workspace_name).map_values(|a: ActiveImplementer| a.issue_number),
            completed,
        ),
{
    let kept = imps_without_workspace(imps, workspace_name);
    let active = kept.map_values(|a: ActiveImplementer| a.issue_number);
    if active.contains(issue.number) {
        let j = choose|j: int| 0 <= j < active.len() && active[j] == issue.number;
        lemma_kept_member(imps, workspace_name, j);
        let i = choose|i: int| 0 <= i < imps.len() && imps[i] == kept[j];
        assert(imps[i].issue_number == issue.number);
        assert(false);
    }
}

} // verus!
