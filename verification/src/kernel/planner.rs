//! The planner: a pure, deterministic function from a state snapshot to actions.

use vstd::prelude::*;
use crate::config::workspace_name_of;
use crate::kernel::actions::{Action, ActionView, CleanupReason};
use crate::kernel::filters::{eligible, is_eligible};
use crate::kernel::state::{
    is_running, running_count, running_issues, ImplementerResult, ImplementerResultView,
    ImplementerStateView, ImplementerStatus, ImplementerStatusView, IssueView, Issue,
    SupervisorState, SupervisorStateView, WorkspaceStateView,
};
use crate::text::{seq_starts_with, starts_with, chars_of};

verus! {

/// The views of a sequence of actions.
pub open spec fn action_views(v: Seq<Action>) -> Seq<ActionView> {
    v.map_values(|a: Action| a@)
}

/// The comment posted when a result file cannot be used.
pub open spec fn invalid_handoff_body(error: Seq<char>) -> Seq<char> {
    "<!-- grindbot -->\\n\\n**Invalid handoff:**\\n\\n"@ + error
}

/// The comment posted when an implementer asks for feedback.
pub open spec fn needs_feedback_body(message: Seq<char>) -> Seq<char> {
    "<!-- grindbot -->\n\n**Needs feedback:**\n\n"@ + message
}

/// A workspace whose session died without leaving a result file.
pub open spec fn is_dead_session(ws: WorkspaceStateView) -> bool {
    ws.has_session && !ws.daemon_alive && !ws.has_result_file
}

/// Step 1: one `SessionCrashed` cleanup per dead session, in workspace order.
pub open spec fn dead_session_cleanups(wss: Seq<WorkspaceStateView>) -> Seq<ActionView>
    decreases wss.len(),
{
    if wss.len() == 0 {
        Seq::empty()
    } else {
        let prev = dead_session_cleanups(wss.drop_last());
        if is_dead_session(wss.last()) {
            prev.push(
                ActionView::CleanupWorkspace {
                    workspace_name: wss.last().name,
                    reason: CleanupReason::SessionCrashed,
                },
            )
        } else {
            prev
        }
    }
}

/// What a finished or malformed implementer turns into.
pub open spec fn finish_actions_of(imp: ImplementerStateView) -> Seq<ActionView> {
    match imp.status {
        ImplementerStatusView::Malformed { error } => seq![
            ActionView::PostComment {
                issue_number: imp.issue_number,
                body: invalid_handoff_body(error),
            },
            ActionView::CleanupWorkspace {
                workspace_name: imp.workspace_name,
                reason: CleanupReason::MalformedHandoff,
            },
        ],
        ImplementerStatusView::Finished(ImplementerResultView::Done { commit }) => seq![
            ActionView::MergeImplementation {
                workspace_name: imp.workspace_name,
                commit: commit,
                base_commit: imp.base_commit,
                issue_number: imp.issue_number,
            },
        ],
        ImplementerStatusView::Finished(ImplementerResultView::NeedsFeedback { message }) => seq![
            ActionView::PostComment {
                issue_number: imp.issue_number,
                body: needs_feedback_body(message),
            },
            ActionView::CleanupWorkspace {
                workspace_name: imp.workspace_name,
                reason: CleanupReason::SessionFinished,
            },
        ],
        _ => Seq::empty(),
    }
}

/// Step 2: the actions of finished and malformed implementers, in implementer order.
pub open spec fn finish_phase(imps: Seq<ImplementerStateView>) -> Seq<ActionView>
    decreases imps.len(),
{
    if imps.len() == 0 {
        Seq::empty()
    } else {
        finish_phase(imps.drop_last()) + finish_actions_of(imps.last())
    }
}

/// Whether some workspace has the given name.
pub open spec fn has_workspace_named(wss: Seq<WorkspaceStateView>, name: Seq<char>) -> bool {
    exists|i: int| 0 <= i < wss.len() && #[trigger] wss[i].name == name
}

/// What a crashed implementer turns into: a cleanup when its workspace exists.
pub open spec fn crashed_actions_of(
    imp: ImplementerStateView,
    wss: Seq<WorkspaceStateView>,
) -> Seq<ActionView> {
    if imp.status is Crashed && has_workspace_named(wss, imp.workspace_name) {
        seq![
            ActionView::CleanupWorkspace {
                workspace_name: imp.workspace_name,
                reason: CleanupReason::SessionCrashed,
            },
        ]
    } else {
        Seq::empty()
    }
}

/// Step 3: cleanups of crashed implementers, in implementer order.
pub open spec fn crashed_phase(
    imps: Seq<ImplementerStateView>,
    wss: Seq<WorkspaceStateView>,
) -> Seq<ActionView>
    decreases imps.len(),
{
    if imps.len() == 0 {
        Seq::empty()
    } else {
        crashed_phase(imps.drop_last(), wss) + crashed_actions_of(imps.last(), wss)
    }
}

/// Whether `a` cleans up the workspace named `name`.
pub open spec fn is_cleanup_of(a: ActionView, name: Seq<char>) -> bool {
    a matches ActionView::CleanupWorkspace { workspace_name, .. } && workspace_name == name
}

/// Whether some action in `acts` cleans up the workspace named `name`.
pub open spec fn cleans_up(acts: Seq<ActionView>, name: Seq<char>) -> bool {
    exists|i: int| 0 <= i < acts.len() && is_cleanup_of(#[trigger] acts[i], name)
}

/// A managed workspace with no session and no result file.
pub open spec fn is_orphan(ws: WorkspaceStateView, prefix: Seq<char>) -> bool {
    seq_starts_with(ws.name, prefix) && !ws.has_session && !ws.has_result_file
}

/// Step 4: append an `OrphanedWorkspace` cleanup for each orphan that no earlier action
/// (including earlier orphan cleanups) already cleans up.
pub open spec fn orphan_phase(
    acts: Seq<ActionView>,
    wss: Seq<WorkspaceStateView>,
    prefix: Seq<char>,
) -> Seq<ActionView>
    decreases wss.len(),
{
    if wss.len() == 0 {
        acts
    } else {
        let prev = orphan_phase(acts, wss.drop_last(), prefix);
        let ws = wss.last();
        if is_orphan(ws, prefix) && !cleans_up(prev, ws.name) {
            prev.push(
                ActionView::CleanupWorkspace {
                    workspace_name: ws.name,
                    reason: CleanupReason::OrphanedWorkspace,
                },
            )
        } else {
            prev
        }
    }
}

/// Whether a non-running implementer exists for the issue (it was handled by steps 2 and 3).
pub open spec fn is_handled(imps: Seq<ImplementerStateView>, n: u64) -> bool {
    exists|i: int| 0 <= i < imps.len() && #[trigger] imps[i].issue_number == n && !is_running(imps[i])
}

/// Whether an issue may be started in this cycle.
pub open spec fn is_candidate(s: SupervisorStateView, issue: IssueView) -> bool {
    !is_handled(s.implementers, issue.number) && eligible(
        issue,
        s.allowlist,
        running_issues(s.implementers),
        s.completed_issues,
    )
}

/// The candidate issues, in snapshot order.
pub open spec fn candidates(s: SupervisorStateView, issues: Seq<IssueView>) -> Seq<IssueView>
    decreases issues.len(),
{
    if issues.len() == 0 {
        Seq::empty()
    } else if is_candidate(s, issues.last()) {
        candidates(s, issues.drop_last()).push(issues.last())
    } else {
        candidates(s, issues.drop_last())
    }
}

/// Where a stable sort by creation time places `x` among the already sorted `s`:
/// after every element created at or before it.
pub open spec fn insert_pos(s: Seq<IssueView>, x: IssueView) -> int
    decreases s.len(),
{
    if s.len() == 0 {
        0
    } else if s.last().created_at <= x.created_at {
        s.len() as int
    } else {
        insert_pos(s.drop_last(), x)
    }
}

/// Stable sort by creation time (oldest first).
pub open spec fn sort_by_created(s: Seq<IssueView>) -> Seq<IssueView>
    decreases s.len(),
{
    if s.len() == 0 {
        Seq::empty()
    } else {
        let sorted = sort_by_created(s.drop_last());
        sorted.insert(insert_pos(sorted, s.last()), s.last())
    }
}

/// Whether some issue in `s` has number `n`.
pub open spec fn has_number(s: Seq<IssueView>, n: u64) -> bool {
    exists|i: int| 0 <= i < s.len() && #[trigger] s[i].number == n
}

/// The issues that get an implementer: walking `s` in order, take an issue unless
/// `slots` issues were taken already or one with the same number was.
pub open spec fn pick(s: Seq<IssueView>, slots: nat) -> Seq<IssueView>
    decreases s.len(),
{
    if s.len() == 0 {
        Seq::empty()
    } else {
        let prev = pick(s.drop_last(), slots);
        if prev.len() >= slots || has_number(prev, s.last().number) {
            prev
        } else {
            prev.push(s.last())
        }
    }
}

/// The start action of a picked issue.
pub open spec fn start_of(issue: IssueView, prefix: Seq<char>, main_head: Seq<char>) -> ActionView {
    ActionView::StartImplementer {
        issue: issue,
        workspace_name: workspace_name_of(prefix, issue.number),
        base_commit: main_head,
    }
}

/// The issues the planner starts implementers for.
pub open spec fn started_issues(s: SupervisorStateView) -> Seq<IssueView> {
    let active = running_count(s.implementers);
    if active < s.max_parallelism {
        pick(
            sort_by_created(candidates(s, s.issues)),
            (s.max_parallelism - active) as nat,
        )
    } else {
        Seq::empty()
    }
}

/// The actions of steps 1 to 4.
pub open spec fn cleanup_actions(s: SupervisorStateView) -> Seq<ActionView> {
    orphan_phase(
        dead_session_cleanups(s.workspaces) + finish_phase(s.implementers) + crashed_phase(
            s.implementers,
            s.workspaces,
        ),
        s.workspaces,
        s.prefix,
    )
}

/// The plan: steps 1 to 4, then one start per started issue; `Noop` alone when that is empty.
pub open spec fn plan_spec(s: SupervisorStateView) -> Seq<ActionView> {
    let starts = started_issues(s).map_values(|i: IssueView| start_of(i, s.prefix, s.main_head));
    let all = cleanup_actions(s) + starts;
    if all.len() == 0 {
        seq![ActionView::Noop]
    } else {
        all
    }
}


proof fn lemma_views_push(v: Seq<Action>, a: Action)
    ensures
        action_views(v.push(a)) == action_views(v).push(a@),
{
    assert(action_views(v.push(a)) =~= action_views(v).push(a@));
}

fn push_dead_session_cleanups(actions: &mut Vec<Action>, workspaces: &Vec<crate::kernel::state::WorkspaceState>)
    ensures
        action_views(final(actions)@) == action_views(old(actions)@) + dead_session_cleanups(
            workspaces@.map_values(|w: crate::kernel::state::WorkspaceState| w@),
        ),
{
    let ghost wss = workspaces@.map_values(|w: crate::kernel::state::WorkspaceState| w@);
    let ghost start = action_views(actions@);
    let mut i: usize = 0;
    while i < workspaces.len()
        invariant
            wss == workspaces@.map_values(|w: crate::kernel::state::WorkspaceState| w@),
            i <= workspaces.len(),
            action_views(actions@) == start + dead_session_cleanups(wss.take(i as int)),
        decreases workspaces.len() - i,
    {
        let ws = &workspaces[i];
        assert(wss.take(i + 1).drop_last() =~= wss.take(i as int));
        assert(wss.take(i + 1).last() == ws@);
        if ws.session_id.is_some() && !ws.daemon_alive && !ws.has_result_file {
            let a = Action::CleanupWorkspace {
                workspace_name: ws.name.clone(),
                reason: CleanupReason::SessionCrashed,
            };
            proof { lemma_views_push(actions@, a); }
            actions.push(a);
        }
        i = i + 1;
    }
    assert(wss.take(i as int) =~= wss);
}

fn invalid_handoff_comment(error: &String) -> (s: String)
    ensures
        s@ == invalid_handoff_body(error@),
{
    String::from_str("<!-- grindbot -->\\n\\n**Invalid handoff:**\\n\\n").concat(error.as_str())
}

/// The body of the comment posted when an implementer asks for feedback.
pub fn needs_feedback_comment(message: &String) -> (s: String)
    ensures
        s@ == needs_feedback_body(message@),
{
    String::from_str("<!-- grindbot -->\n\n**Needs feedback:**\n\n").concat(message.as_str())
}

fn push_finish_actions(actions: &mut Vec<Action>, implementers: &Vec<crate::kernel::state::ImplementerState>)
    ensures
        action_views(final(actions)@) == action_views(old(actions)@) + finish_phase(
            implementers@.map_values(|i: crate::kernel::state::ImplementerState| i@),
        ),
{
    let ghost imps = implementers@.map_values(|i: crate::kernel::state::ImplementerState| i@);
    let ghost start = action_views(actions@);
    let mut i: usize = 0;
    while i < implementers.len()
        invariant
            imps == implementers@.map_values(|i: crate::kernel::state::ImplementerState| i@),
            i <= implementers.len(),
            action_views(actions@) == start + finish_phase(imps.take(i as int)),
        decreases implementers.len() - i,
    {
        let imp = &implementers[i];
        assert(imps.take(i + 1).drop_last() =~= imps.take(i as int));
        assert(imps.take(i + 1).last() == imp@);
        let ghost before = action_views(actions@);
        match &imp.status {
            ImplementerStatus::Malformed { error } => {
                let a = Action::PostComment {
                    issue_number: imp.issue_number,
                    body: invalid_handoff_comment(error),
                };
                proof { lemma_views_push(actions@, a); }
                actions.push(a);
                let b = Action::CleanupWorkspace {
                    workspace_name: imp.workspace_name.clone(),
                    reason: CleanupReason::MalformedHandoff,
                };
                proof { lemma_views_push(actions@, b); }
                actions.push(b);
                assert(action_views(actions@) =~= before + finish_actions_of(imp@));
            },
            ImplementerStatus::Finished(ImplementerResult::Done { commit }) => {
                let a = Action::MergeImplementation {
                    workspace_name: imp.workspace_name.clone(),
                    commit: commit.clone(),
                    base_commit: imp.base_commit.clone(),
                    issue_number: imp.issue_number,
                };
                proof { lemma_views_push(actions@, a); }
                actions.push(a);
                assert(action_views(actions@) =~= before + finish_actions_of(imp@));
            },
            ImplementerStatus::Finished(ImplementerResult::NeedsFeedback { message }) => {
                let a = Action::PostComment {
                    issue_number: imp.issue_number,
                    body: needs_feedback_comment(message),
                };
                proof { lemma_views_push(actions@, a); }
                actions.push(a);
                let b = Action::CleanupWorkspace {
                    workspace_name: imp.workspace_name.clone(),
                    reason: CleanupReason::SessionFinished,
                };
                proof { lemma_views_push(actions@, b); }
                actions.push(b);
                assert(action_views(actions@) =~= before + finish_actions_of(imp@));
            },
            _ => {
                assert(action_views(actions@) =~= before + finish_actions_of(imp@));
            },
        }
        i = i + 1;
    }
    assert(imps.take(i as int) =~= imps);
}

fn workspace_named(workspaces: &Vec<crate::kernel::state::WorkspaceState>, name: &String) -> (b: bool)
    ensures
        b == has_workspace_named(workspaces@.map_values(|w: crate::kernel::state::WorkspaceState| w@), name@),
{
    let ghost wss = workspaces@.map_values(|w: crate::kernel::state::WorkspaceState| w@);
    let mut i: usize = 0;
    while i < workspaces.len()
        invariant
            wss == workspaces@.map_values(|w: crate::kernel::state::WorkspaceState| w@),
            i <= workspaces.len(),
            forall|j: int| 0 <= j < i ==> wss[j].name != name@,
        decreases workspaces.len() - i,
    {
        if workspaces[i].name == *name {
            assert(wss[i as int].name == name@);
            return true;
        }
        i = i + 1;
    }
    false
}

fn push_crashed_cleanups(
    actions: &mut Vec<Action>,
    implementers: &Vec<crate::kernel::state::ImplementerState>,
    workspaces: &Vec<crate::kernel::state::WorkspaceState>,
)
    ensures
        action_views(final(actions)@) == action_views(old(actions)@) + crashed_phase(
            implementers@.map_values(|i: crate::kernel::state::ImplementerState| i@),
            workspaces@.map_values(|w: crate::kernel::state::WorkspaceState| w@),
        ),
{
    let ghost imps = implementers@.map_values(|i: crate::kernel::state::ImplementerState| i@);
    let ghost wss = workspaces@.map_values(|w: crate::kernel::state::WorkspaceState| w@);
    let ghost start = action_views(actions@);
    let mut i: usize = 0;
    while i < implementers.len()
        invariant
            imps == implementers@.map_values(|i: crate::kernel::state::ImplementerState| i@),
            wss == workspaces@.map_values(|w: crate::kernel::state::WorkspaceState| w@),
            i <= implementers.len(),
            action_views(actions@) == start + crashed_phase(imps.take(i as int), wss),
        decreases implementers.len() - i,
    {
        let imp = &implementers[i];
        assert(imps.take(i + 1).drop_last() =~= imps.take(i as int));
        assert(imps.take(i + 1).last() == imp@);
        let ghost before = action_views(actions@);
        let crashed = match imp.status {
            ImplementerStatus::Crashed => true,
            _ => false,
        };
        if crashed && workspace_named(workspaces, &imp.workspace_name) {
            let a = Action::CleanupWorkspace {
                workspace_name: imp.workspace_name.clone(),
                reason: CleanupReason::SessionCrashed,
            };
            proof { lemma_views_push(actions@, a); }
            actions.push(a);
        }
        assert(action_views(actions@) =~= before + crashed_actions_of(imp@, wss));
        i = i + 1;
    }
    assert(imps.take(i as int) =~= imps);
}

fn cleans_up_exec(actions: &Vec<Action>, name: &String) -> (b: bool)
    ensures
        b == cleans_up(action_views(actions@), name@),
{
    let ghost acts = action_views(actions@);
    let mut i: usize = 0;
    while i < actions.len()
        invariant
            acts == action_views(actions@),
            i <= actions.len(),
            forall|j: int| 0 <= j < i ==> !is_cleanup_of(#[trigger] acts[j], name@),
        decreases actions.len() - i,
    {
        match &actions[i] {
            Action::CleanupWorkspace { workspace_name, .. } => {
                if *workspace_name == *name {
                    assert(is_cleanup_of(acts[i as int], name@));
                    return true;
                }
            },
            _ => {},
        }
        i = i + 1;
    }
    false
}

fn push_orphan_cleanups(
    actions: &mut Vec<Action>,
    workspaces: &Vec<crate::kernel::state::WorkspaceState>,
    prefix: &String,
)
    ensures
        action_views(final(actions)@) == orphan_phase(
            action_views(old(actions)@),
            workspaces@.map_values(|w: crate::kernel::state::WorkspaceState| w@),
            prefix@,
        ),
{
    let ghost wss = workspaces@.map_values(|w: crate::kernel::state::WorkspaceState| w@);
    let ghost start = action_views(actions@);
    let prefix_chars = chars_of(prefix.as_str());
    let mut i: usize = 0;
    while i < workspaces.len()
        invariant
            wss == workspaces@.map_values(|w: crate::kernel::state::WorkspaceState| w@),
            prefix_chars@ == prefix@,
            i <= workspaces.len(),
            action_views(actions@) == orphan_phase(start, wss.take(i as int), prefix@),
        decreases workspaces.len() - i,
    {
        let ws = &workspaces[i];
        assert(wss.take(i + 1).drop_last() =~= wss.take(i as int));
        assert(wss.take(i + 1).last() == ws@);
        let name_chars = chars_of(ws.name.as_str());
        if starts_with(name_chars.as_slice(), prefix_chars.as_slice()) && ws.session_id.is_none()
            && !ws.has_result_file {
            if !cleans_up_exec(actions, &ws.name) {
                let a = Action::CleanupWorkspace {
                    workspace_name: ws.name.clone(),
                    reason: CleanupReason::OrphanedWorkspace,
                };
                proof { lemma_views_push(actions@, a); }
                actions.push(a);
            }
        }
        i = i + 1;
    }
    assert(wss.take(i as int) =~= wss);
}

fn handled_exec(implementers: &Vec<crate::kernel::state::ImplementerState>, n: u64) -> (b: bool)
    ensures
        b == is_handled(implementers@.map_values(|i: crate::kernel::state::ImplementerState| i@), n),
{
    let ghost imps = implementers@.map_values(|i: crate::kernel::state::ImplementerState| i@);
    let mut i: usize = 0;
    while i < implementers.len()
        invariant
            imps == implementers@.map_values(|i: crate::kernel::state::ImplementerState| i@),
            i <= implementers.len(),
            forall|j: int| 0 <= j < i ==> !(#[trigger] imps[j].issue_number == n && !is_running(imps[j])),
        decreases implementers.len() - i,
    {
        let running = match implementers[i].status {
            ImplementerStatus::Running => true,
            _ => false,
        };
        if implementers[i].issue_number == n && !running {
            assert(imps[i as int].issue_number == n && !is_running(imps[i as int]));
            return true;
        }
        i = i + 1;
    }
    false
}

/// The views of a sequence of issue references.
pub open spec fn issue_ref_views(v: Seq<&Issue>) -> Seq<IssueView> {
    v.map_values(|r: &Issue| (*r)@)
}

fn collect_candidates<'a>(state: &'a SupervisorState, active: &Vec<u64>) -> (v: Vec<&'a Issue>)
    requires
        active@ == running_issues(state@.implementers),
    ensures
        issue_ref_views(v@) == candidates(state@, state@.issues),
{
    let ghost s = state@;
    let mut v: Vec<&Issue> = Vec::new();
    let mut i: usize = 0;
    while i < state.issues.len()
        invariant
            s == state@,
            active@ == running_issues(s.implementers),
            i <= state.issues.len(),
            issue_ref_views(v@) == candidates(s, s.issues.take(i as int)),
        decreases state.issues.len() - i,
    {
        let issue = &state.issues[i];
        assert(s.issues.take(i + 1).drop_last() =~= s.issues.take(i as int));
        assert(s.issues.take(i + 1).last() == issue@);
        if !handled_exec(&state.implementers, issue.number) && is_eligible(
            issue,
            &state.config,
            active.as_slice(),
            state.completed_issues.as_slice(),
        ) {
            assert(issue_ref_views(v@.push(issue)) =~= issue_ref_views(v@).push(issue@));
            v.push(issue);
        }
        i = i + 1;
    }
    assert(s.issues.take(i as int) =~= s.issues);
    v
}

proof fn lemma_insert_pos_bounds(s: Seq<IssueView>, x: IssueView)
    ensures
        0 <= insert_pos(s, x) <= s.len(),
    decreases s.len(),
{
    if s.len() > 0 {
        lemma_insert_pos_bounds(s.drop_last(), x);
    }
}

proof fn lemma_insert_pos_take(s: Seq<IssueView>, x: IssueView, j: int)
    requires
        0 <= j <= s.len(),
        forall|k: int| j <= k < s.len() ==> s[k].created_at > x.created_at,
    ensures
        insert_pos(s, x) == insert_pos(s.take(j), x),
    decreases s.len() - j,
{
    if j < s.len() {
        assert(s.drop_last() =~= s.drop_last().take(s.len() - 1));
        lemma_insert_pos_take(s.drop_last(), x, j);
        assert(s.drop_last().take(j) =~= s.take(j));
    } else {
        assert(s.take(j) =~= s);
    }
}

fn insert_by_created<'a>(v: &mut Vec<&'a Issue>, x: &'a Issue)
    ensures
        issue_ref_views(final(v)@) == issue_ref_views(old(v)@).insert(
            insert_pos(issue_ref_views(old(v)@), x@),
            x@,
        ),
{
    let ghost s = issue_ref_views(v@);
    let mut j: usize = v.len();
    while j > 0 && v[j - 1].created_at > x.created_at
        invariant
            s == issue_ref_views(v@),
            j <= v.len(),
            forall|k: int| j <= k < s.len() ==> s[k].created_at > x.created_at,
        decreases j,
    {
        j = j - 1;
    }
    proof {
        lemma_insert_pos_take(s, x@, j as int);
        if j > 0 {
            assert(s.take(j as int).drop_last() =~= s.take(j - 1));
        }
        assert(insert_pos(s.take(j as int), x@) == j);
    }
    v.insert(j, x);
    assert(issue_ref_views(v@) =~= s.insert(j as int, x@));
}

fn sort_candidates<'a>(c: &Vec<&'a Issue>) -> (v: Vec<&'a Issue>)
    ensures
        issue_ref_views(v@) == sort_by_created(issue_ref_views(c@)),
{
    let ghost cs = issue_ref_views(c@);
    let mut v: Vec<&Issue> = Vec::new();
    let mut i: usize = 0;
    while i < c.len()
        invariant
            cs == issue_ref_views(c@),
            i <= c.len(),
            issue_ref_views(v@) == sort_by_created(cs.take(i as int)),
        decreases c.len() - i,
    {
        assert(cs.take(i + 1).drop_last() =~= cs.take(i as int));
        assert(cs.take(i + 1).last() == c[i as int]@);
        insert_by_created(&mut v, c[i]);
        i = i + 1;
    }
    assert(cs.take(i as int) =~= cs);
    v
}

fn contains_number(picked: &Vec<&Issue>, n: u64) -> (b: bool)
    ensures
        b == has_number(issue_ref_views(picked@), n),
{
    let ghost s = issue_ref_views(picked@);
    let mut i: usize = 0;
    while i < picked.len()
        invariant
            s == issue_ref_views(picked@),
            i <= picked.len(),
            forall|j: int| 0 <= j < i ==> s[j].number != n,
        decreases picked.len() - i,
    {
        if picked[i].number == n {
            assert(s[i as int].number == n);
            return true;
        }
        i = i + 1;
    }
    false
}

fn pick_issues<'a>(sorted: &Vec<&'a Issue>, slots: usize) -> (v: Vec<&'a Issue>)
    ensures
        issue_ref_views(v@) == pick(issue_ref_views(sorted@), slots as nat),
{
    let ghost ss = issue_ref_views(sorted@);
    let mut v: Vec<&Issue> = Vec::new();
    let mut i: usize = 0;
    while i < sorted.len()
        invariant
            ss == issue_ref_views(sorted@),
            i <= sorted.len(),
            issue_ref_views(v@) == pick(ss.take(i as int), slots as nat),
        decreases sorted.len() - i,
    {
        assert(ss.take(i + 1).drop_last() =~= ss.take(i as int));
        assert(ss.take(i + 1).last() == sorted[i as int]@);
        let issue = sorted[i];
        if v.len() < slots && !contains_number(&v, issue.number) {
            assert(issue_ref_views(v@.push(issue)) =~= issue_ref_views(v@).push(issue@));
            v.push(issue);
        }
        i = i + 1;
    }
    assert(ss.take(i as int) =~= ss);
    v
}

fn push_starts(actions: &mut Vec<Action>, picked: &Vec<&Issue>, state: &SupervisorState)
    ensures
        action_views(final(actions)@) == action_views(old(actions)@) + issue_ref_views(picked@).map_values(
            |i: IssueView| start_of(i, state@.prefix, state@.main_head),
        ),
{
    let ghost ps = issue_ref_views(picked@);
    let ghost start = action_views(actions@);
    let mut i: usize = 0;
    while i < picked.len()
        invariant
            ps == issue_ref_views(picked@),
            i <= picked.len(),
            action_views(actions@) == start + ps.take(i as int).map_values(
                |i: IssueView| start_of(i, state@.prefix, state@.main_head),
            ),
        decreases picked.len() - i,
    {
        let issue = picked[i];
        let a = Action::StartImplementer {
            issue: issue.duplicate(),
            workspace_name: state.config.workspace_name(issue.number),
            base_commit: state.main_head.clone(),
        };
        proof { lemma_views_push(actions@, a); }
        actions.push(a);
        assert(ps.take(i + 1).map_values(|i: IssueView| start_of(i, state@.prefix, state@.main_head))
            =~= ps.take(i as int).map_values(|i: IssueView| start_of(i, state@.prefix, state@.main_head)).push(
                start_of(ps[i as int], state@.prefix, state@.main_head)));
        i = i + 1;
    }
    assert(ps.take(i as int) =~= ps);
}

/// The pure decision function. Takes a state snapshot and returns the actions to execute.
pub fn plan(state: &SupervisorState) -> (actions: Vec<Action>)
    ensures
        action_views(actions@) == plan_spec(state@),
{
    let mut actions: Vec<Action> = Vec::new();
    assert(action_views(actions@) =~= Seq::<ActionView>::empty());
    push_dead_session_cleanups(&mut actions, &state.workspaces);
    push_finish_actions(&mut actions, &state.implementers);
    push_crashed_cleanups(&mut actions, &state.implementers, &state.workspaces);
    push_orphan_cleanups(&mut actions, &state.workspaces, &state.config.workspace.prefix);
    assert(action_views(actions@) == cleanup_actions(state@));
    let active_count = state.active_count();
    let ghost before_starts = action_views(actions@);
    if active_count < state.config.supervisor.max_parallelism {
        let active_issues = state.active_issues();
        let slots = state.config.supervisor.max_parallelism - active_count;
        let eligible = collect_candidates(state, &active_issues);
        let sorted = sort_candidates(&eligible);
        let picked = pick_issues(&sorted, slots);
        push_starts(&mut actions, &picked, state);
    } else {
        assert(action_views(actions@) =~= before_starts + Seq::<IssueView>::empty().map_values(
            |i: IssueView| start_of(i, state@.prefix, state@.main_head)));
    }
    if actions.len() == 0 {
        let a = Action::Noop;
        proof { lemma_views_push(actions@, a); }
        actions.push(a);
        assert(action_views(actions@) =~= seq![ActionView::Noop]);
    }
    actions
}

} // verus!
