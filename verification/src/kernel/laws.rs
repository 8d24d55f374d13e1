//! Laws of the planner, stated over `plan_spec` (which `plan` implements exactly).

use vstd::prelude::*;
use crate::config::workspace_name_of;
use crate::kernel::actions::{ActionView, CleanupReason};
use crate::kernel::filters::{eligible, last_by_supervisor};
use crate::kernel::planner::{
    candidates, cleanup_actions, crashed_actions_of, crashed_phase, dead_session_cleanups,
    finish_actions_of, finish_phase, has_number, insert_pos, invalid_handoff_body, is_candidate,
    is_dead_session, is_handled, is_orphan, needs_feedback_body, orphan_phase, pick, plan_spec,
    sort_by_created, start_of, started_issues, cleans_up, is_cleanup_of,
};
use crate::kernel::state::{
    running_count, running_issues, ImplementerResultView, ImplementerStatusView, IssueView,
    SupervisorStateView, WorkspaceStateView, ImplementerStateView,
};

verus! {

/// How many actions of `acts` satisfy `f`.
pub open spec fn count_where(acts: Seq<ActionView>, f: spec_fn(ActionView) -> bool) -> nat
    decreases acts.len(),
{
    if acts.len() == 0 {
        0
    } else {
        count_where(acts.drop_last(), f) + if f(acts.last()) { 1nat } else { 0nat }
    }
}

proof fn lemma_count_add(a: Seq<ActionView>, b: Seq<ActionView>, f: spec_fn(ActionView) -> bool)
    ensures
        count_where(a + b, f) == count_where(a, f) + count_where(b, f),
    decreases b.len(),
{
    if b.len() == 0 {
        assert(a + b =~= a);
    } else {
        assert((a + b).drop_last() =~= a + b.drop_last());
        lemma_count_add(a, b.drop_last(), f);
    }
}

proof fn lemma_count_none(a: Seq<ActionView>, f: spec_fn(ActionView) -> bool)
    requires
        forall|i: int| 0 <= i < a.len() ==> !f(#[trigger] a[i]),
    ensures
        count_where(a, f) == 0,
    decreases a.len(),
{
    if a.len() > 0 {
        lemma_count_none(a.drop_last(), f);
    }
}

proof fn lemma_count_bound(a: Seq<ActionView>, f: spec_fn(ActionView) -> bool)
    ensures
        count_where(a, f) <= a.len(),
    decreases a.len(),
{
    if a.len() > 0 {
        lemma_count_bound(a.drop_last(), f);
    }
}

/// Whether an action starts an implementer.
pub open spec fn is_start(a: ActionView) -> bool {
    a is StartImplementer
}

/// The predicate `is_start`, as a value.
pub open spec fn start_pred() -> spec_fn(ActionView) -> bool {
    |a: ActionView| is_start(a)
}

/// Whether an action is a cleanup with the given reason.
pub open spec fn is_cleanup_with(a: ActionView, reason: CleanupReason) -> bool {
    a matches ActionView::CleanupWorkspace { reason: r, .. } && r == reason
}

proof fn lemma_dead_shape(wss: Seq<WorkspaceStateView>)
    ensures
        forall|i: int| 0 <= i < dead_session_cleanups(wss).len() ==>
            is_cleanup_with(#[trigger] dead_session_cleanups(wss)[i], CleanupReason::SessionCrashed),
    decreases wss.len(),
{
    if wss.len() > 0 {
        lemma_dead_shape(wss.drop_last());
        let prev = dead_session_cleanups(wss.drop_last());
        assert forall|i: int| 0 <= i < dead_session_cleanups(wss).len() implies
            is_cleanup_with(#[trigger] dead_session_cleanups(wss)[i], CleanupReason::SessionCrashed) by {
            if i < prev.len() {
                assert(dead_session_cleanups(wss)[i] == prev[i]);
            }
        }
    }
}

proof fn lemma_finish_shape(imps: Seq<ImplementerStateView>)
    ensures
        forall|i: int| 0 <= i < finish_phase(imps).len() ==> {
            let a = #[trigger] finish_phase(imps)[i];
            a is PostComment || a is MergeImplementation || is_cleanup_with(
                a,
                CleanupReason::MalformedHandoff,
            ) || is_cleanup_with(a, CleanupReason::SessionFinished)
        },
    decreases imps.len(),
{
    if imps.len() > 0 {
        lemma_finish_shape(imps.drop_last());
        let prev = finish_phase(imps.drop_last());
        let last = finish_actions_of(imps.last());
        assert forall|i: int| 0 <= i < finish_phase(imps).len() implies {
            let a = #[trigger] finish_phase(imps)[i];
            a is PostComment || a is MergeImplementation || is_cleanup_with(
                a,
                CleanupReason::MalformedHandoff,
            ) || is_cleanup_with(a, CleanupReason::SessionFinished)
        } by {
            if i >= prev.len() {
                assert(finish_phase(imps)[i] == last[i - prev.len()]);
            } else {
                assert(finish_phase(imps)[i] == prev[i]);
            }
        }
    }
}

proof fn lemma_crashed_shape(imps: Seq<ImplementerStateView>, wss: Seq<WorkspaceStateView>)
    ensures
        forall|i: int| 0 <= i < crashed_phase(imps, wss).len() ==> exists|j: int|
            0 <= j < imps.len() && imps[j].status is Crashed && #[trigger] crashed_phase(imps, wss)[i]
                == (ActionView::CleanupWorkspace {
                workspace_name: imps[j].workspace_name,
                reason: CleanupReason::SessionCrashed,
            }),
    decreases imps.len(),
{
    if imps.len() > 0 {
        let prev_imps = imps.drop_last();
        lemma_crashed_shape(prev_imps, wss);
        let prev = crashed_phase(prev_imps, wss);
        let last = crashed_actions_of(imps.last(), wss);
        assert forall|i: int| 0 <= i < crashed_phase(imps, wss).len() implies exists|j: int|
            0 <= j < imps.len() && imps[j].status is Crashed && #[trigger] crashed_phase(imps, wss)[i]
                == (ActionView::CleanupWorkspace {
                workspace_name: imps[j].workspace_name,
                reason: CleanupReason::SessionCrashed,
            }) by {
            if i >= prev.len() {
                assert(crashed_phase(imps, wss)[i] == last[i - prev.len()]);
                let j = imps.len() - 1;
                assert(imps[j] == imps.last());
            } else {
                assert(crashed_phase(imps, wss)[i] == prev[i]);
                let j = choose|j: int|
                    0 <= j < prev_imps.len() && prev_imps[j].status is Crashed && prev[i] == (
                    ActionView::CleanupWorkspace {
                        workspace_name: prev_imps[j].workspace_name,
                        reason: CleanupReason::SessionCrashed,
                    });
                assert(imps[j] == prev_imps[j]);
            }
        }
    }
}

proof fn lemma_orphan_shape(acts: Seq<ActionView>, wss: Seq<WorkspaceStateView>, prefix: Seq<char>)
    ensures
        orphan_phase(acts, wss, prefix).len() >= acts.len(),
        forall|i: int| 0 <= i < acts.len() ==> #[trigger] orphan_phase(acts, wss, prefix)[i] == acts[i],
        forall|i: int| acts.len() <= i < orphan_phase(acts, wss, prefix).len() ==> exists|w: int|
            0 <= w < wss.len() && is_orphan(wss[w], prefix) && #[trigger] orphan_phase(acts, wss, prefix)[i]
                == (ActionView::CleanupWorkspace {
                workspace_name: wss[w].name,
                reason: CleanupReason::OrphanedWorkspace,
            }),
    decreases wss.len(),
{
    if wss.len() > 0 {
        let pw = wss.drop_last();
        lemma_orphan_shape(acts, pw, prefix);
        let prev = orphan_phase(acts, pw, prefix);
        let res = orphan_phase(acts, wss, prefix);
        assert forall|i: int| acts.len() <= i < res.len() implies exists|w: int|
            0 <= w < wss.len() && is_orphan(wss[w], prefix) && #[trigger] res[i]
                == (ActionView::CleanupWorkspace {
                workspace_name: wss[w].name,
                reason: CleanupReason::OrphanedWorkspace,
            }) by {
            if i < prev.len() {
                assert(res[i] == prev[i]);
                let w = choose|w: int|
                    0 <= w < pw.len() && is_orphan(pw[w], prefix) && prev[i] == (
                    ActionView::CleanupWorkspace {
                        workspace_name: pw[w].name,
                        reason: CleanupReason::OrphanedWorkspace,
                    });
                assert(wss[w] == pw[w]);
            } else {
                let w = wss.len() - 1;
                assert(wss[w] == wss.last());
            }
        }
    }
}

/// No action of the cleanup part of the plan starts an implementer.
proof fn lemma_cleanups_have_no_starts(s: SupervisorStateView)
    ensures
        forall|i: int| 0 <= i < cleanup_actions(s).len() ==> !is_start(#[trigger] cleanup_actions(s)[i]),
{
    let d = dead_session_cleanups(s.workspaces);
    let f = finish_phase(s.implementers);
    let c = crashed_phase(s.implementers, s.workspaces);
    let pre = d + f + c;
    lemma_dead_shape(s.workspaces);
    lemma_finish_shape(s.implementers);
    lemma_crashed_shape(s.implementers, s.workspaces);
    lemma_orphan_shape(pre, s.workspaces, s.prefix);
    assert forall|i: int| 0 <= i < cleanup_actions(s).len() implies !is_start(#[trigger] cleanup_actions(s)[i]) by {
        if i < pre.len() {
            assert(cleanup_actions(s)[i] == pre[i]);
            if i < d.len() {
                assert(pre[i] == d[i]);
            } else if i < d.len() + f.len() {
                assert(pre[i] == f[i - d.len()]);
            } else {
                assert(pre[i] == c[i - d.len() - f.len()]);
                let j = choose|j: int|
                    0 <= j < s.implementers.len() && s.implementers[j].status is Crashed && c[i - d.len() - f.len()]
                        == (ActionView::CleanupWorkspace {
                        workspace_name: s.implementers[j].workspace_name,
                        reason: CleanupReason::SessionCrashed,
                    });
            }
        } else {
            let w = choose|w: int|
                0 <= w < s.workspaces.len() && is_orphan(s.workspaces[w], s.prefix) && cleanup_actions(s)[i]
                    == (ActionView::CleanupWorkspace {
                    workspace_name: s.workspaces[w].name,
                    reason: CleanupReason::OrphanedWorkspace,
                });
        }
    }
}

/// The plan is the cleanup actions followed by one start per started issue (or `Noop` alone).
proof fn lemma_plan_layout(s: SupervisorStateView)
    ensures
        ({
            let c = cleanup_actions(s);
            let st = started_issues(s);
            &&& c.len() + st.len() > 0 ==> plan_spec(s).len() == c.len() + st.len()
            &&& c.len() + st.len() > 0 ==> forall|i: int| 0 <= i < c.len() ==> #[trigger] plan_spec(s)[i] == c[i]
            &&& c.len() + st.len() > 0 ==> forall|k: int| 0 <= k < st.len() ==> #[trigger] plan_spec(s)[c.len() + k]
                == start_of(st[k], s.prefix, s.main_head)
            &&& c.len() + st.len() == 0 ==> plan_spec(s) == seq![ActionView::Noop]
        }),
{
}

// ---------------------------------------------------------------- sorting and picking

/// Whether a sequence of issues is ordered by creation time, oldest first.
pub open spec fn sorted_by_created(s: Seq<IssueView>) -> bool {
    forall|i: int, j: int| 0 <= i < j < s.len() ==> s[i].created_at <= s[j].created_at
}

proof fn lemma_insert_pos_sorted(s: Seq<IssueView>, x: IssueView)
    requires
        sorted_by_created(s),
    ensures
        0 <= insert_pos(s, x) <= s.len(),
        forall|k: int| 0 <= k < insert_pos(s, x) ==> s[k].created_at <= x.created_at,
        forall|k: int| insert_pos(s, x) <= k < s.len() ==> s[k].created_at > x.created_at,
    decreases s.len(),
{
    if s.len() > 0 {
        if s.last().created_at <= x.created_at {
            assert forall|k: int| 0 <= k < insert_pos(s, x) implies s[k].created_at <= x.created_at by {
                if k < s.len() - 1 {
                    assert(s[k].created_at <= s[s.len() - 1].created_at);
                }
            }
        } else {
            let p = s.drop_last();
            assert(sorted_by_created(p));
            lemma_insert_pos_sorted(p, x);
            assert forall|k: int| 0 <= k < insert_pos(s, x) implies s[k].created_at <= x.created_at by {
                assert(s[k] == p[k]);
            }
            assert forall|k: int| insert_pos(s, x) <= k < s.len() implies s[k].created_at > x.created_at by {
                if k < s.len() - 1 {
                    assert(s[k] == p[k]);
                }
            }
        }
    }
}

proof fn lemma_sort_properties(s: Seq<IssueView>)
    ensures
        sorted_by_created(sort_by_created(s)),
        sort_by_created(s).len() == s.len(),
        forall|i: int| 0 <= i < sort_by_created(s).len() ==> s.contains(#[trigger] sort_by_created(s)[i]),
    decreases s.len(),
{
    if s.len() > 0 {
        let p = s.drop_last();
        lemma_sort_properties(p);
        let sorted = sort_by_created(p);
        let x = s.last();
        lemma_insert_pos_sorted(sorted, x);
        let pos = insert_pos(sorted, x);
        let r = sorted.insert(pos, x);
        assert(r == sort_by_created(s));
        assert forall|i: int, j: int| 0 <= i < j < r.len() implies r[i].created_at <= r[j].created_at by {
            if j < pos {
            } else if j == pos {
            } else if i < pos {
                assert(r[j] == sorted[j - 1]);
            } else if i == pos {
                assert(r[j] == sorted[j - 1]);
            } else {
                assert(r[i] == sorted[i - 1]);
                assert(r[j] == sorted[j - 1]);
            }
        }
        assert forall|i: int| 0 <= i < r.len() implies s.contains(#[trigger] r[i]) by {
            if i < pos {
                assert(p.contains(sorted[i]));
                let k = choose|k: int| 0 <= k < p.len() && p[k] == sorted[i];
                assert(s[k] == p[k]);
            } else if i == pos {
                assert(s[s.len() - 1] == x);
            } else {
                assert(p.contains(sorted[i - 1]));
                let k = choose|k: int| 0 <= k < p.len() && p[k] == sorted[i - 1];
                assert(s[k] == p[k]);
            }
        }
    }
}

proof fn lemma_pick_properties(s: Seq<IssueView>, slots: nat)
    ensures
        pick(s, slots).len() <= slots,
        forall|i: int| 0 <= i < pick(s, slots).len() ==> s.contains(#[trigger] pick(s, slots)[i]),
        forall|i: int, j: int| 0 <= i < j < pick(s, slots).len() ==> pick(s, slots)[i].number
            != pick(s, slots)[j].number,
        sorted_by_created(s) ==> sorted_by_created(pick(s, slots)),
    decreases s.len(),
{
    if s.len() > 0 {
        let p = s.drop_last();
        lemma_pick_properties(p, slots);
        let prev = pick(p, slots);
        let r = pick(s, slots);
        assert forall|i: int| 0 <= i < prev.len() implies s.contains(#[trigger] prev[i]) by {
            assert(p.contains(prev[i]));
            let k = choose|k: int| 0 <= k < p.len() && p[k] == prev[i];
            assert(s[k] == p[k]);
        }
        if !(prev.len() >= slots || has_number(prev, s.last().number)) {
            assert(r == prev.push(s.last()));
            assert forall|i: int| 0 <= i < r.len() implies s.contains(#[trigger] r[i]) by {
                if i < prev.len() {
                    assert(r[i] == prev[i]);
                } else {
                    assert(s[s.len() - 1] == s.last());
                }
            }
            assert forall|i: int, j: int| 0 <= i < j < r.len() implies r[i].number != r[j].number by {
                if j == prev.len() {
                    assert(r[i] == prev[i]);
                    if r[i].number == r[j].number {
                        assert(has_number(prev, s.last().number));
                    }
                }
            }
            if sorted_by_created(s) {
                assert(sorted_by_created(p));
                assert forall|i: int, j: int| 0 <= i < j < r.len() implies r[i].created_at <= r[j].created_at by {
                    if j == prev.len() {
                        assert(s.contains(prev[i]));
                        let k = choose|k: int| 0 <= k < s.len() && s[k] == prev[i];
                        assert(p.contains(prev[i]));
                        let k2 = choose|k2: int| 0 <= k2 < p.len() && p[k2] == prev[i];
                        assert(s[k2] == p[k2]);
                        assert(k2 < s.len() - 1);
                    }
                }
            }
        }
    }
}

proof fn lemma_candidates_properties(s: SupervisorStateView, issues: Seq<IssueView>)
    ensures
        forall|i: int| 0 <= i < candidates(s, issues).len() ==> {
            &&& issues.contains(#[trigger] candidates(s, issues)[i])
            &&& is_candidate(s, candidates(s, issues)[i])
        },
    decreases issues.len(),
{
    if issues.len() > 0 {
        let p = issues.drop_last();
        lemma_candidates_properties(s, p);
        let prev = candidates(s, p);
        let r = candidates(s, issues);
        assert forall|i: int| 0 <= i < r.len() implies {
            &&& issues.contains(#[trigger] r[i])
            &&& is_candidate(s, r[i])
        } by {
            if i < prev.len() {
                assert(r[i] == prev[i]);
                assert(p.contains(prev[i]));
                let k = choose|k: int| 0 <= k < p.len() && p[k] == prev[i];
                assert(issues[k] == p[k]);
            } else {
                assert(issues[issues.len() - 1] == issues.last());
            }
        }
    }
}

proof fn lemma_started_properties(s: SupervisorStateView)
    ensures
        started_issues(s).len() <= if running_count(s.implementers) < s.max_parallelism {
            (s.max_parallelism - running_count(s.implementers)) as nat
        } else {
            0nat
        },
        sorted_by_created(started_issues(s)),
        forall|i: int, j: int| 0 <= i < j < started_issues(s).len() ==> started_issues(s)[i].number
            != started_issues(s)[j].number,
        forall|i: int| 0 <= i < started_issues(s).len() ==> {
            &&& s.issues.contains(#[trigger] started_issues(s)[i])
            &&& is_candidate(s, started_issues(s)[i])
        },
{
    let active = running_count(s.implementers);
    if active < s.max_parallelism {
        let c = candidates(s, s.issues);
        let sorted = sort_by_created(c);
        let slots = (s.max_parallelism - active) as nat;
        lemma_candidates_properties(s, s.issues);
        lemma_sort_properties(c);
        lemma_pick_properties(sorted, slots);
        let r = pick(sorted, slots);
        assert forall|i: int| 0 <= i < r.len() implies {
            &&& s.issues.contains(#[trigger] r[i])
            &&& is_candidate(s, r[i])
        } by {
            assert(sorted.contains(r[i]));
            let k = choose|k: int| 0 <= k < sorted.len() && sorted[k] == r[i];
            assert(c.contains(sorted[k]));
            let k2 = choose|k2: int| 0 <= k2 < c.len() && c[k2] == sorted[k];
            assert(s.issues.contains(c[k2]) && is_candidate(s, c[k2]));
        }
    }
}

// ---------------------------------------------------------------- laws on starts

/// Law: the planner never starts more implementers than there are free slots, and none
/// when every slot is taken by a running implementer.
pub proof fn law_starts_respect_parallelism(s: SupervisorStateView)
    ensures
        count_where(plan_spec(s), start_pred()) <= if running_count(s.implementers)
            < s.max_parallelism {
            (s.max_parallelism - running_count(s.implementers)) as nat
        } else {
            0nat
        },
{
    let c = cleanup_actions(s);
    let st = started_issues(s);
    let f = start_pred();
    lemma_plan_layout(s);
    lemma_started_properties(s);
    lemma_cleanups_have_no_starts(s);
    if c.len() + st.len() > 0 {
        let starts = st.map_values(|i: IssueView| start_of(i, s.prefix, s.main_head));
        assert(plan_spec(s) == c + starts);
        lemma_count_add(c, starts, f);
        assert forall|i: int| 0 <= i < c.len() implies !f(#[trigger] c[i]) by {
            assert(!is_start(c[i]));
        }
        lemma_count_none(c, f);
        lemma_count_bound(starts, f);
        assert(starts.len() == st.len());
        assert(count_where(plan_spec(s), f) <= st.len());
    } else {
        let pl = plan_spec(s);
        assert(pl == seq![ActionView::Noop]);
        assert(pl.drop_last() =~= Seq::<ActionView>::empty());
        assert(count_where(pl.drop_last(), f) == 0);
        assert(!f(pl.last()));
        assert(count_where(pl, f) == 0);
    }
}

/// Law: every started issue is an open issue of the snapshot that is eligible (author
/// allowlisted, last comment not by the supervisor, not running, not completed), that no
/// finished, malformed or crashed implementer holds, and its start uses the issue's
/// workspace name and the current main head.
pub proof fn law_starts_are_eligible(s: SupervisorStateView, k: int)
    requires
        0 <= k < plan_spec(s).len(),
        plan_spec(s)[k] is StartImplementer,
    ensures
        plan_spec(s)[k] matches ActionView::StartImplementer { issue, workspace_name, base_commit } && {
            &&& s.issues.contains(issue)
            &&& s.allowlist.contains(issue.author)
            &&& !last_by_supervisor(issue)
            &&& !running_issues(s.implementers).contains(issue.number)
            &&& !s.completed_issues.contains(issue.number)
            &&& !is_handled(s.implementers, issue.number)
            &&& workspace_name == workspace_name_of(s.prefix, issue.number)
            &&& base_commit == s.main_head
        },
{
    let c = cleanup_actions(s);
    let st = started_issues(s);
    lemma_plan_layout(s);
    lemma_started_properties(s);
    lemma_cleanups_have_no_starts(s);
    if c.len() + st.len() == 0 {
        assert(plan_spec(s)[k] == ActionView::Noop);
    } else if k < c.len() {
        assert(plan_spec(s)[k] == c[k]);
    } else {
        let j = k - c.len();
        assert(plan_spec(s)[c.len() + j] == start_of(st[j], s.prefix, s.main_head));
        assert(is_candidate(s, st[j]));
    }
}

/// Law: two starts in one plan are for issues with different numbers, and starts come
/// in FIFO order: an earlier start is for an issue created no later.
pub proof fn law_starts_distinct_and_fifo(s: SupervisorStateView, k1: int, k2: int)
    requires
        0 <= k1 < k2 < plan_spec(s).len(),
        plan_spec(s)[k1] is StartImplementer,
        plan_spec(s)[k2] is StartImplementer,
    ensures
        plan_spec(s)[k1]->StartImplementer_issue.number != plan_spec(s)[k2]->StartImplementer_issue.number,
        plan_spec(s)[k1]->StartImplementer_issue.created_at <= plan_spec(s)[k2]->StartImplementer_issue.created_at,
{
    let c = cleanup_actions(s);
    let st = started_issues(s);
    lemma_plan_layout(s);
    lemma_started_properties(s);
    lemma_cleanups_have_no_starts(s);
    if c.len() + st.len() == 0 {
        assert(plan_spec(s)[k1] == ActionView::Noop);
    } else if k1 < c.len() {
        assert(plan_spec(s)[k1] == c[k1]);
    } else {
        let j1 = k1 - c.len();
        let j2 = k2 - c.len();
        assert(plan_spec(s)[c.len() + j1] == start_of(st[j1], s.prefix, s.main_head));
        assert(plan_spec(s)[c.len() + j2] == start_of(st[j2], s.prefix, s.main_head));
    }
}

/// Law: no implementer is started for an issue that an implementer of the snapshot
/// finished, failed to hand off, or crashed on: that issue was handled in this cycle.
pub proof fn law_handled_issue_not_started(s: SupervisorStateView, k: int, j: int)
    requires
        0 <= k < plan_spec(s).len(),
        plan_spec(s)[k] is StartImplementer,
        0 <= j < s.implementers.len(),
        s.implementers[j].status is Finished || s.implementers[j].status is Malformed
            || s.implementers[j].status is Crashed,
    ensures
        plan_spec(s)[k]->StartImplementer_issue.number != s.implementers[j].issue_number,
{
    law_starts_are_eligible(s, k);
    let n = s.implementers[j].issue_number;
    if plan_spec(s)[k]->StartImplementer_issue.number == n {
        assert(s.implementers[j].issue_number == n && !crate::kernel::state::is_running(s.implementers[j]));
        assert(is_handled(s.implementers, n));
    }
}

proof fn lemma_candidates_complete(s: SupervisorStateView, issues: Seq<IssueView>, x: IssueView)
    requires
        issues.contains(x),
        is_candidate(s, x),
    ensures
        candidates(s, issues).contains(x),
    decreases issues.len(),
{
    let p = issues.drop_last();
    if issues.last() == x {
        let r = candidates(s, issues);
        assert(r[r.len() - 1] == x);
    } else {
        let k = choose|k: int| 0 <= k < issues.len() && issues[k] == x;
        assert(p[k] == x);
        lemma_candidates_complete(s, p, x);
        let prev = candidates(s, p);
        let i = choose|i: int| 0 <= i < prev.len() && prev[i] == x;
        let r = candidates(s, issues);
        if is_candidate(s, issues.last()) {
            assert(r[i] == x);
        }
    }
}

proof fn lemma_sort_complete(s: Seq<IssueView>, x: IssueView)
    requires
        s.contains(x),
    ensures
        sort_by_created(s).contains(x),
    decreases s.len(),
{
    let p = s.drop_last();
    let sorted = sort_by_created(p);
    lemma_sort_properties(p);
    lemma_insert_pos_sorted(sorted, s.last());
    let pos = insert_pos(sorted, s.last());
    let r = sort_by_created(s);
    assert(r == sorted.insert(pos, s.last()));
    if s.last() == x {
        assert(r[pos] == x);
    } else {
        let k = choose|k: int| 0 <= k < s.len() && s[k] == x;
        assert(p[k] == x);
        lemma_sort_complete(p, x);
        let i = choose|i: int| 0 <= i < sorted.len() && sorted[i] == x;
        if i < pos {
            assert(r[i] == x);
        } else {
            assert(r[i + 1] == x);
        }
    }
}

proof fn lemma_pick_prefix(s: Seq<IssueView>, slots: nat)
    ensures
        s.len() > 0 ==> pick(s.drop_last(), slots).len() <= pick(s, slots).len(),
        s.len() > 0 ==> forall|i: int| 0 <= i < pick(s.drop_last(), slots).len() ==> #[trigger] pick(s, slots)[i]
            == pick(s.drop_last(), slots)[i],
{
}

/// Every issue of `s` had its number taken, or the slots were full.
proof fn lemma_pick_full_or_taken(s: Seq<IssueView>, slots: nat, i: int)
    requires
        0 <= i < s.len(),
    ensures
        pick(s, slots).len() >= slots || has_number(pick(s, slots), s[i].number),
    decreases s.len(),
{
    let p = s.drop_last();
    let prev = pick(p, slots);
    let r = pick(s, slots);
    lemma_pick_prefix(s, slots);
    if i == s.len() - 1 {
        if !(prev.len() >= slots || has_number(prev, s.last().number)) {
            assert(r[prev.len() as int] == s.last());
        } else if has_number(prev, s.last().number) {
            let w = choose|w: int| 0 <= w < prev.len() && #[trigger] prev[w].number == s.last().number;
            assert(r[w] == prev[w]);
        }
    } else {
        assert(p[i] == s[i]);
        lemma_pick_full_or_taken(p, slots, i);
        if has_number(prev, p[i].number) {
            let w = choose|w: int| 0 <= w < prev.len() && #[trigger] prev[w].number == p[i].number;
            assert(r[w] == prev[w]);
        }
    }
}

/// In a sequence ordered by creation time, an issue whose number was not taken comes
/// no earlier than any taken issue.
proof fn lemma_pick_fifo(s: Seq<IssueView>, slots: nat, i: int)
    requires
        sorted_by_created(s),
        0 <= i < s.len(),
        !has_number(pick(s, slots), s[i].number),
    ensures
        forall|t: int| 0 <= t < pick(s, slots).len() ==> #[trigger] pick(s, slots)[t].created_at <= s[i].created_at,
    decreases s.len(),
{
    let p = s.drop_last();
    let prev = pick(p, slots);
    let r = pick(s, slots);
    assert(sorted_by_created(p));
    lemma_pick_prefix(s, slots);
    lemma_pick_properties(p, slots);
    if has_number(prev, s[i].number) {
        let w = choose|w: int| 0 <= w < prev.len() && #[trigger] prev[w].number == s[i].number;
        assert(r[w] == prev[w]);
    }
    if i == s.len() - 1 {
        if !(prev.len() >= slots || has_number(prev, s.last().number)) {
            assert(r[prev.len() as int] == s.last());
            assert(false);
        }
        assert forall|t: int| 0 <= t < r.len() implies #[trigger] r[t].created_at <= s[i].created_at by {
            assert(p.contains(prev[t]));
            let q = choose|q: int| 0 <= q < p.len() && p[q] == prev[t];
            assert(s[q] == p[q]);
        }
    } else {
        assert(p[i] == s[i]);
        lemma_pick_fifo(p, slots, i);
        if !(prev.len() >= slots || has_number(prev, s.last().number)) {
            lemma_pick_full_or_taken(p, slots, i);
            assert(false);
        }
        assert forall|t: int| 0 <= t < r.len() implies #[trigger] r[t].created_at <= s[i].created_at by {
            assert(r[t] == prev[t]);
        }
    }
}

/// Law: starts go to the oldest candidates. A candidate issue (eligible, and handled by no
/// implementer of the snapshot) that gets no start, while no start is for its number, was
/// created no earlier than every issue that does get a start: the free slots went to the
/// issues created first.
pub proof fn law_starts_take_oldest_candidates(s: SupervisorStateView, k: int, x: IssueView)
    requires
        0 <= k < plan_spec(s).len(),
        plan_spec(s)[k] is StartImplementer,
        s.issues.contains(x),
        is_candidate(s, x),
        forall|t: int| 0 <= t < plan_spec(s).len() && (#[trigger] plan_spec(s)[t]) is StartImplementer
            ==> plan_spec(s)[t]->StartImplementer_issue.number != x.number,
    ensures
        plan_spec(s)[k]->StartImplementer_issue.created_at <= x.created_at,
{
    let c = cleanup_actions(s);
    let st = started_issues(s);
    lemma_plan_layout(s);
    lemma_cleanups_have_no_starts(s);
    if c.len() + st.len() == 0 {
        assert(plan_spec(s)[k] == ActionView::Noop);
    } else if k < c.len() {
        assert(plan_spec(s)[k] == c[k]);
    } else {
        let active = running_count(s.implementers);
        let j = k - c.len();
        assert(plan_spec(s)[c.len() + j] == start_of(st[j], s.prefix, s.main_head));
        if active >= s.max_parallelism {
            assert(st.len() == 0);
        }
        let cs = candidates(s, s.issues);
        let sorted = sort_by_created(cs);
        let slots = (s.max_parallelism - active) as nat;
        lemma_candidates_complete(s, s.issues, x);
        lemma_sort_complete(cs, x);
        lemma_sort_properties(cs);
        let i = choose|i: int| 0 <= i < sorted.len() && sorted[i] == x;
        assert(st == pick(sorted, slots));
        if has_number(st, x.number) {
            let w = choose|w: int| 0 <= w < st.len() && #[trigger] st[w].number == x.number;
            assert(plan_spec(s)[c.len() + w] == start_of(st[w], s.prefix, s.main_head));
            assert(plan_spec(s)[c.len() + w] is StartImplementer);
        }
        lemma_pick_fifo(sorted, slots, i);
        assert(st[j].created_at <= x.created_at);
    }
}

/// Law: the plan is never empty, and `Noop` appears only as the single action of a plan.
pub proof fn law_noop_only_alone(s: SupervisorStateView, k: int)
    requires
        0 <= k < plan_spec(s).len(),
        plan_spec(s)[k] is Noop,
    ensures
        plan_spec(s) == seq![ActionView::Noop],
{
    let c = cleanup_actions(s);
    let st = started_issues(s);
    lemma_plan_layout(s);
    lemma_dead_shape(s.workspaces);
    lemma_finish_shape(s.implementers);
    lemma_crashed_shape(s.implementers, s.workspaces);
    let pre = dead_session_cleanups(s.workspaces) + finish_phase(s.implementers) + crashed_phase(
        s.implementers,
        s.workspaces,
    );
    lemma_orphan_shape(pre, s.workspaces, s.prefix);
    if c.len() + st.len() > 0 {
        if k < c.len() {
            assert(plan_spec(s)[k] == c[k]);
            let d = dead_session_cleanups(s.workspaces);
            let f = finish_phase(s.implementers);
            let cr = crashed_phase(s.implementers, s.workspaces);
            if k < pre.len() {
                assert(c[k] == pre[k]);
                if k < d.len() {
                    assert(pre[k] == d[k]);
                } else if k < d.len() + f.len() {
                    assert(pre[k] == f[k - d.len()]);
                } else {
                    assert(pre[k] == cr[k - d.len() - f.len()]);
                    let j = choose|j: int|
                        0 <= j < s.implementers.len() && s.implementers[j].status is Crashed
                            && cr[k - d.len() - f.len()] == (ActionView::CleanupWorkspace {
                            workspace_name: s.implementers[j].workspace_name,
                            reason: CleanupReason::SessionCrashed,
                        });
                }
            } else {
                let w = choose|w: int|
                    0 <= w < s.workspaces.len() && is_orphan(s.workspaces[w], s.prefix) && c[k] == (
                    ActionView::CleanupWorkspace {
                        workspace_name: s.workspaces[w].name,
                        reason: CleanupReason::OrphanedWorkspace,
                    });
            }
        } else {
            let j = k - c.len();
            assert(plan_spec(s)[c.len() + j] == start_of(st[j], s.prefix, s.main_head));
        }
    }
}


// ---------------------------------------------------------------- laws on cleanups and results

proof fn lemma_count_one(a: ActionView, f: spec_fn(ActionView) -> bool)
    ensures
        count_where(seq![a], f) == if f(a) { 1nat } else { 0nat },
{
    assert(seq![a].drop_last() =~= Seq::<ActionView>::empty());
    assert(seq![a].last() == a);
    assert(count_where(Seq::<ActionView>::empty(), f) == 0);
}

proof fn lemma_count_two(a: ActionView, b: ActionView, f: spec_fn(ActionView) -> bool)
    ensures
        count_where(seq![a, b], f) == (if f(a) { 1nat } else { 0nat }) + (if f(b) { 1nat } else { 0nat }),
{
    assert(seq![a, b].drop_last() =~= seq![a]);
    lemma_count_one(a, f);
}

proof fn lemma_count_finish_actions(imp: ImplementerStateView, f: spec_fn(ActionView) -> bool)
    ensures
        count_where(finish_actions_of(imp), f) == (if finish_actions_of(imp).len() > 0 && f(
            finish_actions_of(imp)[0],
        ) {
            1nat
        } else {
            0nat
        }) + (if finish_actions_of(imp).len() > 1 && f(finish_actions_of(imp)[1]) {
            1nat
        } else {
            0nat
        }),
{
    let a = finish_actions_of(imp);
    if a.len() == 0 {
    } else if a.len() == 1 {
        assert(a =~= seq![a[0]]);
        lemma_count_one(a[0], f);
    } else {
        assert(a =~= seq![a[0], a[1]]);
        lemma_count_two(a[0], a[1], f);
    }
}

proof fn lemma_count_finish_phase(imps: Seq<ImplementerStateView>, f: spec_fn(ActionView) -> bool, k: int)
    requires
        forall|j: int| 0 <= j < imps.len() && j != k ==> count_where(finish_actions_of(#[trigger] imps[j]), f) == 0,
        0 <= k < imps.len() ==> count_where(finish_actions_of(imps[k]), f) == 1,
    ensures
        count_where(finish_phase(imps), f) == if 0 <= k < imps.len() { 1nat } else { 0nat },
    decreases imps.len(),
{
    if imps.len() > 0 {
        let p = imps.drop_last();
        assert forall|j: int| 0 <= j < p.len() && j != k implies count_where(finish_actions_of(#[trigger] p[j]), f) == 0 by {
            assert(p[j] == imps[j]);
        }
        if 0 <= k < p.len() {
            assert(p[k] == imps[k]);
        }
        lemma_count_finish_phase(p, f, k);
        lemma_count_add(finish_phase(p), finish_actions_of(imps.last()), f);
        assert(imps.last() == imps[imps.len() - 1]);
    }
}

proof fn lemma_count_dead(wss: Seq<WorkspaceStateView>, f: spec_fn(ActionView) -> bool, w: int)
    requires
        forall|v: int| 0 <= v < wss.len() && v != w && is_dead_session(#[trigger] wss[v]) ==> !f(
            ActionView::CleanupWorkspace {
                workspace_name: wss[v].name,
                reason: CleanupReason::SessionCrashed,
            },
        ),
        0 <= w < wss.len() ==> is_dead_session(wss[w]) && f(
            ActionView::CleanupWorkspace {
                workspace_name: wss[w].name,
                reason: CleanupReason::SessionCrashed,
            },
        ),
    ensures
        count_where(dead_session_cleanups(wss), f) == if 0 <= w < wss.len() { 1nat } else { 0nat },
    decreases wss.len(),
{
    if wss.len() > 0 {
        let p = wss.drop_last();
        assert forall|v: int| 0 <= v < p.len() && v != w && is_dead_session(#[trigger] p[v]) implies !f(
            ActionView::CleanupWorkspace {
                workspace_name: p[v].name,
                reason: CleanupReason::SessionCrashed,
            },
        ) by {
            assert(p[v] == wss[v]);
        }
        if 0 <= w < p.len() {
            assert(p[w] == wss[w]);
        }
        lemma_count_dead(p, f, w);
        assert(wss.last() == wss[wss.len() - 1]);
        let prev = dead_session_cleanups(p);
        if is_dead_session(wss.last()) {
            assert(dead_session_cleanups(wss).drop_last() =~= prev);
        }
    }
}

proof fn lemma_orphan_split(acts: Seq<ActionView>, wss: Seq<WorkspaceStateView>, prefix: Seq<char>)
    ensures
        orphan_phase(acts, wss, prefix) == acts + orphan_phase(acts, wss, prefix).subrange(
            acts.len() as int,
            orphan_phase(acts, wss, prefix).len() as int,
        ),
{
    lemma_orphan_shape(acts, wss, prefix);
    let r = orphan_phase(acts, wss, prefix);
    assert(r =~= acts + r.subrange(acts.len() as int, r.len() as int));
}

/// For a predicate that no start, `Noop` or cleanup of an orphan satisfies, the plan holds
/// as many matching actions as steps 1 to 3 produce.
proof fn lemma_plan_count(s: SupervisorStateView, f: spec_fn(ActionView) -> bool)
    requires
        forall|a: ActionView| #[trigger] f(a) ==> !is_start(a) && !(a is Noop),
        forall|w: int| 0 <= w < s.workspaces.len() && is_orphan(#[trigger] s.workspaces[w], s.prefix) ==> !f(
            ActionView::CleanupWorkspace {
                workspace_name: s.workspaces[w].name,
                reason: CleanupReason::OrphanedWorkspace,
            },
        ),
    ensures
        count_where(plan_spec(s), f) == count_where(dead_session_cleanups(s.workspaces), f)
            + count_where(finish_phase(s.implementers), f) + count_where(
            crashed_phase(s.implementers, s.workspaces),
            f,
        ),
{
    let d = dead_session_cleanups(s.workspaces);
    let fi = finish_phase(s.implementers);
    let cr = crashed_phase(s.implementers, s.workspaces);
    let pre = d + fi + cr;
    let c = cleanup_actions(s);
    let st = started_issues(s);
    lemma_orphan_split(pre, s.workspaces, s.prefix);
    lemma_orphan_shape(pre, s.workspaces, s.prefix);
    let extra = c.subrange(pre.len() as int, c.len() as int);
    assert forall|i: int| 0 <= i < extra.len() implies !f(#[trigger] extra[i]) by {
        assert(extra[i] == c[pre.len() + i]);
        let w = choose|w: int|
            0 <= w < s.workspaces.len() && is_orphan(s.workspaces[w], s.prefix) && c[pre.len() + i] == (
            ActionView::CleanupWorkspace {
                workspace_name: s.workspaces[w].name,
                reason: CleanupReason::OrphanedWorkspace,
            });
    }
    lemma_count_none(extra, f);
    lemma_count_add(pre, extra, f);
    lemma_count_add(d + fi, cr, f);
    lemma_count_add(d, fi, f);
    lemma_plan_layout(s);
    if c.len() + st.len() > 0 {
        let starts = st.map_values(|i: IssueView| start_of(i, s.prefix, s.main_head));
        assert(plan_spec(s) == c + starts);
        assert forall|i: int| 0 <= i < starts.len() implies !f(#[trigger] starts[i]) by {
            assert(is_start(starts[i]));
        }
        lemma_count_none(starts, f);
        lemma_count_add(c, starts, f);
    } else {
        let pl = plan_spec(s);
        assert(pl.drop_last() =~= Seq::<ActionView>::empty());
        assert(!f(pl.last()));
        assert(c.len() == 0);
        assert(pre.len() == 0);
        assert(d.len() == 0 && fi.len() == 0 && cr.len() == 0);
    }
}

proof fn lemma_count_crashed_none(imps: Seq<ImplementerStateView>, wss: Seq<WorkspaceStateView>, f: spec_fn(ActionView) -> bool)
    requires
        forall|j: int| 0 <= j < imps.len() && (#[trigger] imps[j]).status is Crashed ==> !f(
            ActionView::CleanupWorkspace {
                workspace_name: imps[j].workspace_name,
                reason: CleanupReason::SessionCrashed,
            },
        ),
    ensures
        count_where(crashed_phase(imps, wss), f) == 0,
{
    lemma_crashed_shape(imps, wss);
    let c = crashed_phase(imps, wss);
    assert forall|i: int| 0 <= i < c.len() implies !f(#[trigger] c[i]) by {
        let j = choose|j: int|
            0 <= j < imps.len() && imps[j].status is Crashed && c[i] == (ActionView::CleanupWorkspace {
                workspace_name: imps[j].workspace_name,
                reason: CleanupReason::SessionCrashed,
            });
    }
    lemma_count_none(c, f);
}

/// The predicate "equals `x`", as a value.
pub open spec fn equals(x: ActionView) -> spec_fn(ActionView) -> bool {
    |a: ActionView| a == x
}

/// Law: a workspace whose session died without a result file is cleaned up as crashed
/// exactly once, when no other workspace has its name and no crashed implementer records it.
pub proof fn law_dead_session_cleaned_once(s: SupervisorStateView, w: int)
    requires
        0 <= w < s.workspaces.len(),
        is_dead_session(s.workspaces[w]),
        forall|v: int| 0 <= v < s.workspaces.len() && v != w ==> #[trigger] s.workspaces[v].name != s.workspaces[w].name,
        forall|j: int| 0 <= j < s.implementers.len() && #[trigger] s.implementers[j].status is Crashed
            ==> s.implementers[j].workspace_name != s.workspaces[w].name,
    ensures
        count_where(
            plan_spec(s),
            equals(ActionView::CleanupWorkspace {
                workspace_name: s.workspaces[w].name,
                reason: CleanupReason::SessionCrashed,
            }),
        ) == 1,
{
    let x = ActionView::CleanupWorkspace {
        workspace_name: s.workspaces[w].name,
        reason: CleanupReason::SessionCrashed,
    };
    let f = equals(x);
    lemma_plan_count(s, f);
    assert forall|v: int| 0 <= v < s.workspaces.len() && v != w && is_dead_session(#[trigger] s.workspaces[v]) implies !f(
        ActionView::CleanupWorkspace {
            workspace_name: s.workspaces[v].name,
            reason: CleanupReason::SessionCrashed,
        },
    ) by {}
    lemma_count_dead(s.workspaces, f, w);
    assert forall|j: int| 0 <= j < s.implementers.len() && j != -1 implies count_where(finish_actions_of(#[trigger] s.implementers[j]), f) == 0 by {
        lemma_count_finish_actions(s.implementers[j], f);
    }
    lemma_count_finish_phase(s.implementers, f, -1);
    lemma_count_crashed_none(s.implementers, s.workspaces, f);
}

/// The predicate "posts a comment on issue `n`", as a value.
pub open spec fn comments_on(n: u64) -> spec_fn(ActionView) -> bool {
    |a: ActionView| a matches ActionView::PostComment { issue_number, .. } && issue_number == n
}

/// The predicate "cleans up the workspace named `name`", as a value.
pub open spec fn cleans_up_named(name: Seq<char>) -> spec_fn(ActionView) -> bool {
    |a: ActionView| is_cleanup_of(a, name)
}

/// Law: an implementer that asked for feedback gets exactly one comment on its issue, the
/// feedback comment with its message, and its workspace exactly one cleanup, the
/// `SessionFinished` one; when no other implementer of the issue finished or failed to
/// hand off, no other implementer records the workspace, and every workspace of that name
/// holds a result file.
pub proof fn law_needs_feedback_handled_once(s: SupervisorStateView, k: int)
    requires
        0 <= k < s.implementers.len(),
        s.implementers[k].status matches ImplementerStatusView::Finished(
            ImplementerResultView::NeedsFeedback { .. },
        ),
        forall|j: int| 0 <= j < s.implementers.len() && j != k
            && (#[trigger] s.implementers[j]).issue_number == s.implementers[k].issue_number
            ==> !(s.implementers[j].status is Finished) && !(s.implementers[j].status is Malformed),
        forall|j: int| 0 <= j < s.implementers.len() && j != k
            ==> (#[trigger] s.implementers[j]).workspace_name != s.implementers[k].workspace_name,
        forall|v: int| 0 <= v < s.workspaces.len()
            && (#[trigger] s.workspaces[v]).name == s.implementers[k].workspace_name
            ==> s.workspaces[v].has_result_file,
    ensures
        ({
            let imp = s.implementers[k];
            let message = imp.status->Finished_0->NeedsFeedback_message;
            &&& count_where(plan_spec(s), comments_on(imp.issue_number)) == 1
            &&& count_where(
                plan_spec(s),
                equals(ActionView::PostComment {
                    issue_number: imp.issue_number,
                    body: needs_feedback_body(message),
                }),
            ) == 1
            &&& count_where(plan_spec(s), cleans_up_named(imp.workspace_name)) == 1
            &&& count_where(
                plan_spec(s),
                equals(ActionView::CleanupWorkspace {
                    workspace_name: imp.workspace_name,
                    reason: CleanupReason::SessionFinished,
                }),
            ) == 1
        }),
{
    let imp = s.implementers[k];
    let n = imp.issue_number;
    let w = imp.workspace_name;
    let message = imp.status->Finished_0->NeedsFeedback_message;
    let x1 = ActionView::PostComment { issue_number: n, body: needs_feedback_body(message) };
    let x2 = ActionView::CleanupWorkspace { workspace_name: w, reason: CleanupReason::SessionFinished };
    let fs = seq![comments_on(n), equals(x1), cleans_up_named(w), equals(x2)];
    assert forall|i: int| 0 <= i < 4 implies count_where(plan_spec(s), #[trigger] fs[i]) == 1 by {
        let f = fs[i];
        assert forall|v: int| 0 <= v < s.workspaces.len() && is_orphan(#[trigger] s.workspaces[v], s.prefix) implies !f(
            ActionView::CleanupWorkspace {
                workspace_name: s.workspaces[v].name,
                reason: CleanupReason::OrphanedWorkspace,
            },
        ) by {}
        lemma_plan_count(s, f);
        assert forall|v: int| 0 <= v < s.workspaces.len() && v != -1 && is_dead_session(#[trigger] s.workspaces[v]) implies !f(
            ActionView::CleanupWorkspace {
                workspace_name: s.workspaces[v].name,
                reason: CleanupReason::SessionCrashed,
            },
        ) by {}
        lemma_count_dead(s.workspaces, f, -1);
        assert forall|j: int| 0 <= j < s.implementers.len() && (#[trigger] s.implementers[j]).status is Crashed implies !f(
            ActionView::CleanupWorkspace {
                workspace_name: s.implementers[j].workspace_name,
                reason: CleanupReason::SessionCrashed,
            },
        ) by {}
        lemma_count_crashed_none(s.implementers, s.workspaces, f);
        assert forall|j: int| 0 <= j < s.implementers.len() && j != k implies count_where(
            finish_actions_of(#[trigger] s.implementers[j]),
            f,
        ) == 0 by {
            lemma_count_finish_actions(s.implementers[j], f);
        }
        lemma_count_finish_actions(imp, f);
        lemma_count_finish_phase(s.implementers, f, k);
    }
    assert(fs[0] == comments_on(n));
    assert(fs[1] == equals(x1));
    assert(fs[2] == cleans_up_named(w));
    assert(fs[3] == equals(x2));
}

proof fn lemma_finish_contains(imps: Seq<ImplementerStateView>, k: int, t: int)
    requires
        0 <= k < imps.len(),
        0 <= t < finish_actions_of(imps[k]).len(),
    ensures
        finish_phase(imps).contains(finish_actions_of(imps[k])[t]),
    decreases imps.len(),
{
    let p = imps.drop_last();
    let prev = finish_phase(p);
    let last = finish_actions_of(imps.last());
    if k == imps.len() - 1 {
        assert(finish_phase(imps)[prev.len() + t] == last[t]);
    } else {
        assert(p[k] == imps[k]);
        lemma_finish_contains(p, k, t);
        let i = choose|i: int| 0 <= i < prev.len() && prev[i] == finish_actions_of(imps[k])[t];
        assert(finish_phase(imps)[i] == prev[i]);
    }
}

/// Every action of steps 2 (finished and malformed implementers) appears in the plan.
proof fn lemma_finish_in_plan(s: SupervisorStateView, k: int, t: int)
    requires
        0 <= k < s.implementers.len(),
        0 <= t < finish_actions_of(s.implementers[k]).len(),
    ensures
        plan_spec(s).contains(finish_actions_of(s.implementers[k])[t]),
{
    let d = dead_session_cleanups(s.workspaces);
    let fi = finish_phase(s.implementers);
    let cr = crashed_phase(s.implementers, s.workspaces);
    let pre = d + fi + cr;
    let c = cleanup_actions(s);
    lemma_finish_contains(s.implementers, k, t);
    let i = choose|i: int| 0 <= i < fi.len() && fi[i] == finish_actions_of(s.implementers[k])[t];
    assert(pre[d.len() + i] == fi[i]);
    lemma_orphan_shape(pre, s.workspaces, s.prefix);
    assert(c[d.len() + i] == fi[i]);
    lemma_plan_layout(s);
    assert(plan_spec(s)[d.len() + i] == fi[i]);
}

/// Law: an implementer that finished with a commit gets a merge of exactly that commit,
/// from its workspace and base commit, for its issue.
pub proof fn law_done_is_merged(s: SupervisorStateView, k: int)
    requires
        0 <= k < s.implementers.len(),
        s.implementers[k].status matches ImplementerStatusView::Finished(
            ImplementerResultView::Done { .. },
        ),
    ensures
        plan_spec(s).contains(
            ActionView::MergeImplementation {
                workspace_name: s.implementers[k].workspace_name,
                commit: s.implementers[k].status->Finished_0->Done_commit,
                base_commit: s.implementers[k].base_commit,
                issue_number: s.implementers[k].issue_number,
            },
        ),
{
    lemma_finish_in_plan(s, k, 0);
}

/// Law: an implementer whose result file is malformed gets a diagnostic comment and a
/// `MalformedHandoff` cleanup of its workspace.
pub proof fn law_malformed_is_reported(s: SupervisorStateView, k: int)
    requires
        0 <= k < s.implementers.len(),
        s.implementers[k].status is Malformed,
    ensures
        plan_spec(s).contains(
            ActionView::PostComment {
                issue_number: s.implementers[k].issue_number,
                body: invalid_handoff_body(s.implementers[k].status->Malformed_error),
            },
        ),
        plan_spec(s).contains(
            ActionView::CleanupWorkspace {
                workspace_name: s.implementers[k].workspace_name,
                reason: CleanupReason::MalformedHandoff,
            },
        ),
{
    lemma_finish_in_plan(s, k, 0);
    lemma_finish_in_plan(s, k, 1);
}

/// Law: every merge in a plan comes from an implementer that finished with that commit.
pub proof fn law_merges_come_from_done(s: SupervisorStateView, i: int)
    requires
        0 <= i < plan_spec(s).len(),
        plan_spec(s)[i] is MergeImplementation,
    ensures
        exists|k: int| 0 <= k < s.implementers.len() && (#[trigger] s.implementers[k]).status == (ImplementerStatusView::Finished(
            ImplementerResultView::Done { commit: plan_spec(s)[i]->MergeImplementation_commit },
        )) && plan_spec(s)[i] == (ActionView::MergeImplementation {
            workspace_name: s.implementers[k].workspace_name,
            commit: plan_spec(s)[i]->MergeImplementation_commit,
            base_commit: s.implementers[k].base_commit,
            issue_number: s.implementers[k].issue_number,
        }),
{
    let x = plan_spec(s)[i];
    let d = dead_session_cleanups(s.workspaces);
    let fi = finish_phase(s.implementers);
    let cr = crashed_phase(s.implementers, s.workspaces);
    let pre = d + fi + cr;
    let c = cleanup_actions(s);
    let st = started_issues(s);
    lemma_plan_layout(s);
    lemma_dead_shape(s.workspaces);
    lemma_crashed_shape(s.implementers, s.workspaces);
    lemma_orphan_shape(pre, s.workspaces, s.prefix);
    assert(c.len() + st.len() > 0);
    if i >= c.len() {
        assert(plan_spec(s)[c.len() + (i - c.len())] == start_of(st[i - c.len()], s.prefix, s.main_head));
    } else {
        assert(plan_spec(s)[i] == c[i]);
        if i >= pre.len() {
            let w = choose|w: int|
                0 <= w < s.workspaces.len() && is_orphan(s.workspaces[w], s.prefix) && c[i] == (
                ActionView::CleanupWorkspace {
                    workspace_name: s.workspaces[w].name,
                    reason: CleanupReason::OrphanedWorkspace,
                });
        } else if i < d.len() {
            assert(pre[i] == d[i]);
        } else if i >= d.len() + fi.len() {
            assert(pre[i] == cr[i - d.len() - fi.len()]);
            let j = choose|j: int|
                0 <= j < s.implementers.len() && s.implementers[j].status is Crashed && cr[i - d.len() - fi.len()]
                    == (ActionView::CleanupWorkspace {
                    workspace_name: s.implementers[j].workspace_name,
                    reason: CleanupReason::SessionCrashed,
                });
        } else {
            assert(pre[i] == fi[i - d.len()]);
            lemma_merge_origin(s.implementers, i - d.len());
        }
    }
}

proof fn lemma_merge_origin(imps: Seq<ImplementerStateView>, i: int)
    requires
        0 <= i < finish_phase(imps).len(),
        finish_phase(imps)[i] is MergeImplementation,
    ensures
        exists|k: int| 0 <= k < imps.len() && (#[trigger] imps[k]).status == (ImplementerStatusView::Finished(
            ImplementerResultView::Done { commit: finish_phase(imps)[i]->MergeImplementation_commit },
        )) && finish_phase(imps)[i] == (ActionView::MergeImplementation {
            workspace_name: imps[k].workspace_name,
            commit: finish_phase(imps)[i]->MergeImplementation_commit,
            base_commit: imps[k].base_commit,
            issue_number: imps[k].issue_number,
        }),
    decreases imps.len(),
{
    let p = imps.drop_last();
    let prev = finish_phase(p);
    let last = finish_actions_of(imps.last());
    let x = finish_phase(imps)[i];
    if i < prev.len() {
        assert(x == prev[i]);
        lemma_merge_origin(p, i);
        let k = choose|k: int| 0 <= k < p.len() && (#[trigger] p[k]).status == (ImplementerStatusView::Finished(
            ImplementerResultView::Done { commit: prev[i]->MergeImplementation_commit },
        )) && prev[i] == (ActionView::MergeImplementation {
            workspace_name: p[k].workspace_name,
            commit: prev[i]->MergeImplementation_commit,
            base_commit: p[k].base_commit,
            issue_number: p[k].issue_number,
        });
        assert(imps[k] == p[k]);
    } else {
        assert(x == last[i - prev.len()]);
        let k = imps.len() - 1;
        assert(imps[k] == imps.last());
    }
}

/// Law: every orphaned managed workspace (prefix match, no session, no result file) is
/// cleaned up by some action of the plan.
pub proof fn law_orphans_are_cleaned(s: SupervisorStateView, w: int)
    requires
        0 <= w < s.workspaces.len(),
        is_orphan(s.workspaces[w], s.prefix),
    ensures
        cleans_up(plan_spec(s), s.workspaces[w].name),
{
    let d = dead_session_cleanups(s.workspaces);
    let fi = finish_phase(s.implementers);
    let cr = crashed_phase(s.implementers, s.workspaces);
    let pre = d + fi + cr;
    lemma_orphan_cleans(pre, s.workspaces, s.prefix, w);
    let c = cleanup_actions(s);
    let i = choose|i: int| 0 <= i < c.len() && is_cleanup_of(#[trigger] c[i], s.workspaces[w].name);
    lemma_plan_layout(s);
    assert(plan_spec(s)[i] == c[i]);
}

proof fn lemma_orphan_cleans(acts: Seq<ActionView>, wss: Seq<WorkspaceStateView>, prefix: Seq<char>, w: int)
    requires
        0 <= w < wss.len(),
        is_orphan(wss[w], prefix),
    ensures
        cleans_up(orphan_phase(acts, wss, prefix), wss[w].name),
    decreases wss.len(),
{
    let p = wss.drop_last();
    let prev = orphan_phase(acts, p, prefix);
    let r = orphan_phase(acts, wss, prefix);
    lemma_orphan_shape(acts, p, prefix);
    if w < p.len() {
        assert(p[w] == wss[w]);
        lemma_orphan_cleans(acts, p, prefix, w);
        let i = choose|i: int| 0 <= i < prev.len() && is_cleanup_of(#[trigger] prev[i], wss[w].name);
        assert(r[i] == prev[i]);
    } else {
        assert(wss.last() == wss[w]);
        if cleans_up(prev, wss[w].name) {
            let i = choose|i: int| 0 <= i < prev.len() && is_cleanup_of(#[trigger] prev[i], wss[w].name);
            assert(r[i] == prev[i]);
        } else {
            assert(is_cleanup_of(r[prev.len() as int], wss[w].name));
        }
    }
}

} // verus!
