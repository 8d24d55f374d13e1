use grindbot::config::Config;
use grindbot::merge_flow::{MergeCommand, MergeEvent, MergeFlow, MergePhase, PERSISTENT_CONFLICT_COMMENT, RESOLUTION_PROMPT};
use grindbot::state_file::{ActiveImplementer, ConflictRetry, StateFile};

fn state_with_implementer() -> StateFile {
    let mut sf = StateFile::default();
    sf.add_implementer(ActiveImplementer {
        issue_number: 7,
        session_id: "s7".into(),
        workspace_name: "grindbot-7".into(),
        workspace_path: "/repo/.grindbot-workspaces/grindbot-7".into(),
        base_commit: "base".into(),
        started_at: "2024-01-01T00:00:00Z".into(),
        port: 1,
        bearer_token: "t".into(),
        credential_file: "c".into(),
    });
    sf
}

fn step(flow: &mut MergeFlow, sf: &mut StateFile, e: MergeEvent) -> MergeCommand {
    flow.step(sf, e, "2024-02-01T00:00:00+00:00");
    flow.command()
}

#[test]
fn clean_merge_records_completion_and_cleans_up() {
    let config = Config::default();
    let mut sf = state_with_implementer();
    sf.conflict_retries.push(ConflictRetry { issue_number: 7, count: 1 });
    let mut flow = MergeFlow::merge(&config, &sf, "grindbot-7", "c0ffee", "base", 7);
    match flow.command() {
        MergeCommand::Rebase { revset, dest } => {
            assert_eq!(revset, "base::c0ffee");
            assert_eq!(dest, "main@origin");
        },
        other => panic!("unexpected {other:?}"),
    }
    assert!(matches!(step(&mut flow, &mut sf, MergeEvent::Rebased { conflict: false }), MergeCommand::SetBookmark { .. }));
    assert!(matches!(step(&mut flow, &mut sf, MergeEvent::Completed), MergeCommand::Push { .. }));
    match step(&mut flow, &mut sf, MergeEvent::Completed) {
        MergeCommand::PostComment { issue_number, body } => {
            assert_eq!(issue_number, 7);
            assert_eq!(body, "<!-- grindbot -->\n\nImplementation complete. Commit `c0ffee` has been merged to `main`.");
        },
        other => panic!("unexpected {other:?}"),
    }
    assert!(sf.completed_tasks.is_empty());
    match step(&mut flow, &mut sf, MergeEvent::Completed) {
        MergeCommand::CleanupWorkspace { name, path } => {
            assert_eq!(name, "grindbot-7");
            assert_eq!(path, "/repo/.grindbot-workspaces/grindbot-7");
        },
        other => panic!("unexpected {other:?}"),
    }
    assert_eq!(sf.completed_issues(), vec![7]);
    assert_eq!(sf.completed_tasks[0].commit, "c0ffee");
    assert_eq!(sf.conflict_retry_count(7), 0);
    assert!(matches!(step(&mut flow, &mut sf, MergeEvent::Completed), MergeCommand::Finish));
    assert!(sf.active_implementers.is_empty());
}

#[test]
fn failed_push_stops_without_recording() {
    let config = Config::default();
    let mut sf = state_with_implementer();
    let mut flow = MergeFlow::merge(&config, &sf, "grindbot-7", "c", "b", 7);
    step(&mut flow, &mut sf, MergeEvent::Rebased { conflict: false });
    step(&mut flow, &mut sf, MergeEvent::Completed);
    assert!(matches!(step(&mut flow, &mut sf, MergeEvent::Failed), MergeCommand::Stop));
    assert!(matches!(flow.phase, MergePhase::Failed));
    assert!(sf.completed_tasks.is_empty());
    assert_eq!(sf.active_implementers.len(), 1);
}

#[test]
fn conflict_runs_a_resolution_agent_then_merges_again() {
    let config = Config::default();
    let mut sf = state_with_implementer();
    let mut flow = MergeFlow::merge(&config, &sf, "grindbot-7", "c", "b", 7);
    match step(&mut flow, &mut sf, MergeEvent::Rebased { conflict: true }) {
        MergeCommand::SetupConflictWorkspace { path } => assert_eq!(path, "/repo/.grindbot-workspaces/grindbot-7"),
        other => panic!("unexpected {other:?}"),
    }
    assert!(matches!(step(&mut flow, &mut sf, MergeEvent::Completed), MergeCommand::SpawnAgent { .. }));
    match step(&mut flow, &mut sf, MergeEvent::Completed) {
        MergeCommand::SetFacet { facet } => assert_eq!(facet, "execute"),
        other => panic!("unexpected {other:?}"),
    }
    match step(&mut flow, &mut sf, MergeEvent::Completed) {
        MergeCommand::SetPermissionMode { mode } => assert_eq!(mode, "bypass_plus"),
        other => panic!("unexpected {other:?}"),
    }
    assert!(matches!(step(&mut flow, &mut sf, MergeEvent::Completed), MergeCommand::SetGoal { .. }));
    match step(&mut flow, &mut sf, MergeEvent::Completed) {
        MergeCommand::SendPrompt { content, max_turns } => {
            assert_eq!(content, RESOLUTION_PROMPT);
            assert_eq!(max_turns, 50);
        },
        other => panic!("unexpected {other:?}"),
    }
    assert!(matches!(step(&mut flow, &mut sf, MergeEvent::Completed), MergeCommand::GetAgentState));
    assert!(matches!(step(&mut flow, &mut sf, MergeEvent::AgentState { turn_in_flight: true }), MergeCommand::Sleep { secs: 10 }));
    assert!(matches!(step(&mut flow, &mut sf, MergeEvent::Slept { elapsed_secs: 10 }), MergeCommand::GetAgentState));
    assert!(matches!(step(&mut flow, &mut sf, MergeEvent::AgentState { turn_in_flight: false }), MergeCommand::CheckConflicts));
    assert!(matches!(
        step(&mut flow, &mut sf, MergeEvent::ConflictCheck { conflicts: Some(false) }),
        MergeCommand::TerminateAgent
    ));
    assert!(matches!(step(&mut flow, &mut sf, MergeEvent::Failed), MergeCommand::Rebase { .. }));
    assert!(matches!(step(&mut flow, &mut sf, MergeEvent::Rebased { conflict: false }), MergeCommand::SetBookmark { .. }));
    step(&mut flow, &mut sf, MergeEvent::Completed);
    match step(&mut flow, &mut sf, MergeEvent::Completed) {
        MergeCommand::PostComment { body, .. } => assert!(body.contains("(after conflict resolution)")),
        other => panic!("unexpected {other:?}"),
    }
    assert!(matches!(step(&mut flow, &mut sf, MergeEvent::Completed), MergeCommand::CleanupWorkspace { .. }));
    assert!(matches!(step(&mut flow, &mut sf, MergeEvent::Completed), MergeCommand::Finish));
    assert_eq!(sf.completed_issues(), vec![7]);
    assert!(sf.active_implementers.is_empty());
}

#[test]
fn timeout_and_remaining_conflicts_count_a_failed_resolution() {
    let config = Config::default();
    let mut sf = state_with_implementer();
    let mut flow = MergeFlow::resolve(&config, &sf, "grindbot-7", "c", "b", 7);
    assert!(matches!(flow.command(), MergeCommand::SetupConflictWorkspace { .. }));
    for _ in 0..6 {
        step(&mut flow, &mut sf, MergeEvent::Completed);
    }
    assert!(matches!(flow.command(), MergeCommand::GetAgentState));
    step(&mut flow, &mut sf, MergeEvent::AgentState { turn_in_flight: true });
    assert!(matches!(step(&mut flow, &mut sf, MergeEvent::Slept { elapsed_secs: 1800 }), MergeCommand::GetAgentState));
    step(&mut flow, &mut sf, MergeEvent::AgentState { turn_in_flight: true });
    assert!(matches!(step(&mut flow, &mut sf, MergeEvent::Slept { elapsed_secs: 1801 }), MergeCommand::TerminateAgent));
    assert!(matches!(step(&mut flow, &mut sf, MergeEvent::Completed), MergeCommand::CleanupWorkspace { .. }));
    assert_eq!(sf.conflict_retry_count(7), 1);
    assert!(matches!(step(&mut flow, &mut sf, MergeEvent::Completed), MergeCommand::Finish));
    assert!(sf.active_implementers.is_empty());
    assert!(sf.completed_tasks.is_empty());
}

#[test]
fn dead_agent_counts_a_failed_resolution() {
    let config = Config::default();
    let mut sf = state_with_implementer();
    let mut flow = MergeFlow::resolve(&config, &sf, "grindbot-7", "c", "b", 7);
    for _ in 0..6 {
        step(&mut flow, &mut sf, MergeEvent::Completed);
    }
    assert!(matches!(step(&mut flow, &mut sf, MergeEvent::Failed), MergeCommand::CleanupWorkspace { .. }));
    assert_eq!(sf.conflict_retry_count(7), 1);
}

#[test]
fn retry_limit_asks_for_help() {
    let config = Config::default();
    let mut sf = state_with_implementer();
    sf.conflict_retries.push(ConflictRetry { issue_number: 7, count: 3 });
    let mut flow = MergeFlow::resolve(&config, &sf, "grindbot-7", "c", "b", 7);
    match flow.command() {
        MergeCommand::PostComment { issue_number, body } => {
            assert_eq!(issue_number, 7);
            assert_eq!(body, PERSISTENT_CONFLICT_COMMENT);
        },
        other => panic!("unexpected {other:?}"),
    }
    assert!(matches!(step(&mut flow, &mut sf, MergeEvent::Completed), MergeCommand::CleanupWorkspace { .. }));
    assert!(matches!(step(&mut flow, &mut sf, MergeEvent::Completed), MergeCommand::Finish));
    assert_eq!(sf.conflict_retry_count(7), 3);
}

#[test]
fn unrecorded_workspace_uses_default_path() {
    let config = Config::default();
    let mut sf = StateFile::default();
    let mut flow = MergeFlow::resolve(&config, &sf, "grindbot-9", "c", "b", 9);
    match flow.command() {
        MergeCommand::SetupConflictWorkspace { path } => assert_eq!(path, "./.grindbot-workspaces/grindbot-9"),
        other => panic!("unexpected {other:?}"),
    }
    let mut merge = MergeFlow::merge(&config, &sf, "grindbot-9", "c", "b", 9);
    step(&mut merge, &mut sf, MergeEvent::Rebased { conflict: false });
    step(&mut merge, &mut sf, MergeEvent::Completed);
    step(&mut merge, &mut sf, MergeEvent::Completed);
    assert!(matches!(step(&mut merge, &mut sf, MergeEvent::Completed), MergeCommand::Finish));
    assert_eq!(sf.completed_issues(), vec![9]);
    let _ = &mut flow;
}
