use grindbot::config::Config;
use grindbot::kernel::actions::{Action, CleanupReason};
use grindbot::kernel::state::{
    ImplementerResult, ImplementerState, ImplementerStatus, Issue, SupervisorState,
};
use grindbot::state_file::{ActiveImplementer, StateFile};
use grindbot::supervisor::{
    cycle_summary, forgotten_workspace, find_workspace_path, format_action, implementer_from_active, implementer_status,
    instant_nanos, is_managed_workspace, parse_started_at, reconstruct_session_info,
    reconstruct_session_info_pub, record_needs_feedback, result_file_path, session_for_termination,
    session_step, startup_step, workspace_issue_number, workspace_state_for, ResultFile, SessionStep, StartupStep,
};

fn active(issue: u64, session: &str, workspace: &str) -> ActiveImplementer {
    ActiveImplementer {
        issue_number: issue,
        session_id: session.to_string(),
        workspace_name: workspace.to_string(),
        workspace_path: format!("/tmp/{workspace}"),
        base_commit: "abc123".to_string(),
        started_at: "2024-01-01T00:00:00Z".to_string(),
        port: 8080,
        bearer_token: "secret".to_string(),
        credential_file: "/tmp/cred.json".to_string(),
    }
}

fn implementer(issue: u64, status: ImplementerStatus) -> ImplementerState {
    ImplementerState {
        issue_number: issue,
        session_id: format!("s{issue}"),
        workspace_name: format!("ws{issue}"),
        workspace_path: format!("/tmp/ws{issue}"),
        base_commit: "abc".to_string(),
        started_at: 0,
        status,
        used_tokens: None,
        limit_tokens: None,
        stall_cycles: 0,
        most_recent_assistant_text: None,
    }
}

const NOW: (i64, u32) = (1_800_000_000, 5);

#[test]
fn test_reconstruct_session_info() {
    let active = ActiveImplementer {
        issue_number: 42,
        session_id: "sess-abc".to_string(),
        workspace_name: "grindbot-42".to_string(),
        workspace_path: "/tmp/ws".to_string(),
        base_commit: "abc123".to_string(),
        started_at: "2024-01-01T00:00:00Z".to_string(),
        port: 8080,
        bearer_token: "secret".to_string(),
        credential_file: "/tmp/cred.json".to_string(),
    };
    let info = reconstruct_session_info(&active);
    assert_eq!(info.session_id, "sess-abc");
    assert_eq!(info.port, 8080);
    assert_eq!(info.bearer_token, "secret");
    assert_eq!(info.credential_file, "/tmp/cred.json");
    let again = reconstruct_session_info_pub(&active);
    assert_eq!(again.session_id, "sess-abc");
}

#[test]
fn test_parse_started_at_valid() {
    let (secs, nanos) = parse_started_at("2024-01-01T00:00:00Z", NOW);
    let dt = chrono::DateTime::from_timestamp(secs, nanos).unwrap();
    assert_eq!(dt.to_rfc3339(), "2024-01-01T00:00:00+00:00");
}

#[test]
fn test_started_at_parsed_from_state() {
    let (secs, nanos) = parse_started_at("2024-01-01T00:00:00Z", NOW);
    let expected = chrono::DateTime::parse_from_rfc3339("2024-01-01T00:00:00Z").unwrap();
    assert_eq!(secs, expected.timestamp());
    assert_eq!(nanos, expected.timestamp_subsec_nanos());
}

#[test]
fn test_parse_started_at_invalid_falls_back() {
    assert_eq!(parse_started_at("not-a-date", NOW), NOW);
}

#[test]
fn started_at_with_offset_and_fraction() {
    assert_eq!(parse_started_at("2024-01-01T02:00:00.5+02:00", NOW), (1_704_067_200, 500_000_000));
    assert_eq!(instant_nanos((1_704_067_200, 500_000_000)), 1_704_067_200_500_000_000);
    assert_eq!(instant_nanos((-1, 0)), -1_000_000_000);
}

#[test]
fn test_cycle_summary_counts() {
    let state = SupervisorState {
        config: Config::default(),
        issues: vec![],
        implementers: vec![
            implementer(1, ImplementerStatus::Running),
            implementer(2, ImplementerStatus::Finished(ImplementerResult::Done { commit: "xyz".to_string() })),
            implementer(3, ImplementerStatus::Crashed),
        ],
        workspaces: vec![],
        main_head: "abc".to_string(),
        completed_issues: vec![1, 2],
    };
    let actions = vec![Action::Noop];
    let c = cycle_summary(&state, &actions);
    assert_eq!((c.running, c.finished, c.crashed, c.total_issues, c.completed, c.action_count), (1, 1, 1, 0, 2, 0));
    let c2 = cycle_summary(&state, &vec![Action::PushToRemote, Action::Noop, Action::TerminateSession { session_id: "s".into() }]);
    assert_eq!(c2.action_count, 2);
}

#[test]
fn format_action_lines() {
    assert_eq!(format_action(&Action::Noop), "  NOOP     no actions this cycle");
    assert_eq!(format_action(&Action::PushToRemote), "  PUSH     to remote");
    assert_eq!(
        format_action(&Action::CleanupWorkspace { workspace_name: "grindbot-3".into(), reason: CleanupReason::OrphanedWorkspace }),
        "  CLEANUP  workspace grindbot-3 (OrphanedWorkspace)"
    );
    assert_eq!(
        format_action(&Action::MergeImplementation {
            workspace_name: "grindbot-3".into(),
            commit: "c0ffee".into(),
            base_commit: "b".into(),
            issue_number: 3,
        }),
        "  MERGE    implementation from grindbot-3 (commit: c0ffee)"
    );
    assert_eq!(format_action(&Action::PostComment { issue_number: 12, body: "x".into() }), "  COMMENT  on issue #12");
    assert_eq!(
        format_action(&Action::DiscardImplementation { workspace_name: "w".into(), issue_number: 4 }),
        "  DISCARD  implementation from w (issue #4)"
    );
    assert_eq!(format_action(&Action::TerminateSession { session_id: "abc".into() }), "  TERM     session abc");
    assert_eq!(
        format_action(&Action::ResolveConflict { workspace_name: "w".into(), commit: "c".into(), base_commit: "b".into(), issue_number: 1 }),
        "  RESOLVE  conflict in w"
    );
    let issue = Issue {
        number: 9,
        title: "t".into(),
        body: "b".into(),
        author: "a".into(),
        created_at: 0,
        updated_at: 0,
        comments: vec![],
    };
    assert_eq!(
        format_action(&Action::StartImplementer { issue, workspace_name: "grindbot-9".into(), base_commit: "m".into() }),
        "  START    implementer for issue #9 in workspace grindbot-9"
    );
}

#[test]
fn workspace_names_give_issue_numbers() {
    let config = Config::default();
    assert_eq!(workspace_issue_number(&config, "grindbot-42"), 42);
    assert_eq!(workspace_issue_number(&config, "grindbot-+7"), 7);
    assert_eq!(workspace_issue_number(&config, "grindbot-x"), 0);
    assert_eq!(workspace_issue_number(&config, "other-5"), 0);
    assert_eq!(workspace_issue_number(&config, "grindbot-99999999999999999999"), 0);
    assert_eq!(workspace_issue_number(&config, &config.workspace_name(123)), 123);
    assert!(is_managed_workspace(&config, "grindbot-1"));
    assert!(!is_managed_workspace(&config, "default"));
}

#[test]
fn status_from_observations() {
    assert!(matches!(implementer_status(true, ResultFile::Absent), ImplementerStatus::Running));
    assert!(matches!(implementer_status(false, ResultFile::Absent), ImplementerStatus::Crashed));
    assert!(matches!(
        implementer_status(false, ResultFile::Parsed(ImplementerResult::Done { commit: "c".into() })),
        ImplementerStatus::Finished(ImplementerResult::Done { .. })
    ));
    assert!(matches!(
        implementer_status(true, ResultFile::Unparsable("bad json".into())),
        ImplementerStatus::Crashed
    ));
    assert!(matches!(
        implementer_status(false, ResultFile::Unparsable("bad json".into())),
        ImplementerStatus::Crashed
    ));
}

#[test]
fn implementer_state_from_record() {
    let a = active(42, "sess", "grindbot-42");
    let s = implementer_from_active(&a, ImplementerStatus::Running, NOW);
    assert_eq!(s.issue_number, 42);
    assert_eq!(s.workspace_path, "/tmp/grindbot-42");
    assert_eq!(s.started_at, 1_704_067_200_000_000_000);
    let mut b = active(1, "s", "w");
    b.started_at = "garbage".into();
    assert_eq!(implementer_from_active(&b, ImplementerStatus::Crashed, NOW).started_at, 1_800_000_000_000_000_005);
}

#[test]
fn workspace_states_link_to_records() {
    let config = Config::default();
    let mut sf = StateFile::default();
    sf.add_implementer(active(42, "sess-42", "grindbot-42"));
    let w = workspace_state_for(&config, "/repo", &sf, "grindbot-42", true, false);
    assert_eq!(w.path, "/repo/.grindbot-workspaces/grindbot-42");
    assert_eq!(w.task_issue, Some(42));
    assert_eq!(w.session_id.as_deref(), Some("sess-42"));
    assert!(w.daemon_alive);
    let o = workspace_state_for(&config, "/repo", &sf, "grindbot-7", true, true);
    assert_eq!(o.task_issue, None);
    assert!(!o.daemon_alive);
    assert!(o.has_result_file);
}

#[test]
fn startup_decisions() {
    let config = Config::default();
    let mut sf = StateFile::default();
    sf.add_implementer(active(1, "s1", "grindbot-1"));
    assert!(matches!(startup_step(&config, "/repo", &sf, "default"), StartupStep::Skip));
    match startup_step(&config, "/repo", &sf, "grindbot-1") {
        StartupStep::CheckSession { active } => assert_eq!(active.session_id, "s1"),
        _ => panic!("expected a session check"),
    }
    match startup_step(&config, "/repo", &sf, "grindbot-2") {
        StartupStep::CleanupOrphan { path } => assert_eq!(path, "/repo/.grindbot-workspaces/grindbot-2"),
        _ => panic!("expected an orphan cleanup"),
    }
}

#[test]
fn lookups_in_state_file() {
    let config = Config::default();
    let mut sf = StateFile::default();
    sf.add_implementer(active(1, "s1", "grindbot-1"));
    assert_eq!(find_workspace_path(&config, &sf, "grindbot-1"), Some("/tmp/grindbot-1".to_string()));
    assert_eq!(find_workspace_path(&config, &sf, "grindbot-2"), None);
    let t = session_for_termination(&sf, "s1");
    assert_eq!((t.port, t.bearer_token.as_str()), (8080, "secret"));
    let u = session_for_termination(&sf, "unknown");
    assert_eq!((u.session_id.as_str(), u.port, u.bearer_token.as_str(), u.credential_file.as_str()), ("unknown", 0, "", ""));
    assert_eq!(result_file_path("/w"), "/w/.grindbot/result.json");
}

#[test]
fn needs_feedback_is_recorded_and_released() {
    let mut sf = StateFile::default();
    sf.add_implementer(active(5, "s5", "grindbot-5"));
    record_needs_feedback(&mut sf, 5, "Need more info", "2024-01-12T00:00:00Z", "grindbot-5");
    assert!(sf.active_implementers.is_empty());
    assert_eq!(sf.needs_feedback.len(), 1);
    assert_eq!(sf.needs_feedback[0].message, "Need more info");
}

#[test]
fn startup_session_steps() {
    let done = || Some(ImplementerResult::Done { commit: "c1".into() });
    assert!(matches!(session_step(true, done()), SessionStep::Leave));
    assert!(matches!(session_step(true, None), SessionStep::Leave));
    assert!(matches!(session_step(false, None), SessionStep::Discard));
    match session_step(false, done()) {
        SessionStep::MergeThenDiscard { commit } => assert_eq!(commit, "c1"),
        _ => panic!("expected a merge"),
    }
    match session_step(false, Some(ImplementerResult::NeedsFeedback { message: "why?".into() })) {
        SessionStep::FeedbackThenDiscard { message } => assert_eq!(message, "why?"),
        _ => panic!("expected feedback"),
    }
}

#[test]
fn cleanups_and_discards_forget_their_workspace() {
    let cleanup = Action::CleanupWorkspace { workspace_name: "grindbot-3".into(), reason: CleanupReason::SessionCrashed };
    assert_eq!(forgotten_workspace(&cleanup), Some("grindbot-3".to_string()));
    let discard = Action::DiscardImplementation { workspace_name: "grindbot-4".into(), issue_number: 4 };
    assert_eq!(forgotten_workspace(&discard), Some("grindbot-4".to_string()));
    assert_eq!(forgotten_workspace(&Action::PushToRemote), None);
    assert_eq!(forgotten_workspace(&Action::PostComment { issue_number: 1, body: "b".into() }), None);
}
