use grindbot::config::{Config, GithubConfig, SupervisorConfig};
use grindbot::kernel::actions::{Action, CleanupReason};
use grindbot::kernel::filters::is_eligible;
use grindbot::kernel::planner::plan;
use grindbot::kernel::state::{
    Comment, ImplementerResult, ImplementerState, ImplementerStatus, Issue, SupervisorState, WorkspaceState,
};

const DAY: i128 = 86_400_000_000_000;
const JAN_1_2024: i128 = 1_704_067_200_000_000_000;

fn make_config(max_parallelism: usize, allowlist: Vec<String>) -> Config {
    Config {
        github: GithubConfig { owner: "test".to_string(), repo: "test".to_string(), allowlist },
        supervisor: SupervisorConfig {
            max_parallelism,
            poll_interval_secs: 30,
            base_branch: "main".to_string(),
            merge_lock_timeout_secs: 1800,
            final_check_command: None,
            stall_threshold_cycles: 5,
            log_interval_secs: 300,
        },
        ..Config::default()
    }
}

fn make_issue(number: u64, author: &str) -> Issue {
    Issue {
        number,
        title: format!("Issue {}", number),
        body: "Body".to_string(),
        author: author.to_string(),
        created_at: JAN_1_2024 + (number.min(28) as i128 - 1) * DAY,
        updated_at: JAN_1_2024,
        comments: vec![],
    }
}

fn make_comment(is_supervisor: bool) -> Comment {
    Comment {
        author: if is_supervisor { "grindbot".to_string() } else { "human".to_string() },
        body: if is_supervisor { "<!-- grindbot --> Done".to_string() } else { "Nice work".to_string() },
        created_at: JAN_1_2024,
        is_supervisor,
    }
}

fn make_state(config: Config, issues: Vec<Issue>, implementers: Vec<ImplementerState>, workspaces: Vec<WorkspaceState>) -> SupervisorState {
    SupervisorState { config, issues, implementers, workspaces, main_head: "abc123".to_string(), completed_issues: vec![] }
}

fn implementer(issue_number: u64, workspace: &str, status: ImplementerStatus) -> ImplementerState {
    ImplementerState {
        issue_number,
        session_id: "sess1".to_string(),
        workspace_name: workspace.to_string(),
        workspace_path: format!("/tmp/{workspace}"),
        base_commit: "base".to_string(),
        started_at: JAN_1_2024,
        status,
        used_tokens: None,
        limit_tokens: None,
        stall_cycles: 0,
        most_recent_assistant_text: None,
    }
}

fn alice() -> Vec<String> {
    vec!["alice".to_string()]
}

#[test]
fn test_allowlisted_author_no_comments_eligible() {
    assert!(is_eligible(&make_issue(1, "alice"), &make_config(2, alice()), &[], &[]));
}

#[test]
fn test_non_allowlisted_author_ineligible() {
    assert!(!is_eligible(&make_issue(1, "bob"), &make_config(2, alice()), &[], &[]));
}

#[test]
fn test_supervisor_last_comment_ineligible() {
    let mut issue = make_issue(1, "alice");
    issue.comments = vec![make_comment(false), make_comment(true)];
    assert!(!is_eligible(&issue, &make_config(2, alice()), &[], &[]));
}

#[test]
fn test_human_last_comment_eligible() {
    let mut issue = make_issue(1, "alice");
    issue.comments = vec![make_comment(true), make_comment(false)];
    assert!(is_eligible(&issue, &make_config(2, alice()), &[], &[]));
}

#[test]
fn test_active_issue_ineligible() {
    assert!(!is_eligible(&make_issue(1, "alice"), &make_config(2, alice()), &[1], &[]));
}

#[test]
fn test_completed_issue_ineligible() {
    assert!(!is_eligible(&make_issue(1, "alice"), &make_config(2, alice()), &[], &[1]));
}

#[test]
fn empty_allowlist_and_empty_comments_are_ineligible() {
    assert!(!is_eligible(&make_issue(1, "alice"), &Config::default(), &[], &[]));
}

#[test]
fn test_noop_when_no_eligible_issues() {
    let actions = plan(&make_state(make_config(2, alice()), vec![], vec![], vec![]));
    assert_eq!(actions.len(), 1);
    assert!(matches!(actions[0], Action::Noop));
}

#[test]
fn test_starts_implementer_for_eligible_issue() {
    let actions = plan(&make_state(make_config(2, alice()), vec![make_issue(1, "alice")], vec![], vec![]));
    assert_eq!(actions.len(), 1);
    assert!(matches!(&actions[0], Action::StartImplementer { issue, .. } if issue.number == 1));
    match &actions[0] {
        Action::StartImplementer { workspace_name, base_commit, .. } => {
            assert_eq!(workspace_name, "grindbot-1");
            assert_eq!(base_commit, "abc123");
        },
        _ => unreachable!(),
    }
}

#[test]
fn test_respects_max_parallelism() {
    let issues = vec![make_issue(1, "alice"), make_issue(2, "alice")];
    let actions = plan(&make_state(make_config(1, alice()), issues, vec![], vec![]));
    assert_eq!(actions.iter().filter(|a| matches!(a, Action::StartImplementer { .. })).count(), 1);
}

#[test]
fn test_does_not_start_for_active_issue() {
    let imp = implementer(1, "grindbot-1", ImplementerStatus::Running);
    let actions = plan(&make_state(make_config(2, alice()), vec![make_issue(1, "alice")], vec![imp], vec![]));
    assert!(actions.iter().all(|a| !matches!(a, Action::StartImplementer { issue, .. } if issue.number == 1)));
}

#[test]
fn test_does_not_start_for_completed_issue() {
    let mut state = make_state(make_config(2, alice()), vec![make_issue(1, "alice")], vec![], vec![]);
    state.completed_issues = vec![1];
    let actions = plan(&state);
    assert!(actions.iter().all(|a| !matches!(a, Action::StartImplementer { issue, .. } if issue.number == 1)));
}

#[test]
fn test_cleans_up_crashed_workspace() {
    let ws = WorkspaceState {
        name: "grindbot-1".to_string(),
        path: "/tmp/grindbot-1".to_string(),
        task_issue: Some(1),
        session_id: Some("sess1".to_string()),
        daemon_alive: false,
        has_result_file: false,
    };
    let actions = plan(&make_state(make_config(2, alice()), vec![], vec![], vec![ws]));
    assert!(actions.iter().any(|a| matches!(a, Action::CleanupWorkspace { reason: CleanupReason::SessionCrashed, .. })));
}

#[test]
fn test_cleans_up_orphaned_workspace() {
    let ws = WorkspaceState {
        name: "grindbot-99".to_string(),
        path: "/tmp/grindbot-99".to_string(),
        task_issue: None,
        session_id: None,
        daemon_alive: false,
        has_result_file: false,
    };
    let actions = plan(&make_state(make_config(2, alice()), vec![], vec![], vec![ws]));
    assert!(actions.iter().any(|a| matches!(a, Action::CleanupWorkspace { reason: CleanupReason::OrphanedWorkspace, .. })));
}

#[test]
fn test_processes_finished_done() {
    let imp = implementer(1, "grindbot-1", ImplementerStatus::Finished(ImplementerResult::Done { commit: "newcommit".to_string() }));
    let actions = plan(&make_state(make_config(2, alice()), vec![], vec![imp], vec![]));
    assert!(actions.iter().any(|a| matches!(a, Action::MergeImplementation { commit, .. } if commit == "newcommit")));
}

#[test]
fn test_processes_finished_needs_feedback() {
    let imp = implementer(
        1,
        "grindbot-1",
        ImplementerStatus::Finished(ImplementerResult::NeedsFeedback { message: "Need more info".to_string() }),
    );
    let actions = plan(&make_state(make_config(2, alice()), vec![], vec![imp], vec![]));
    assert!(actions.iter().any(|a| matches!(a, Action::PostComment { issue_number: 1, .. })));
    assert!(actions.iter().any(|a| matches!(a, Action::CleanupWorkspace { reason: CleanupReason::SessionFinished, .. })));
    assert!(actions.iter().any(|a| matches!(a, Action::PostComment { body, .. } if body == "<!-- grindbot -->\n\n**Needs feedback:**\n\nNeed more info")));
}

#[test]
fn test_fifo_ordering() {
    let mut issue2 = make_issue(2, "alice");
    issue2.created_at = JAN_1_2024;
    let mut issue1 = make_issue(1, "alice");
    issue1.created_at = JAN_1_2024 + DAY;
    let actions = plan(&make_state(make_config(2, alice()), vec![issue1, issue2], vec![], vec![]));
    let first_start = actions.iter().find(|a| matches!(a, Action::StartImplementer { .. }));
    assert!(matches!(first_start, Some(Action::StartImplementer { issue, .. }) if issue.number == 2));
}

#[test]
fn test_does_not_start_for_supervisor_last_comment() {
    let mut issue = make_issue(1, "alice");
    issue.comments = vec![make_comment(true)];
    let actions = plan(&make_state(make_config(2, alice()), vec![issue], vec![], vec![]));
    assert!(actions.iter().all(|a| !matches!(a, Action::StartImplementer { issue, .. } if issue.number == 1)));
}

#[test]
fn test_never_starts_duplicate_for_same_issue() {
    let issue = make_issue(1, "alice");
    let actions = plan(&make_state(make_config(2, alice()), vec![issue.duplicate(), issue], vec![], vec![]));
    assert_eq!(actions.iter().filter(|a| matches!(a, Action::StartImplementer { issue, .. } if issue.number == 1)).count(), 1);
}

#[test]
fn malformed_handoff_is_diagnostic_cleanup_only() {
    let mut imp = implementer(42, "ws", ImplementerStatus::Malformed { error: "bad json".into() });
    imp.workspace_path = "/tmp/ws".into();
    let state = SupervisorState {
        config: Config::default(),
        issues: vec![],
        implementers: vec![imp],
        workspaces: vec![],
        main_head: "main".into(),
        completed_issues: vec![],
    };
    let actions = plan(&state);
    assert!(!actions.iter().any(|a| matches!(a, Action::MergeImplementation { .. })));
    assert!(actions.iter().any(|a| matches!(a, Action::PostComment { issue_number: 42, .. })));
    assert!(actions.iter().any(|a| matches!(a, Action::CleanupWorkspace { workspace_name, .. } if workspace_name == "ws")));
}

#[test]
fn duplicate_running_implementers_are_not_started_again() {
    let mut state = make_state(make_config(2, alice()), vec![], vec![], vec![]);
    state.main_head = "abc".into();
    for (session_id, workspace_name) in [("one", "grindbot-one"), ("two", "grindbot-two")] {
        let mut imp = implementer(42, workspace_name, ImplementerStatus::Running);
        imp.session_id = session_id.into();
        state.implementers.push(imp);
    }
    assert!(plan(&state).iter().all(|action| !matches!(action, Action::StartImplementer { .. })));
}

#[test]
fn duplicate_running_implementers_same_workspace_are_not_started_again() {
    let mut state = make_state(make_config(1, alice()), vec![], vec![], vec![]);
    state.main_head = "00a00a0a".into();
    for (session_id, base_commit) in [("00000aaa", "000000a0"), ("000000aa", "a00000a0")] {
        let mut imp = implementer(1, "grindbot-0", ImplementerStatus::Running);
        imp.session_id = session_id.into();
        imp.base_commit = base_commit.into();
        state.implementers.push(imp);
    }
    assert!(plan(&state).iter().all(|action| !matches!(action, Action::StartImplementer { .. })));
}

#[test]
fn idle_state_has_exactly_one_noop() {
    let mut config = Config::default();
    config.github.allowlist = vec!["alice".into()];
    let state = make_state(config, vec![], vec![], vec![]);
    let actions = plan(&state);
    assert_eq!(actions.len(), 1);
    assert!(matches!(actions[0], Action::Noop));
}

#[test]
fn crashed_session_is_cleaned_exactly_once() {
    let ws = WorkspaceState {
        name: "grindbot-crashed".into(),
        path: "/tmp/grindbot-crashed".into(),
        task_issue: Some(77),
        session_id: Some("dead".into()),
        daemon_alive: false,
        has_result_file: false,
    };
    let actions = plan(&make_state(make_config(2, alice()), vec![make_issue(1, "alice")], vec![], vec![ws]));
    assert_eq!(
        actions
            .iter()
            .filter(|a| matches!(a, Action::CleanupWorkspace { workspace_name, reason: CleanupReason::SessionCrashed } if workspace_name == "grindbot-crashed"))
            .count(),
        1
    );
}

#[test]
fn active_counts() {
    let state = make_state(
        make_config(2, alice()),
        vec![],
        vec![
            implementer(1, "a", ImplementerStatus::Running),
            implementer(2, "b", ImplementerStatus::Crashed),
            implementer(3, "c", ImplementerStatus::Running),
        ],
        vec![],
    );
    assert_eq!(state.active_count(), 2);
    assert_eq!(state.active_issues(), vec![1, 3]);
}

#[test]
fn needs_feedback_handled_once_beside_other_implementers_of_the_issue() {
    let feedback = implementer(
        1,
        "grindbot-1",
        ImplementerStatus::Finished(ImplementerResult::NeedsFeedback { message: "which API?".to_string() }),
    );
    let running = implementer(1, "grindbot-1b", ImplementerStatus::Running);
    let crashed = implementer(1, "grindbot-1c", ImplementerStatus::Crashed);
    let ws = WorkspaceState {
        name: "grindbot-1".to_string(),
        path: "/tmp/grindbot-1".to_string(),
        task_issue: Some(1),
        session_id: None,
        daemon_alive: false,
        has_result_file: true,
    };
    let actions = plan(&make_state(make_config(4, alice()), vec![], vec![running, feedback, crashed], vec![ws]));
    let comments: Vec<&Action> = actions.iter().filter(|a| matches!(a, Action::PostComment { issue_number: 1, .. })).collect();
    assert_eq!(comments.len(), 1);
    assert!(matches!(comments[0], Action::PostComment { body, .. } if body == "<!-- grindbot -->\n\n**Needs feedback:**\n\nwhich API?"));
    let cleanups: Vec<&Action> = actions
        .iter()
        .filter(|a| matches!(a, Action::CleanupWorkspace { workspace_name, .. } if workspace_name == "grindbot-1"))
        .collect();
    assert_eq!(cleanups.len(), 1);
    assert!(matches!(cleanups[0], Action::CleanupWorkspace { reason: CleanupReason::SessionFinished, .. }));
}

#[test]
fn test_orphaned_workspace_cleanup_via_planner() {
    let config = Config {
        github: GithubConfig { owner: "test".to_string(), repo: "test".to_string(), allowlist: vec!["alice".to_string()] },
        supervisor: SupervisorConfig {
            max_parallelism: 2,
            poll_interval_secs: 1,
            base_branch: "main".to_string(),
            ..Config::default().supervisor
        },
        ..Config::default()
    };
    let ws = WorkspaceState {
        name: "grindbot-99".to_string(),
        path: "/tmp/grindbot-99".to_string(),
        task_issue: None,
        session_id: None,
        daemon_alive: false,
        has_result_file: false,
    };
    let state = SupervisorState {
        config,
        issues: vec![],
        implementers: vec![],
        workspaces: vec![ws],
        main_head: "abc".to_string(),
        completed_issues: vec![],
    };
    let actions = plan(&state);
    assert!(actions.iter().any(|a| matches!(a, Action::CleanupWorkspace { reason: CleanupReason::OrphanedWorkspace, .. })));
}
