use grindbot::config::Config;
use grindbot::io::github::is_supervisor_comment;
use grindbot::io::SessionInfo;
use grindbot::kernel::actions::Action;
use grindbot::kernel::planner::{needs_feedback_comment, plan};
use grindbot::kernel::state::Issue;
use grindbot::merge_flow::{MergeCommand, MergeEvent, MergeFlow, PERSISTENT_CONFLICT_COMMENT};
use grindbot::state_file::{ActiveImplementer, StateFile};
use grindbot::supervisor::{assemble_state, github_url, implementer_goal, reconstruct_session_info, started_implementer};
use grindbot::workspace::{workspace_path, workspace_setup_plan};

fn flow_comment(flow: &MergeFlow) -> String {
    match flow.command() {
        MergeCommand::PostComment { body, .. } => body,
        other => panic!("unexpected {other:?}"),
    }
}

#[test]
fn supervisor_comments_carry_the_marker() {
    assert!(is_supervisor_comment(PERSISTENT_CONFLICT_COMMENT));
    assert!(is_supervisor_comment(&needs_feedback_comment(&"please clarify".to_string())));
    let config = Config::default();
    let mut sf = StateFile::default();
    let mut flow = MergeFlow::merge(&config, &sf, "grindbot-1", "abc", "base", 1);
    flow.step(&mut sf, MergeEvent::Rebased { conflict: false }, "t");
    flow.step(&mut sf, MergeEvent::Completed, "t");
    flow.step(&mut sf, MergeEvent::Completed, "t");
    assert!(is_supervisor_comment(&flow_comment(&flow)));
}

#[test]
fn merged_issue_is_not_started_again() {
    let mut config = Config::default();
    config.github.allowlist = vec!["alice".to_string()];
    let mut sf = StateFile::default();
    let mut flow = MergeFlow::merge(&config, &sf, "grindbot-7", "abc", "base", 7);
    flow.step(&mut sf, MergeEvent::Rebased { conflict: false }, "t");
    flow.step(&mut sf, MergeEvent::Completed, "t");
    flow.step(&mut sf, MergeEvent::Completed, "t");
    flow.step(&mut sf, MergeEvent::Completed, "t");
    assert!(matches!(flow.command(), MergeCommand::Finish));
    let issue = Issue {
        number: 7,
        title: "t".into(),
        body: "b".into(),
        author: "alice".into(),
        created_at: 0,
        updated_at: 0,
        comments: vec![],
    };
    let state = assemble_state(&config, vec![issue], vec![], vec![], "main".into(), &sf);
    assert!(plan(&state).iter().all(|a| !matches!(a, Action::StartImplementer { .. })));
}

#[test]
fn setup_path_is_workspace_path() {
    let config = Config::default();
    let (ws, ops) = workspace_setup_plan(&config, "/repo", 12, "base");
    assert_eq!(ws, workspace_path(&config, "/repo", 12));
    assert_eq!(ops.len(), 5);
}

#[test]
fn started_sessions_are_reached_again() {
    let session = SessionInfo {
        session_id: "s-1".into(),
        port: 4242,
        credential_file: "/c.json".into(),
        bearer_token: "tok".into(),
    };
    let a: ActiveImplementer = started_implementer(3, &session, "grindbot-3", "/w/grindbot-3", "base", "2024-01-01T00:00:00Z");
    let back = reconstruct_session_info(&a);
    assert_eq!((back.session_id.as_str(), back.port, back.bearer_token.as_str(), back.credential_file.as_str()), ("s-1", 4242, "tok", "/c.json"));
    assert_eq!(implementer_goal(3), "Implement issue #3");
    let mut config = Config::default();
    config.github.owner = "o".into();
    config.github.repo = "r".into();
    assert_eq!(github_url(&config), "https://github.com/o/r");
}

#[test]
fn crashed_task_is_started_again_after_cleanup() {
    let mut config = Config::default();
    config.github.allowlist = vec!["alice".to_string()];
    let mut sf = StateFile::default();
    let session = SessionInfo { session_id: "s".into(), port: 1, credential_file: "c".into(), bearer_token: "t".into() };
    sf.add_implementer(started_implementer(5, &session, "grindbot-5", "/w/grindbot-5", "base", "2024-01-01T00:00:00Z"));
    sf.remove_implementer("grindbot-5");
    assert!(sf.active_issues().is_empty());
    let issue = Issue {
        number: 5,
        title: "t".into(),
        body: "b".into(),
        author: "alice".into(),
        created_at: 0,
        updated_at: 0,
        comments: vec![],
    };
    let state = assemble_state(&config, vec![issue], vec![], vec![], "main".into(), &sf);
    assert!(plan(&state).iter().any(|a| matches!(a, Action::StartImplementer { issue, .. } if issue.number == 5)));
}
