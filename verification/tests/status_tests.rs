use grindbot::config::{Config, GithubConfig};
use grindbot::state_file::{ActiveImplementer, CompletedTask, ConflictRetry, NeedsFeedbackTask, StateFile};
use grindbot::status::{build_status_output, try_build_status_output};

fn make_config() -> Config {
    Config {
        github: GithubConfig { owner: "test".to_string(), repo: "repo".to_string(), allowlist: vec!["alice".to_string()] },
        ..Config::default()
    }
}

const NOW: (i64, u32) = (1_705_000_000, 0);

#[test]
fn test_status_output_with_mocks() {
    let config = make_config();
    let mut state_file = StateFile::default();
    state_file.active_implementers.push(ActiveImplementer {
        issue_number: 42,
        session_id: "sess-abc".to_string(),
        workspace_name: "grindbot-42".to_string(),
        workspace_path: "/tmp/ws42".to_string(),
        base_commit: "abc".to_string(),
        started_at: "2024-01-15T12:30:00Z".to_string(),
        port: 12345,
        bearer_token: "tok".to_string(),
        credential_file: "/tmp/cred.json".to_string(),
    });
    state_file.completed_tasks.push(CompletedTask {
        issue_number: 40,
        commit: "def".to_string(),
        completed_at: "2024-01-10T00:00:00Z".to_string(),
    });
    state_file.needs_feedback.push(NeedsFeedbackTask {
        issue_number: 44,
        message: "Need more info".to_string(),
        timestamp: "2024-01-12T00:00:00Z".to_string(),
    });
    state_file.conflict_retries.push(ConflictRetry { issue_number: 43, count: 2 });

    let output = build_status_output(&config, &state_file, &vec![true], NOW);

    assert!(output.contains("Grindbot Status — test/repo"));
    assert!(output.contains("Active Implementers (1):"));
    assert!(output.contains("#42"));
    assert!(output.contains("sess-abc"));
    assert!(output.contains("running"));
    assert!(output.contains("Completed (1): #40"));
    assert!(output.contains("Needs Feedback (1):"));
    assert!(output.contains("#44: Need more info"));
    assert!(output.contains("Conflict Retries:"));
    assert!(output.contains("#43: 2/3"));
    assert!(output.contains("  #42  grindbot-42  session: sess-abc  ● running  started: 2024-01-15 12:30 UTC"));
}

#[test]
fn test_status_empty_state() {
    let output = build_status_output(&make_config(), &StateFile::default(), &vec![], NOW);
    assert!(output.contains("Active Implementers: (none)"));
    assert!(output.contains("Completed: (none)"));
    assert!(!output.contains("Needs Feedback"));
    assert!(!output.contains("Conflict Retries"));
    assert_eq!(output, "Grindbot Status — test/repo\n\nActive Implementers: (none)\n\nCompleted: (none)");
}

#[test]
fn dead_sessions_and_lists() {
    let mut sf = StateFile::default();
    sf.active_implementers.push(ActiveImplementer {
        issue_number: 1,
        session_id: "s".to_string(),
        workspace_name: "w".to_string(),
        workspace_path: "/w".to_string(),
        base_commit: "b".to_string(),
        started_at: "not a time".to_string(),
        port: 0,
        bearer_token: String::new(),
        credential_file: String::new(),
    });
    for n in [3, 4, 5] {
        sf.completed_tasks.push(CompletedTask { issue_number: n, commit: "c".into(), completed_at: "t".into() });
    }
    let out = try_build_status_output(&make_config(), &sf, &vec![], NOW).unwrap();
    assert!(out.contains("  #1  w  session: s  ○ dead  started: 2024-01-11 19:06 UTC"));
    assert!(out.contains("Completed (3): #3, #4, #5"));
}
