use grindbot::config::{Config, GithubConfig};
use grindbot::state_file::{ActiveImplementer, CompletedTask, ConflictRetry, NeedsFeedbackTask, StateFile};

fn active(issue: u64, workspace: &str) -> ActiveImplementer {
    ActiveImplementer {
        issue_number: issue,
        session_id: format!("sess-{issue}"),
        workspace_name: workspace.to_string(),
        workspace_path: format!("/tmp/{workspace}"),
        base_commit: "abc".to_string(),
        started_at: "2024-01-01T00:00:00Z".to_string(),
        port: 12345,
        bearer_token: "test-token".to_string(),
        credential_file: "/tmp/cred.json".to_string(),
    }
}

#[test]
fn test_conflict_retry_tracking() {
    let mut state = StateFile::default();
    assert_eq!(state.conflict_retry_count(42), 0);
    assert_eq!(state.increment_conflict_retry(42), 1);
    assert_eq!(state.increment_conflict_retry(42), 2);
    assert_eq!(state.conflict_retry_count(42), 2);
    state.reset_conflict_retry(42);
    assert_eq!(state.conflict_retry_count(42), 0);
}

#[test]
fn test_load_missing_file_returns_default() {
    let state = StateFile::from_loaded(None);
    assert_eq!(state.version, 1);
    assert!(state.active_implementers.is_empty());
}

#[test]
fn test_version_mismatch_resets() {
    let mut old = StateFile::default();
    old.version = 99;
    old.add_implementer(active(1, "grindbot-1"));
    let state = StateFile::from_loaded(Some(old));
    assert_eq!(state.version, 1);
    assert!(state.active_implementers.is_empty());
}

#[test]
fn current_version_is_kept() {
    let mut s = StateFile::default();
    s.add_implementer(active(7, "grindbot-7"));
    let kept = StateFile::from_loaded(Some(s));
    assert_eq!(kept.active_implementers.len(), 1);
    assert_eq!(kept.active_implementers[0].issue_number, 7);
}

#[test]
fn test_state_file_path_per_repo() {
    let config_a = Config {
        github: GithubConfig { owner: "alice".to_string(), repo: "project-a".to_string(), allowlist: vec![] },
        ..Config::default()
    };
    let config_b = Config {
        github: GithubConfig { owner: "alice".to_string(), repo: "project-b".to_string(), allowlist: vec![] },
        ..Config::default()
    };
    let path_a = StateFile::default_path(&config_a, Some("/tmp/test-home"));
    let path_b = StateFile::default_path(&config_b, Some("/tmp/test-home"));
    assert!(path_a.ends_with("alice/project-a/state.json"), "path_a was: {:?}", path_a);
    assert!(path_b.ends_with("alice/project-b/state.json"), "path_b was: {:?}", path_b);
    assert_ne!(path_a, path_b);
    assert_eq!(path_a, "/tmp/test-home/.local/share/grindbot/alice/project-a/state.json");
}

#[test]
fn state_path_without_home_is_relative() {
    let config = Config {
        github: GithubConfig { owner: "o".to_string(), repo: "r".to_string(), allowlist: vec![] },
        ..Config::default()
    };
    assert_eq!(StateFile::default_path(&config, None), "./.local/share/grindbot/o/r/state.json");
}

#[test]
fn add_implementer_replaces_same_issue() {
    let mut s = StateFile::default();
    s.add_implementer(active(1, "grindbot-1"));
    s.add_implementer(active(2, "grindbot-2"));
    s.add_implementer(active(1, "grindbot-1b"));
    assert_eq!(s.active_implementers.len(), 2);
    assert_eq!(s.active_implementers[0].issue_number, 2);
    assert_eq!(s.active_implementers[1].workspace_name, "grindbot-1b");
    assert_eq!(s.active_issues(), vec![2, 1]);
}

#[test]
fn remove_implementer_by_workspace() {
    let mut s = StateFile::default();
    s.add_implementer(active(1, "grindbot-1"));
    s.add_implementer(active(2, "grindbot-2"));
    s.remove_implementer("grindbot-1");
    assert_eq!(s.active_issues(), vec![2]);
    s.remove_implementer("missing");
    assert_eq!(s.active_issues(), vec![2]);
}

#[test]
fn completed_recorded_once_per_issue() {
    let mut s = StateFile::default();
    s.add_completed(CompletedTask { issue_number: 40, commit: "a".into(), completed_at: "t1".into() });
    s.add_completed(CompletedTask { issue_number: 41, commit: "b".into(), completed_at: "t2".into() });
    s.add_completed(CompletedTask { issue_number: 40, commit: "c".into(), completed_at: "t3".into() });
    assert_eq!(s.completed_issues(), vec![41, 40]);
    assert_eq!(s.completed_tasks[1].commit, "c");
}

#[test]
fn needs_feedback_replaces_same_issue() {
    let mut s = StateFile::default();
    s.add_needs_feedback(NeedsFeedbackTask { issue_number: 5, message: "one".into(), timestamp: "t".into() });
    s.add_needs_feedback(NeedsFeedbackTask { issue_number: 5, message: "two".into(), timestamp: "t".into() });
    assert_eq!(s.needs_feedback.len(), 1);
    assert_eq!(s.needs_feedback[0].message, "two");
}

#[test]
fn retry_counters_are_per_issue() {
    let mut s = StateFile::default();
    s.conflict_retries.push(ConflictRetry { issue_number: 9, count: 2 });
    assert_eq!(s.increment_conflict_retry(9), 3);
    assert_eq!(s.increment_conflict_retry(10), 1);
    assert_eq!(s.conflict_retry_count(9), 3);
    s.reset_conflict_retry(9);
    assert_eq!(s.conflict_retry_count(9), 0);
    assert_eq!(s.conflict_retry_count(10), 1);
}

#[test]
fn test_state_file_conflict_retry_limit() {
    let mut state = StateFile::default();

    assert_eq!(state.increment_conflict_retry(42), 1);
    assert_eq!(state.increment_conflict_retry(42), 2);
    assert_eq!(state.increment_conflict_retry(42), 3);

    assert_eq!(state.conflict_retry_count(42), 3);

    state.reset_conflict_retry(42);
    assert_eq!(state.conflict_retry_count(42), 0);
}

#[test]
fn retry_counters_stay_one_per_issue_and_reset_leaves_others() {
    let mut state = StateFile::default();
    state.increment_conflict_retry(1);
    state.increment_conflict_retry(2);
    state.increment_conflict_retry(1);
    state.increment_conflict_retry(2);
    state.increment_conflict_retry(2);
    assert_eq!(state.conflict_retries.len(), 2);
    state.reset_conflict_retry(1);
    assert_eq!(state.conflict_retry_count(1), 0);
    assert_eq!(state.conflict_retry_count(2), 3);
    assert_eq!(state.increment_conflict_retry(1), 1);
}
