use grindbot::io::jj::{conflicted_files, parse_log, reports_conflict, workspace_names, RealJjClient};

#[test]
fn workspace_list_names() {
    let out = "default: sqpuoqvx 2b9a4f1e (empty) (no description set)\n\ngrindbot-42: kkmpptxz 5d3c1b2a fix\n   \n";
    assert_eq!(workspace_names(out), vec!["default:".to_string(), "grindbot-42:".to_string()]);
    assert_eq!(workspace_names("grindbot-1 x\ngrindbot-2\n"), vec!["grindbot-1".to_string(), "grindbot-2".to_string()]);
    assert!(workspace_names("").is_empty());
}

#[test]
fn log_blocks_become_commits() {
    let text = "abc\n123\nFirst line\nsecond line\n---\ndef\n456\nOnly\n---\n";
    let commits = parse_log(text);
    assert_eq!(commits.len(), 2);
    assert_eq!(commits[0].change_id, "abc");
    assert_eq!(commits[0].commit_hash, "123");
    assert_eq!(commits[0].description, "First line\nsecond line");
    assert_eq!(commits[1].description, "Only");
    assert!(parse_log("a\nb\n---\n").is_empty());
}

#[test]
fn conflicts_are_detected() {
    assert!(reports_conflict("Error: rebase produced a conflict"));
    assert!(reports_conflict("Conflict in file"));
    assert!(!reports_conflict("CONFLICT"));
    assert_eq!(
        conflicted_files("M src/a.rs\nC src/b.rs (conflict)\nConflict: c\n"),
        vec!["C src/b.rs (conflict)".to_string(), "Conflict: c".to_string()]
    );
    assert_eq!(RealJjClient::new("/repo").repo_path, "/repo");
}
