use grindbot::io::github::{comment_from_gh, is_supervisor_comment, issue_from_gh, parse_gh_datetime, wants_comments, GhIssueError};

#[test]
fn supervisor_comments_are_recognised() {
    assert!(is_supervisor_comment("<!-- grindbot -->\n\nDone"));
    assert!(is_supervisor_comment("  \n<!-- grindbot --> x"));
    assert!(!is_supervisor_comment("thanks <!-- grindbot -->"));
}

#[test]
fn gh_datetimes_parse() {
    assert_eq!(parse_gh_datetime("2024-01-15T12:30:00Z"), Some(1_705_321_800_000_000_000));
    assert_eq!(parse_gh_datetime("yesterday"), None);
}

#[test]
fn gh_values_become_issues_and_comments() {
    let c = comment_from_gh("alice".into(), "<!-- grindbot -->hi".into(), "bad", 5);
    assert!(c.is_supervisor);
    assert_eq!(c.created_at, 5);
    let i = issue_from_gh(1, "Fix".into(), "Details".into(), "TimoFreiberg".into(), "2024-01-15T12:30:00Z", "2024-01-15T12:30:00Z").unwrap();
    assert_eq!(i.author, "TimoFreiberg");
    assert_eq!(i.created_at, 1_705_321_800_000_000_000);
    assert!(i.comments.is_empty());
    assert_eq!(
        issue_from_gh(1, "t".into(), "b".into(), "a".into(), "2024-01-15T12:30:00Z", "nope").unwrap_err(),
        GhIssueError::BadUpdatedAt
    );
    assert!(wants_comments(&vec!["bob".to_string(), "alice".to_string()], "alice"));
    assert!(!wants_comments(&vec![], "alice"));
}
