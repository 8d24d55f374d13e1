use grindbot::doctor::{first_line_of, has_runtime_ignore, ignore_diagnostic, ignores_covered, WorkspaceIgnoreDiagnostic};

#[test]
fn accepted_runtime_ignore_forms_are_exact() {
    for contents in [".grindbot\n.polytoken/\n", "/.grindbot/\n/.polytoken\n"] {
        assert!(has_runtime_ignore(contents, ".grindbot"));
        assert!(has_runtime_ignore(contents, ".polytoken"));
    }
    assert!(!has_runtime_ignore("*\n", ".grindbot"));
    assert!(!has_runtime_ignore(".grindbot-cache/\n", ".grindbot"));
}

#[test]
fn ignore_lines_are_trimmed() {
    assert!(has_runtime_ignore("  .grindbot/  \r\n", ".grindbot"));
    assert!(!has_runtime_ignore("//.grindbot\n", ".grindbot"));
    assert!(!has_runtime_ignore("", ".grindbot"));
}

#[test]
fn ignore_diagnostic_is_advisory_not_a_fatal_check() {
    let d = ignore_diagnostic(Some(vec![("workspaces/grindbot-1".to_string(), String::new())]));
    assert!(matches!(d, WorkspaceIgnoreDiagnostic::Warning { .. }));
}

#[test]
fn ignore_diagnostic_cases() {
    assert!(matches!(ignore_diagnostic(None), WorkspaceIgnoreDiagnostic::Skipped));
    assert!(matches!(ignore_diagnostic(Some(vec![])), WorkspaceIgnoreDiagnostic::Clean));
    let d = ignore_diagnostic(Some(vec![
        ("a".to_string(), ".grindbot/\n.polytoken/\n".to_string()),
        ("b".to_string(), ".grindbot/\n".to_string()),
        ("c".to_string(), "".to_string()),
    ]));
    match d {
        WorkspaceIgnoreDiagnostic::Warning { workspaces } => assert_eq!(workspaces, vec!["b".to_string(), "c".to_string()]),
        _ => panic!("expected a warning"),
    }
    assert!(ignores_covered("/.grindbot\n.polytoken\n"));
}

#[test]
fn first_line_is_trimmed() {
    assert_eq!(first_line_of("jj 0.20.0  \nmore\n"), "jj 0.20.0");
    assert_eq!(first_line_of(""), "");
    assert_eq!(first_line_of("\nsecond"), "");
}
