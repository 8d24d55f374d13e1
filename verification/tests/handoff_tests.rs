use grindbot::handoff::{
    ahead_revset, commit_is_ahead, done_result, evidence_from_args, feedback_message, handoff_paths,
    needs_feedback_result, parse_pair, FeedbackMessageError, HandoffError,
};
use grindbot::kernel::state::HandoffResult;

fn strings(v: &[&str]) -> Vec<String> {
    v.iter().map(|s| s.to_string()).collect()
}

#[test]
fn pairs_split_at_first_equals() {
    assert_eq!(parse_pair("cargo test=passed"), Some(("cargo test".to_string(), "passed".to_string())));
    assert_eq!(parse_pair("a=b=c"), Some(("a".to_string(), "b=c".to_string())));
    assert_eq!(parse_pair("=x"), Some(("".to_string(), "x".to_string())));
    assert_eq!(parse_pair("none"), None);
}

#[test]
fn complete_evidence_is_accepted() {
    let e = evidence_from_args("accepted", "accepted", &strings(&["cargo test=passed"]), &strings(&["AC.1=verified"]), false).unwrap();
    assert_eq!(e.tests.len(), 1);
    assert_eq!(e.tests[0].name, "cargo test");
    assert_eq!(e.acceptance_mapping[0].verification, "verified");
}

#[test]
fn incomplete_evidence_is_refused() {
    let t = strings(&["t=passed"]);
    let a = strings(&["AC=ok"]);
    assert_eq!(evidence_from_args(" ", "ok", &t, &a, false).unwrap_err(), HandoffError::Incomplete);
    assert_eq!(evidence_from_args("ok", "ok", &strings(&["t=failed"]), &a, false).unwrap_err(), HandoffError::Incomplete);
    assert_eq!(evidence_from_args("ok", "ok", &t, &a, true).unwrap_err(), HandoffError::Incomplete);
    assert_eq!(evidence_from_args("ok", "ok", &vec![], &a, false).unwrap_err(), HandoffError::Incomplete);
    assert_eq!(evidence_from_args("ok", "ok", &strings(&["bad"]), &a, false).unwrap_err(), HandoffError::MalformedTest);
    assert_eq!(evidence_from_args("ok", "ok", &t, &strings(&["bad"]), false).unwrap_err(), HandoffError::MalformedAcceptance);
}

#[test]
fn results_and_paths() {
    let e = evidence_from_args("p", "i", &strings(&["t= passed "]), &strings(&["a=b"]), false).unwrap();
    match done_result("c0ffee", "2024-01-01T00:00:00Z", Some(3), "sum", e) {
        HandoffResult::Done { manifest_version, commit, issue, .. } => {
            assert_eq!((manifest_version, commit.as_str(), issue), (1, "c0ffee", Some(3)));
        },
        _ => panic!("expected done"),
    }
    assert!(matches!(needs_feedback_result("m", "t"), HandoffResult::NeedsFeedback { .. }));
    let (dir, counter, result) = handoff_paths("/ws");
    assert_eq!(dir, "/ws/.grindbot");
    assert_eq!(counter, "/ws/.grindbot/stop_counter");
    assert_eq!(result, "/ws/.grindbot/result.json");
    assert_eq!(ahead_revset("b", "c"), "b::c ~ b");
    assert!(commit_is_ahead(true, "abc\n"));
    assert!(!commit_is_ahead(true, " \n"));
    assert!(!commit_is_ahead(false, "abc"));
}

#[test]
fn feedback_message_sources() {
    assert_eq!(feedback_message(Some("  from file \n"), Some("ignored")).unwrap(), "from file");
    assert_eq!(feedback_message(None, Some("msg")).unwrap(), "msg");
    assert_eq!(feedback_message(None, None).unwrap_err(), FeedbackMessageError::NoMessage);
}
