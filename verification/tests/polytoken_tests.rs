use grindbot::io::polytoken::{
    parse_session_output, session_from_json_members, session_from_lowered_lines, JsonField, SessionParseError,
};

#[test]
fn test_parse_session_output_key_value() {
    let stdout = "Session ID: abc123def456\nPort: 8080\n";
    let (id, port) = parse_session_output(stdout).unwrap();
    assert_eq!(id, "abc123def456");
    assert_eq!(port, 8080);
}

#[test]
fn test_parse_session_output_json() {
    let stdout = r#"{"session_id":"abc123","port":9090}"#;
    let (id, port) = parse_session_output(stdout).unwrap();
    assert_eq!(id, "abc123");
    assert_eq!(port, 9090);
}

#[test]
fn test_parse_session_output_error_includes_raw() {
    let stdout = "garbage output with no session info\nrandom text\n";
    let err = parse_session_output(stdout).unwrap_err().message();
    assert!(err.contains(stdout), "error should contain raw output; got: {err}");
}

#[test]
fn test_parse_session_output_json_error_includes_raw() {
    let stdout = r#"{"foo":"bar"}"#;
    let err = parse_session_output(stdout).unwrap_err().message();
    assert!(err.contains(stdout), "error should contain raw output; got: {err}");
}

#[test]
fn test_parse_session_output_equals_format() {
    let stdout = "session_id=05z7gk-gush port=49633\n";
    let (id, port) = parse_session_output(stdout).unwrap();
    assert_eq!(id, "05z7gk-gush");
    assert_eq!(port, 49633);
}

#[test]
fn test_parse_session_output_equals_format_on_one_line() {
    let stdout = "session_id=abc123 port=8080\n";
    let (id, port) = parse_session_output(stdout).unwrap();
    assert_eq!(id, "abc123");
    assert_eq!(port, 8080);
}

#[test]
fn json_id_member_is_a_fallback() {
    let (id, port) = parse_session_output(r#"{"id":"x1","port":1}"#).unwrap();
    assert_eq!((id.as_str(), port), ("x1", 1));
}

#[test]
fn json_port_wraps_to_sixteen_bits() {
    let (_, port) = parse_session_output(r#"{"session_id":"a","port":65537}"#).unwrap();
    assert_eq!(port, 1);
}

#[test]
fn json_errors_are_specific() {
    assert!(matches!(
        parse_session_output(r#"{"session_id":5,"port":1}"#),
        Err(SessionParseError::JsonWithoutSessionId { .. })
    ));
    assert!(matches!(
        parse_session_output(r#"{"session_id":"a","port":"1"}"#),
        Err(SessionParseError::JsonWithoutPort { .. })
    ));
    let e = parse_session_output(r#"{"session_id":"a"}"#).unwrap_err();
    assert_eq!(e.message(), r#"could not find port in JSON output: {"session_id":"a"}"#);
}

#[test]
fn text_lines_later_findings_win_and_bad_ports_are_skipped() {
    let (id, port) = parse_session_output("  SESSION: First \nport: 99999\nport: 12\nsession id: second\n").unwrap();
    assert_eq!((id.as_str(), port), ("second", 12));
    assert!(matches!(parse_session_output("session: only\n"), Err(SessionParseError::Unrecognized { .. })));
    let e = parse_session_output("nothing").unwrap_err();
    assert_eq!(e.message(), "could not parse session ID and port from polytoken output: nothing");
}

#[test]
fn json_members_decide_the_session() {
    let out = "{}";
    let ok = session_from_json_members(JsonField::Str("s1".into()), JsonField::Absent, JsonField::UInt(70000), out).unwrap();
    assert_eq!(ok, ("s1".to_string(), 4464));
    let by_id = session_from_json_members(JsonField::Absent, JsonField::Str("s2".into()), JsonField::UInt(9), out).unwrap();
    assert_eq!(by_id, ("s2".to_string(), 9));
    assert!(matches!(
        session_from_json_members(JsonField::UInt(3), JsonField::Str("s2".into()), JsonField::UInt(9), out),
        Err(SessionParseError::JsonWithoutSessionId { .. })
    ));
    match session_from_json_members(JsonField::Str("s".into()), JsonField::Absent, JsonField::Str("80".into()), out) {
        Err(SessionParseError::JsonWithoutPort { output }) => assert_eq!(output, "{}"),
        other => panic!("unexpected {other:?}"),
    }
}

#[test]
fn lowered_lines_decide_the_session() {
    let lines = vec!["session id: abc".to_string(), "noise".to_string(), "port: 81".to_string()];
    assert_eq!(session_from_lowered_lines(&lines, "raw").unwrap(), ("abc".to_string(), 81));
    let tokens = vec!["x session_id=q port=7".to_string(), "port: nope".to_string()];
    assert_eq!(session_from_lowered_lines(&tokens, "raw").unwrap(), ("q".to_string(), 7));
    match session_from_lowered_lines(&vec!["session: a".to_string()], "raw") {
        Err(SessionParseError::Unrecognized { output }) => assert_eq!(output, "raw"),
        other => panic!("unexpected {other:?}"),
    }
}
