use grindbot::kernel::state::{Comment, Issue};
use grindbot::prompt::{build_prompt, comment_entry_text, hooks_json, hooks_json_always_stop, try_build_prompt, PROMPT_TEMPLATE, STOP_HOOK_ALWAYS_STOP};

const JAN_1_2024: i128 = 1_704_067_200_000_000_000;
const MINUTE: i128 = 60_000_000_000;

fn issue(comments: Vec<Comment>) -> Issue {
    Issue {
        number: 42,
        title: "Fix the parser".to_string(),
        body: "It breaks on {url} and {grindbot_path}".to_string(),
        author: "alice".to_string(),
        created_at: JAN_1_2024,
        updated_at: JAN_1_2024,
        comments,
    }
}

fn comment(author: &str, body: &str, minutes: i128) -> Comment {
    Comment { author: author.to_string(), body: body.to_string(), created_at: JAN_1_2024 + minutes * MINUTE, is_supervisor: false }
}

#[test]
fn hooks_json_embeds_the_script_as_json() {
    let h = hooks_json("echo \"hi\"\n");
    assert_eq!(
        h,
        "[\n  {\n    \"name\": \"grindbot-gate\",\n    \"event\": \"stop\",\n    \"handler\": {\n      \"bash\": \"echo \\\"hi\\\"\\n\"\n    }\n  }\n]"
    );
}

#[test]
fn always_stop_hook_never_continues() {
    let h = hooks_json_always_stop();
    assert!(h.contains("grindbot-gate"));
    assert!(!h.contains("continue"));
    assert_eq!(h, hooks_json(STOP_HOOK_ALWAYS_STOP));
}

#[test]
fn prompt_without_comments() {
    let p = build_prompt(&issue(vec![]), "https://github.com/o/r", "/usr/bin/grindbot");
    assert!(p.starts_with("You are implementing GitHub issue #42: Fix the parser\n\nIssue URL: https://github.com/o/r\n"));
    // placeholders are replaced one after the other: a later one inside the body is
    // replaced too, an earlier one is not
    assert!(p.contains("It breaks on {url} and /usr/bin/grindbot"));
    assert!(!p.contains("Recent Comments"));
    assert!(p.contains("    /usr/bin/grindbot handoff needs-feedback --message"));
    assert!(!p.contains("{grindbot_path}"));
}

#[test]
fn prompt_with_recent_comments() {
    let comments: Vec<Comment> = (0..7).map(|i| comment(&format!("user{i}"), &format!("line a\nline b {i}"), i)).collect();
    let p = build_prompt(&issue(comments), "u", "g");
    assert!(p.contains("## Recent Comments\n\n**user2** (2024-01-01 00:02 UTC):\n> line a\n> line b 2\n\n"));
    assert!(p.contains("**user6** (2024-01-01 00:06 UTC):\n> line a\n> line b 6\n\n"));
    assert!(!p.contains("**user1**"));
    let pos2 = p.find("**user2**").unwrap();
    let pos6 = p.find("**user6**").unwrap();
    assert!(pos2 < pos6);
}

#[test]
fn prompt_time_out_of_range_is_refused() {
    let c = Comment { author: "x".into(), body: "y".into(), created_at: i128::MAX, is_supervisor: false };
    assert!(try_build_prompt(&issue(vec![c]), "u", "g").is_none());
    assert!(try_build_prompt(&issue(vec![]), "u", "g").is_some());
}

#[test]
fn template_has_every_placeholder() {
    for p in ["{number}", "{title}", "{url}", "{body}", "{recent_comments_section}", "{grindbot_path}"] {
        assert!(PROMPT_TEMPLATE.contains(p), "{p}");
    }
}

#[test]
fn comment_entry_quotes_every_line() {
    let c = Comment { author: "bob".to_string(), body: "one\ntwo".to_string(), created_at: 0, is_supervisor: false };
    assert_eq!(comment_entry_text(&c, "2024-01-01 00:00 UTC"), "**bob** (2024-01-01 00:00 UTC):\n> one\n> two\n\n");
}
