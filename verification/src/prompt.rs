//! The texts handed to implementer sessions: the prompt, the stop hook and the
//! permission rules, and the hook configuration that installs the stop hook.

use vstd::prelude::*;
use crate::kernel::state::{Comment, CommentView, Issue, IssueView};
use crate::text::{
    append_str, chars_of, owned, push_all, replace_all, replace_chars, string_of,
    u64_to_string, decimal,
};

verus! {

/// The implementer prompt template. Placeholders: `{number}`, `{title}`, `{url}`,
/// `{body}`, `{recent_comments_section}`, `{grindbot_path}`.
pub const PROMPT_TEMPLATE: &'static str = r#"You are implementing GitHub issue #{number}: {title}

Issue URL: {url}

## Issue Description

{body}

{recent_comments_section}

## Instructions

You are running in an autonomous supervised session. Your work will be vetted
by subagents before it is accepted.

### 1. Investigate and plan

Investigate the issue and relevant codebase. Write a concrete implementation
plan. Run the existing plan-vetting workflow, fixing or rebutting findings
until it accepts the plan. Fix or rebut all findings and run it again until it
accepts the plan. When the plan is accepted, hand it off, which will start plan
execution.

### 2. Implement and test

Implement the accepted plan and add/update tests. Run the project checks. Then
run the implementation-vetting workflow of the repository, fixing or
rebutting findings until it accepts the result. Fix or rebut all findings and
run it again until it accepts the implementation. Commit your work using jj. The
existing skills/facets define how work is vetted; do not invent a new protocol.

### 3. Finish with structured evidence

Record an acceptance-criteria-to-test mapping and a test inventory/results in a
workspace-local JSON manifest (outside `.grindbot/`). Only after both vetting
stages accept, signal completion by running:

    {grindbot_path} handoff done --manifest <path>

The manifest must contain the approved outcome, commit, accepted plan-vetting
and implementation-vetting evidence, tests, mapping, unresolved-findings status,
summary, and timestamp. No operator approval is required for a clean,
fully-vetted handoff; operator attention is for feedback requests or failures.
The commit must contain actual changes and be ahead of the recorded base.

### 4. Need Help?

`needs-feedback` is an intentional early exit. If you need more information from the issue author to proceed, run:

    {grindbot_path} handoff needs-feedback --message "<explanation>"

Do not write any code if you are requesting feedback. Explain clearly what
information you need and why, providing enough context for the issue author to
make a decision without reading the codebase.

### Important

- You MUST call one of the handoff commands to end your session.
- Your session will not end until you do.
- After 3 failed attempts to end without calling handoff, the session will
  be terminated and treated as a crash.
"#;

/// The stop hook that gates the end of an implementer session: it lets the session stop
/// once the result file exists, sends the agent back to work otherwise, and gives up
/// (lets it stop, which the supervisor treats as a crash) after 3 consecutive attempts.
pub const STOP_HOOK_SCRIPT: &'static str = r#"#!/bin/bash
set -e
PROJECT_DIR="$POLYTOKEN_PROJECT_DIR"
RESULT_FILE="$PROJECT_DIR/.grindbot/result.json"
COUNTER_FILE="$PROJECT_DIR/.grindbot/stop_counter"

# Result file exists → allow the session to stop.
if [ -f "$RESULT_FILE" ]; then
  echo '{"outcome":"stop"}'
  exit 0
fi

COUNT=$(cat "$COUNTER_FILE" 2>/dev/null || echo 0)
COUNT=$((COUNT + 1))
echo "$COUNT" > "$COUNTER_FILE"

# After 3 consecutive stops without a result file, allow stop (treated as crash).
if [ "$COUNT" -ge 3 ]; then
  rm -f "$COUNTER_FILE"
  echo '{"outcome":"stop"}'
  exit 0
fi

# No result file and under the counter limit → force the model back to work.
echo '{"outcome":"continue","reason":"You must call the handoff binary to end your session. Run grindbot handoff done --help for the required arguments, OR grindbot handoff needs-feedback --message <text>"}'
exit 0
"#;

/// The stop hook that always lets the session stop (conflict resolution agents).
pub const STOP_HOOK_ALWAYS_STOP: &'static str = r#"#!/bin/bash
echo '{"outcome":"stop"}'
exit 0
"#;

/// The permission rules of implementer workspaces.
pub const PERMISSIONS_YAML: &'static str = r#"version: 2
deny:
  - tool: shell_exec
    args: { executable: rm, flags_present: ["-rf"] }
  - tool: shell_exec
    args: { executable: rm, flags_present: ["-r", "-f"] }
  - tool: shell_exec
    args: { executable: rm, flags_present: ["-r"] }
  - tool: shell_exec
    args: { executable: rm, flags_present: ["--recursive"] }
  - tool: shell_exec
    args: { executable: git, subcommand: push }
  - tool: shell_exec
    args: { executable: jj, subcommand: git }
    message: "Use grindbot's merge flow instead of pushing directly."
  - tool: shell_exec
    args: { executable: jj, subcommand: abandon }
    message: "Do not abandon commits; let the supervisor manage workspace lifecycle."
filesystem:
  deny:
    - access: [write]
      path: .grindbot{,/**}
    - access: [write]
      path: .polytoken{,/**}
"#;

/// The time format of comment headers in the prompt.
pub const COMMENT_TIME_FORMAT: &'static str = "%Y-%m-%d %H:%M UTC";

/// `jiff::fmt::strtime::format(fmt, Timestamp::from_nanosecond(nanos))`: the UTC instant
/// `nanos` (nanoseconds since the epoch) written by the strftime-style format `fmt`;
/// `None` when the instant is outside jiff's range or the format fails.
pub uninterp spec fn strtime_formatted(fmt: Seq<char>, nanos: i128) -> Option<Seq<char>>;

/// Formats an instant with jiff's strftime. jiff's formatting rules are named, not written out.
#[verifier::external_body]
fn format_instant(fmt: &str, nanos: i128) -> (r: Option<String>)
    ensures
        match r {
            Some(s) => strtime_formatted(fmt@, nanos) == Some(s@),
            None => strtime_formatted(fmt@, nanos) is None,
        },
{
    let t = jiff::Timestamp::from_nanosecond(nanos).ok()?;
    jiff::fmt::strtime::format(fmt, t).ok()
}

/// `serde_json::to_string(s)` for a string `s`: its JSON string literal; `None` when
/// serialization fails.
pub uninterp spec fn json_encoded(s: Seq<char>) -> Option<Seq<char>>;

/// Encodes a string as a JSON string literal with serde_json. serde_json's escaping
/// rules are named, not written out.
#[verifier::external_body]
fn json_string(s: &str) -> (r: Option<String>)
    ensures
        match r {
            Some(x) => json_encoded(s@) == Some(x@),
            None => json_encoded(s@) is None,
        },
{
    serde_json::to_string(s).ok()
}

/// The hook configuration around an encoded script.
pub open spec fn hooks_text(encoded: Seq<char>) -> Seq<char> {
    "[\n  {\n    \"name\": \"grindbot-gate\",\n    \"event\": \"stop\",\n    \"handler\": {\n      \"bash\": "@
        + encoded + "\n    }\n  }\n]"@
}

/// The hook configuration that installs `script` as the stop hook; an empty script
/// when the script cannot be encoded.
pub open spec fn hooks_for(script: Seq<char>) -> Seq<char> {
    match json_encoded(script) {
        Some(e) => hooks_text(e),
        None => hooks_text("\"\""@),
    }
}

/// The `hooks.json` content that installs `stop_hook_script` as the stop hook.
pub fn hooks_json(stop_hook_script: &str) -> (r: String)
    ensures
        r@ == hooks_for(stop_hook_script@),
{
    let encoded = match json_string(stop_hook_script) {
        Some(e) => e,
        None => owned("\"\""),
    };
    let mut r = owned(
        "[\n  {\n    \"name\": \"grindbot-gate\",\n    \"event\": \"stop\",\n    \"handler\": {\n      \"bash\": ",
    );
    append_str(&mut r, encoded.as_str());
    append_str(&mut r, "\n    }\n  }\n]");
    r
}

/// The `hooks.json` content for conflict resolution agents: the always-stop hook.
pub fn hooks_json_always_stop() -> (r: String)
    ensures
        r@ == hooks_for(STOP_HOOK_ALWAYS_STOP@),
{
    hooks_json(STOP_HOOK_ALWAYS_STOP)
}

/// The prompt's entry for one comment, with its formatted time.
pub open spec fn comment_entry(c: CommentView, time: Seq<char>) -> Seq<char> {
    "**"@ + c.author + "** ("@ + time + "):\n> "@ + replace_all(c.body, "\n"@, "\n> "@) + "\n\n"@
}

/// The entries of the given comments, in order; `None` when a time cannot be formatted.
pub open spec fn comment_entries(cs: Seq<CommentView>) -> Option<Seq<char>>
    decreases cs.len(),
{
    if cs.len() == 0 {
        Some(Seq::empty())
    } else {
        match (comment_entries(cs.drop_last()), strtime_formatted(COMMENT_TIME_FORMAT@, cs.last().created_at)) {
            (Some(a), Some(t)) => Some(a + comment_entry(cs.last(), t)),
            _ => None,
        }
    }
}

/// The last (at most) five comments, oldest first.
pub open spec fn last_five(cs: Seq<CommentView>) -> Seq<CommentView> {
    if cs.len() <= 5 { cs } else { cs.skip(cs.len() - 5) }
}

/// The prompt's "Recent Comments" section: empty without comments, otherwise a heading
/// and the entries of the last five comments.
pub open spec fn recent_comments_section(cs: Seq<CommentView>) -> Option<Seq<char>> {
    if cs.len() == 0 {
        Some(Seq::empty())
    } else {
        match comment_entries(last_five(cs)) {
            Some(e) => Some("## Recent Comments\n\n"@ + e),
            None => None,
        }
    }
}

/// The prompt: the template with its placeholders replaced one after the other, in the
/// order number, title, url, body, recent comments, grindbot path.
pub open spec fn prompt_text(issue: IssueView, url: Seq<char>, grindbot_path: Seq<char>, recent: Seq<char>) -> Seq<char> {
    let t1 = replace_all(PROMPT_TEMPLATE@, "{number}"@, decimal(issue.number as nat));
    let t2 = replace_all(t1, "{title}"@, issue.title);
    let t3 = replace_all(t2, "{url}"@, url);
    let t4 = replace_all(t3, "{body}"@, issue.body);
    let t5 = replace_all(t4, "{recent_comments_section}"@, recent);
    replace_all(t5, "{grindbot_path}"@, grindbot_path)
}

proof fn lemma_entries_none_extends(cs: Seq<CommentView>, k: int)
    requires
        0 <= k <= cs.len(),
        comment_entries(cs.take(k)) is None,
    ensures
        comment_entries(cs) is None,
    decreases cs.len() - k,
{
    if k < cs.len() {
        assert(cs.drop_last().take(k) =~= cs.take(k));
        lemma_entries_none_extends(cs.drop_last(), k);
    } else {
        assert(cs.take(k) =~= cs);
    }
}

/// The prompt's entry for one comment, given its formatted time: the author in bold, the
/// time, and the body quoted line by line.
pub fn comment_entry_text(c: &Comment, time: &str) -> (r: String)
    ensures
        r@ == comment_entry(c@, time@),
{
    let nl = chars_of("\n");
    let quoted = chars_of("\n> ");
    proof {
        reveal_strlit("\n");
    }
    let mut out: Vec<char> = Vec::new();
    append_str_to_vec(&mut out, "**");
    push_all(&mut out, chars_of(c.author.as_str()).as_slice());
    append_str_to_vec(&mut out, "** (");
    push_all(&mut out, chars_of(time).as_slice());
    append_str_to_vec(&mut out, "):\n> ");
    let body = chars_of(c.body.as_str());
    let replaced = replace_chars(body.as_slice(), nl.as_slice(), quoted.as_slice());
    push_all(&mut out, replaced.as_slice());
    append_str_to_vec(&mut out, "\n\n");
    assert(out@ =~= comment_entry(c@, time@));
    string_of(out.as_slice())
}

fn comment_entries_exec(cs: &[Comment]) -> (r: Option<Vec<char>>)
    ensures
        match r {
            Some(v) => comment_entries(cs@.map_values(|c: Comment| c@)) == Some(v@),
            None => comment_entries(cs@.map_values(|c: Comment| c@)) is None,
        },
{
    let ghost views = cs@.map_values(|c: Comment| c@);
    let mut out: Vec<char> = Vec::new();
    let mut i: usize = 0;
    while i < cs.len()
        invariant
            i <= cs.len(),
            views == cs@.map_values(|c: Comment| c@),
            comment_entries(views.take(i as int)) == Some(out@),
        decreases cs.len() - i,
    {
        proof {
            assert(views.take(i + 1).drop_last() =~= views.take(i as int));
            assert(views.take(i + 1).last() == cs@[i as int]@);
        }
        let time = match format_instant(COMMENT_TIME_FORMAT, cs[i].created_at) {
            Some(t) => t,
            None => {
                proof {
                    lemma_entries_none_extends(views, i + 1);
                }
                return None;
            },
        };
        let entry = comment_entry_text(&cs[i], time.as_str());
        let ghost before = out@;
        push_all(&mut out, chars_of(entry.as_str()).as_slice());
        assert(out@ =~= before + comment_entry(cs@[i as int]@, time@));
        i = i + 1;
    }
    assert(views.take(i as int) =~= views);
    Some(out)
}

fn append_str_to_vec(v: &mut Vec<char>, s: &str)
    ensures
        final(v)@ == old(v)@ + s@,
{
    let c = chars_of(s);
    push_all(v, c.as_slice());
}

fn recent_section_exec(cs: &Vec<Comment>) -> (r: Option<Vec<char>>)
    ensures
        match r {
            Some(v) => recent_comments_section(cs@.map_values(|c: Comment| c@)) == Some(v@),
            None => recent_comments_section(cs@.map_values(|c: Comment| c@)) is None,
        },
{
    let ghost views = cs@.map_values(|c: Comment| c@);
    if cs.len() == 0 {
        let v: Vec<char> = Vec::new();
        assert(v@ =~= Seq::<char>::empty());
        return Some(v);
    }
    let start: usize = if cs.len() <= 5 { 0 } else { cs.len() - 5 };
    let tail = slice_from(cs.as_slice(), start);
    assert(tail@.map_values(|c: Comment| c@) =~= last_five(views));
    match comment_entries_exec(tail) {
        Some(e) => {
            let mut v = chars_of("## Recent Comments\n\n");
            push_all(&mut v, e.as_slice());
            Some(v)
        },
        None => None,
    }
}

fn slice_from<'a>(s: &'a [Comment], start: usize) -> (r: &'a [Comment])
    requires
        start <= s.len(),
    ensures
        r@ == s@.skip(start as int),
{
    let (_, b) = s.split_at(start);
    b
}

fn substitute(text: Vec<char>, placeholder: &str, value: &[char]) -> (r: Vec<char>)
    requires
        placeholder@.len() > 0,
    ensures
        r@ == replace_all(text@, placeholder@, value@),
{
    let p = chars_of(placeholder);
    replace_chars(text.as_slice(), p.as_slice(), value)
}

/// The prompt for an implementer session on `issue`, given the recent-comments section.
fn fill_template(issue: &Issue, github_url: &str, grindbot_path: &str, recent: &Vec<char>) -> (r: String)
    ensures
        r@ == prompt_text(issue@, github_url@, grindbot_path@, recent@),
{
    proof {
        reveal_strlit("{number}");
        reveal_strlit("{title}");
        reveal_strlit("{url}");
        reveal_strlit("{body}");
        reveal_strlit("{recent_comments_section}");
        reveal_strlit("{grindbot_path}");
    }
    let t0 = chars_of(PROMPT_TEMPLATE);
    let num = decimal_text(issue.number);
    let t1 = substitute(t0, "{number}", num.as_slice());
    let t2 = substitute(t1, "{title}", chars_of(issue.title.as_str()).as_slice());
    let t3 = substitute(t2, "{url}", chars_of(github_url).as_slice());
    let t4 = substitute(t3, "{body}", chars_of(issue.body.as_str()).as_slice());
    let t5 = substitute(t4, "{recent_comments_section}", recent.as_slice());
    let t6 = substitute(t5, "{grindbot_path}", chars_of(grindbot_path).as_slice());
    string_of(t6.as_slice())
}

fn decimal_text(n: u64) -> (v: Vec<char>)
    ensures
        v@ == decimal(n as nat),
{
    let s = u64_to_string(n);
    chars_of(s.as_str())
}

/// The prompt for an implementer session on `issue`. Every recent comment's time must
/// be formattable; `try_build_prompt` checks that first.
pub fn build_prompt(issue: &Issue, github_url: &str, grindbot_path: &str) -> (r: String)
    requires
        recent_comments_section(issue@.comments) is Some,
    ensures
        r@ == prompt_text(issue@, github_url@, grindbot_path@, recent_comments_section(issue@.comments)->Some_0),
{
    assert(issue@.comments =~= issue.comments@.map_values(|c: Comment| c@));
    let recent = match recent_section_exec(&issue.comments) {
        Some(v) => v,
        None => Vec::new(),
    };
    fill_template(issue, github_url, grindbot_path, &recent)
}

/// The prompt, or `None` when a recent comment's time cannot be formatted.
pub fn try_build_prompt(issue: &Issue, github_url: &str, grindbot_path: &str) -> (r: Option<String>)
    ensures
        match r {
            Some(p) => recent_comments_section(issue@.comments) is Some
                && p@ == prompt_text(issue@, github_url@, grindbot_path@, recent_comments_section(issue@.comments)->Some_0),
            None => recent_comments_section(issue@.comments) is None,
        },
{
    assert(issue@.comments =~= issue.comments@.map_values(|c: Comment| c@));
    match recent_section_exec(&issue.comments) {
        Some(_) => Some(build_prompt(issue, github_url, grindbot_path)),
        None => None,
    }
}

} // verus!
