//! Turning what the GitHub CLI reports into the library's issue and comment values.

use vstd::prelude::*;
use crate::kernel::state::{Comment, Issue};
use crate::text::{chars_of, owned, seq_starts_with, starts_with, trim_start, trim_start_chars};

verus! {

/// The GitHub client of the application, which works through the `gh` command line.
#[derive(Clone, Debug)]
pub struct RealGithubClient;

impl RealGithubClient {
    pub fn new() -> (c: RealGithubClient) {
        RealGithubClient
    }
}

/// The marker that opens every comment the supervisor posts.
pub const SUPERVISOR_MARKER: &'static str = "<!-- grindbot -->";

/// Whether a comment body was posted by the supervisor: it begins, after leading
/// whitespace, with the supervisor marker.
pub open spec fn is_supervisor_body(body: Seq<char>) -> bool {
    seq_starts_with(trim_start(body), SUPERVISOR_MARKER@)
}

/// Executable `is_supervisor_body`.
pub fn is_supervisor_comment(body: &str) -> (b: bool)
    ensures
        b == is_supervisor_body(body@),
{
    let v = chars_of(body);
    let t = trim_start_chars(v.as_slice());
    let m = chars_of(SUPERVISOR_MARKER);
    starts_with(t.as_slice(), m.as_slice())
}

/// `str::parse::<jiff::Timestamp>` followed by `Timestamp::as_nanosecond`: the instant an
/// RFC 3339 / ISO 8601 timestamp text denotes, in nanoseconds since the Unix epoch.
pub uninterp spec fn timestamp_nanos(text: Seq<char>) -> Option<i128>;

/// Parses a timestamp with jiff (`str::parse::<jiff::Timestamp>`) and gives it in
/// nanoseconds since the epoch. The grammar jiff accepts is named, not written out.
#[verifier::external_body]
fn parse_timestamp(text: &str) -> (r: Option<i128>)
    ensures
        r == timestamp_nanos(text@),
{
    match text.parse::<jiff::Timestamp>() {
        Ok(t) => Some(t.as_nanosecond()),
        Err(_) => None,
    }
}

/// Why an issue reported by GitHub could not be taken in.
#[derive(Clone, Debug, PartialEq, Eq)]
pub enum GhIssueError {
    BadCreatedAt,
    BadUpdatedAt,
}

/// Parses a GitHub timestamp (`2024-01-15T12:30:00Z`) to nanoseconds since the epoch.
pub fn parse_gh_datetime(text: &str) -> (r: Option<i128>)
    ensures
        r == timestamp_nanos(text@),
{
    parse_timestamp(text)
}

/// A comment as the supervisor sees it. A timestamp that does not parse is taken to be
/// `now` (nanoseconds since the epoch).
pub fn comment_from_gh(author: String, body: String, created_at: &str, now: i128) -> (c: Comment)
    ensures
        c@.author == author@,
        c@.body == body@,
        c@.created_at == (match timestamp_nanos(created_at@) {
            Some(t) => t,
            None => now,
        }),
        c@.is_supervisor == is_supervisor_body(body@),
{
    let is_supervisor = is_supervisor_comment(body.as_str());
    let created = match parse_timestamp(created_at) {
        Some(t) => t,
        None => now,
    };
    Comment { author, body, created_at: created, is_supervisor }
}

/// An issue as the supervisor sees it, without comments; an error when either timestamp
/// does not parse (the creation time is checked first).
pub fn issue_from_gh(
    number: u64,
    title: String,
    body: String,
    author: String,
    created_at: &str,
    updated_at: &str,
) -> (r: Result<Issue, GhIssueError>)
    ensures
        match r {
            Ok(i) => {
                &&& timestamp_nanos(created_at@) == Some(i@.created_at)
                &&& timestamp_nanos(updated_at@) == Some(i@.updated_at)
                &&& i@.number == number
                &&& i@.title == title@
                &&& i@.body == body@
                &&& i@.author == author@
                &&& i@.comments.len() == 0
            },
            Err(e) => e == (if timestamp_nanos(created_at@) is None {
                GhIssueError::BadCreatedAt
            } else {
                GhIssueError::BadUpdatedAt
            }) && (timestamp_nanos(created_at@) is None || timestamp_nanos(updated_at@) is None),
        },
{
    let created = match parse_timestamp(created_at) {
        Some(t) => t,
        None => return Err(GhIssueError::BadCreatedAt),
    };
    let updated = match parse_timestamp(updated_at) {
        Some(t) => t,
        None => return Err(GhIssueError::BadUpdatedAt),
    };
    let i = Issue {
        number,
        title,
        body,
        author,
        created_at: created,
        updated_at: updated,
        comments: Vec::new(),
    };
    assert(i@.comments =~= Seq::<crate::kernel::state::CommentView>::empty());
    Ok(i)
}

/// The issues whose comments are fetched: those written by an allowlisted author.
pub fn wants_comments(allowlist: &Vec<String>, author: &str) -> (b: bool)
    ensures
        b == exists|i: int| 0 <= i < allowlist@.len() && #[trigger] allowlist@[i]@ == author@,
{
    let a = owned(author);
    let mut i: usize = 0;
    while i < allowlist.len()
        invariant
            i <= allowlist.len(),
            a@ == author@,
            forall|j: int| 0 <= j < i ==> #[trigger] allowlist@[j]@ != author@,
        decreases allowlist.len() - i,
    {
        if allowlist[i] == a {
            return true;
        }
        i = i + 1;
    }
    false
}

} // verus!
