//! Eligibility of issues for a new implementer.

use vstd::prelude::*;
use crate::config::Config;
use crate::kernel::state::{Issue, IssueView};

verus! {

/// Whether the last comment on the issue was written by the supervisor.
pub open spec fn last_by_supervisor(issue: IssueView) -> bool {
    issue.comments.len() > 0 && issue.comments.last().is_supervisor
}

/// The allowlist of a configuration, as character sequences.
pub open spec fn allowlist_of(config: Config) -> Seq<Seq<char>> {
    config.github.allowlist@.map_values(|a: String| a@)
}

/// An issue is eligible for implementation if ALL of:
/// 1. its author is on the allowlist,
/// 2. the last comment on it is not by the supervisor,
/// 3. it is not being implemented,
/// 4. it is not completed.
pub open spec fn eligible(
    issue: IssueView,
    allowlist: Seq<Seq<char>>,
    active_issues: Seq<u64>,
    completed_issues: Seq<u64>,
) -> bool {
    &&& allowlist.contains(issue.author)
    &&& !last_by_supervisor(issue)
    &&& !active_issues.contains(issue.number)
    &&& !completed_issues.contains(issue.number)
}

fn contains_u64(v: &[u64], n: u64) -> (b: bool)
    ensures
        b == v@.contains(n),
{
    let mut i: usize = 0;
    while i < v.len()
        invariant
            i <= v.len(),
            forall|j: int| 0 <= j < i ==> v@[j] != n,
        decreases v.len() - i,
    {
        if v[i] == n {
            assert(v@[i as int] == n);
            return true;
        }
        i = i + 1;
    }
    false
}

/// Whether `author` is one of the names in `allowlist`.
pub fn allowlist_contains(allowlist: &Vec<String>, author: &String) -> (b: bool)
    ensures
        b == allowlist@.map_values(|a: String| a@).contains(author@),
{
    let ghost names = allowlist@.map_values(|a: String| a@);
    let mut i: usize = 0;
    while i < allowlist.len()
        invariant
            names == allowlist@.map_values(|a: String| a@),
            i <= allowlist.len(),
            forall|j: int| 0 <= j < i ==> names[j] != author@,
        decreases allowlist.len() - i,
    {
        if allowlist[i] == *author {
            assert(names[i as int] == author@);
            return true;
        }
        i = i + 1;
    }
    false
}

/// Check if the last comment on the issue was by the supervisor.
pub fn last_activity_by_supervisor(issue: &Issue) -> (b: bool)
    ensures
        b == last_by_supervisor(issue@),
{
    let n = issue.comments.len();
    if n == 0 {
        false
    } else {
        issue.comments[n - 1].is_supervisor
    }
}

/// Whether `issue` may get a new implementer (see [`eligible`]).
pub fn is_eligible(
    issue: &Issue,
    config: &Config,
    active_issues: &[u64],
    completed_issues: &[u64],
) -> (b: bool)
    ensures
        b == eligible(issue@, allowlist_of(*config), active_issues@, completed_issues@),
{
    if !allowlist_contains(&config.github.allowlist, &issue.author) {
        return false;
    }
    if last_activity_by_supervisor(issue) {
        return false;
    }
    if contains_u64(active_issues, issue.number) {
        return false;
    }
    if contains_u64(completed_issues, issue.number) {
        return false;
    }
    true
}

} // verus!
