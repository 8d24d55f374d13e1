//! What `grindbot handoff` decides: the evidence of a finished implementation, the result
//! it records, and where the result goes.

use vstd::prelude::*;
use crate::kernel::state::{AcceptanceTestMapping, HandoffEvidence, HandoffResult, TestEvidence};
use crate::text::{append_str, chars_eq, chars_of, owned, string_of, trim, trim_chars};

verus! {

/// The manifest version this handoff writes.
pub const MANIFEST_VERSION: u32 = 1;

/// The index of the first `=` in `s`, if any.
pub open spec fn eq_pos(s: Seq<char>) -> Option<int> {
    if exists|i: int| 0 <= i < s.len() && s[i] == '=' {
        Some(choose|i: int| 0 <= i < s.len() && s[i] == '=' && forall|j: int| 0 <= j < i ==> s[j] != '=')
    } else {
        None
    }
}

/// A `KEY=VALUE` entry split at its first `=`.
pub open spec fn split_pair(s: Seq<char>) -> Option<(Seq<char>, Seq<char>)> {
    match eq_pos(s) {
        Some(i) => Some((s.take(i), s.skip(i + 1))),
        None => None,
    }
}

/// Splits a `KEY=VALUE` entry at its first `=`.
pub fn parse_pair(entry: &str) -> (r: Option<(String, String)>)
    ensures
        match r {
            Some((k, v)) => split_pair(entry@) == Some((k@, v@)),
            None => split_pair(entry@) is None,
        },
{
    let s = chars_of(entry);
    let mut i: usize = 0;
    while i < s.len()
        invariant
            i <= s.len(),
            s@ == entry@,
            forall|j: int| 0 <= j < i ==> s@[j] != '=',
        decreases s.len() - i,
    {
        if s[i] == '=' {
            proof {
                let p = choose|k: int| 0 <= k < s@.len() && s@[k] == '=' && forall|j: int| 0 <= j < k ==> s@[j] != '=';
                assert(0 <= i < s@.len() && s@[i as int] == '=' && forall|j: int| 0 <= j < i ==> s@[j] != '=');
                if p < i {
                    assert(s@[p] != '=');
                }
                if i < p {
                    assert(s@[i as int] != '=');
                }
            }
            let key = string_of(slice_range(s.as_slice(), 0, i).as_slice());
            let value = string_of(slice_range(s.as_slice(), i + 1, s.len()).as_slice());
            assert(s@.subrange(0, i as int) =~= s@.take(i as int));
            assert(s@.subrange(i + 1, s@.len() as int) =~= s@.skip(i + 1));
            return Some((key, value));
        }
        i = i + 1;
    }
    None
}

fn slice_range(s: &[char], from: usize, to: usize) -> (r: Vec<char>)
    requires
        from <= to <= s.len(),
    ensures
        r@ == s@.subrange(from as int, to as int),
{
    let mut r: Vec<char> = Vec::new();
    let mut k: usize = from;
    while k < to
        invariant
            from <= k <= to,
            to <= s.len(),
            r@ == s@.subrange(from as int, k as int),
        decreases to - k,
    {
        r.push(s[k]);
        k = k + 1;
        assert(r@ =~= s@.subrange(from as int, k as int));
    }
    r
}

/// Why `handoff done` refuses the evidence.
#[derive(Debug, PartialEq, Eq, Structural, Clone, Copy)]
pub enum HandoffError {
    /// A `--test` entry is not `NAME=RESULT`.
    MalformedTest,
    /// A `--acceptance` entry is not `CRITERION=VERIFICATION`.
    MalformedAcceptance,
    /// A review is missing, a test did not pass, there is no test or criterion, or
    /// findings are unresolved.
    Incomplete,
}

/// Whether every entry is a `KEY=VALUE` pair.
pub open spec fn all_pairs(entries: Seq<String>) -> bool {
    forall|i: int| 0 <= i < entries.len() ==> #[trigger] split_pair(entries[i]@) is Some
}

/// Whether a test entry's result, trimmed, is `passed`.
pub open spec fn test_passed(entry: Seq<char>) -> bool {
    match split_pair(entry) {
        Some((_, result)) => trim(result) == "passed"@,
        None => false,
    }
}

/// Whether the evidence is complete: both reviews given (not blank), at least one test
/// and every test passed, at least one acceptance criterion, and no unresolved findings.
pub open spec fn evidence_complete(
    plan_review: Seq<char>,
    implementation_review: Seq<char>,
    tests: Seq<String>,
    acceptance: Seq<String>,
    unresolved_findings: bool,
) -> bool {
    &&& trim(plan_review).len() > 0
    &&& trim(implementation_review).len() > 0
    &&& tests.len() > 0
    &&& (forall|i: int| 0 <= i < tests.len() ==> #[trigger] test_passed(tests[i]@))
    &&& acceptance.len() > 0
    &&& !unresolved_findings
}

/// The outcome of checking handoff evidence.
pub open spec fn evidence_outcome(
    plan_review: Seq<char>,
    implementation_review: Seq<char>,
    tests: Seq<String>,
    acceptance: Seq<String>,
    unresolved_findings: bool,
) -> Result<(), HandoffError> {
    if !all_pairs(tests) {
        Err(HandoffError::MalformedTest)
    } else if !all_pairs(acceptance) {
        Err(HandoffError::MalformedAcceptance)
    } else if !evidence_complete(plan_review, implementation_review, tests, acceptance, unresolved_findings) {
        Err(HandoffError::Incomplete)
    } else {
        Ok(())
    }
}

fn pairs_of(entries: &Vec<String>) -> (r: Option<Vec<(String, String)>>)
    ensures
        match r {
            Some(v) => all_pairs(entries@) && v@.len() == entries@.len()
                && forall|i: int| 0 <= i < entries@.len() ==> split_pair(#[trigger] entries@[i]@) == Some((v@[i].0@, v@[i].1@)),
            None => !all_pairs(entries@),
        },
{
    let mut v: Vec<(String, String)> = Vec::new();
    let mut i: usize = 0;
    while i < entries.len()
        invariant
            i <= entries.len(),
            v@.len() == i,
            forall|j: int| 0 <= j < i ==> split_pair(#[trigger] entries@[j]@) == Some((v@[j].0@, v@[j].1@)),
        decreases entries.len() - i,
    {
        match parse_pair(entries[i].as_str()) {
            Some(p) => {
                v.push(p);
            },
            None => {
                return None;
            },
        }
        i = i + 1;
    }
    Some(v)
}

fn is_blank(s: &str) -> (b: bool)
    ensures
        b == (trim(s@).len() == 0),
{
    let t = trim_chars(chars_of(s).as_slice());
    t.len() == 0
}

/// The evidence of `handoff done`, from its arguments (`--test NAME=RESULT` and
/// `--acceptance CRITERION=VERIFICATION` entries), or why it is refused.
pub fn evidence_from_args(
    plan_review: &str,
    implementation_review: &str,
    tests: &Vec<String>,
    acceptance: &Vec<String>,
    unresolved_findings: bool,
) -> (r: Result<HandoffEvidence, HandoffError>)
    ensures
        match r {
            Ok(e) => evidence_outcome(plan_review@, implementation_review@, tests@, acceptance@, unresolved_findings) is Ok
                && e.plan_review@ == plan_review@
                && e.implementation_review@ == implementation_review@
                && e.tests@.len() == tests@.len()
                && (forall|i: int| 0 <= i < tests@.len() ==> split_pair(#[trigger] tests@[i]@) == Some((e.tests@[i].name@, e.tests@[i].result@)))
                && e.acceptance_mapping@.len() == acceptance@.len()
                && (forall|i: int| 0 <= i < acceptance@.len() ==> split_pair(#[trigger] acceptance@[i]@)
                    == Some((e.acceptance_mapping@[i].acceptance_criterion@, e.acceptance_mapping@[i].verification@)))
                && !e.unresolved_findings,
            Err(err) => evidence_outcome(plan_review@, implementation_review@, tests@, acceptance@, unresolved_findings) == Err::<(), HandoffError>(err),
        },
{
    let test_pairs = match pairs_of(tests) {
        Some(v) => v,
        None => {
            return Err(HandoffError::MalformedTest);
        },
    };
    let acc_pairs = match pairs_of(acceptance) {
        Some(v) => v,
        None => {
            return Err(HandoffError::MalformedAcceptance);
        },
    };
    let passed = chars_of("passed");
    let mut all_passed = true;
    let mut k: usize = 0;
    while k < test_pairs.len()
        invariant
            k <= test_pairs.len(),
            test_pairs@.len() == tests@.len(),
            passed@ == "passed"@,
            forall|i: int| 0 <= i < tests@.len() ==> split_pair(#[trigger] tests@[i]@) == Some((test_pairs@[i].0@, test_pairs@[i].1@)),
            all_passed == forall|j: int| 0 <= j < k ==> #[trigger] test_passed(tests@[j]@),
        decreases test_pairs.len() - k,
    {
        let t = trim_chars(chars_of(test_pairs[k].1.as_str()).as_slice());
        let ok = chars_eq(t.as_slice(), passed.as_slice());
        assert(test_passed(tests@[k as int]@) == ok);
        all_passed = all_passed && ok;
        k = k + 1;
    }
    if is_blank(plan_review) || is_blank(implementation_review) || tests.len() == 0 || !all_passed
        || acceptance.len() == 0 || unresolved_findings {
        return Err(HandoffError::Incomplete);
    }
    let mut test_entries: Vec<TestEvidence> = Vec::new();
    let mut acc_entries: Vec<AcceptanceTestMapping> = Vec::new();
    let mut i: usize = 0;
    while i < test_pairs.len()
        invariant
            i <= test_pairs.len(),
            test_entries@.len() == i,
            forall|j: int| 0 <= j < i ==> test_entries@[j].name@ == test_pairs@[j].0@ && test_entries@[j].result@ == test_pairs@[j].1@,
        decreases test_pairs.len() - i,
    {
        test_entries.push(TestEvidence { name: test_pairs[i].0.clone(), result: test_pairs[i].1.clone() });
        i = i + 1;
    }
    let mut i: usize = 0;
    while i < acc_pairs.len()
        invariant
            i <= acc_pairs.len(),
            acc_entries@.len() == i,
            forall|j: int| 0 <= j < i ==> acc_entries@[j].acceptance_criterion@ == acc_pairs@[j].0@
                && acc_entries@[j].verification@ == acc_pairs@[j].1@,
        decreases acc_pairs.len() - i,
    {
        acc_entries.push(AcceptanceTestMapping {
            acceptance_criterion: acc_pairs[i].0.clone(),
            verification: acc_pairs[i].1.clone(),
        });
        i = i + 1;
    }
    Ok(HandoffEvidence {
        plan_review: owned(plan_review),
        implementation_review: owned(implementation_review),
        tests: test_entries,
        acceptance_mapping: acc_entries,
        unresolved_findings,
    })
}

/// The result `handoff done` records.
pub fn done_result(commit: &str, timestamp: &str, issue: Option<u64>, summary: &str, evidence: HandoffEvidence) -> (r: HandoffResult)
    ensures
        match r {
            HandoffResult::Done { manifest_version, commit: c, timestamp: t, issue: n, summary: s, evidence: e } =>
                manifest_version == MANIFEST_VERSION && c@ == commit@ && t@ == timestamp@ && n == issue
                    && s@ == summary@ && e == Some(evidence),
            _ => false,
        },
{
    HandoffResult::Done {
        manifest_version: MANIFEST_VERSION,
        commit: owned(commit),
        timestamp: owned(timestamp),
        issue,
        summary: owned(summary),
        evidence: Some(evidence),
    }
}

/// The result `handoff needs-feedback` records.
pub fn needs_feedback_result(message: &str, timestamp: &str) -> (r: HandoffResult)
    ensures
        match r {
            HandoffResult::NeedsFeedback { message: m, timestamp: t } => m@ == message@ && t@ == timestamp@,
            _ => false,
        },
{
    HandoffResult::NeedsFeedback { message: owned(message), timestamp: owned(timestamp) }
}

/// Why `handoff needs-feedback` has no message.
#[derive(Debug, PartialEq, Eq, Structural, Clone, Copy)]
pub enum FeedbackMessageError {
    NoMessage,
}

/// The feedback message: the content of `--message-file` trimmed, else `--message`.
pub fn feedback_message(file_content: Option<&str>, message: Option<&str>) -> (r: Result<String, FeedbackMessageError>)
    ensures
        match file_content {
            Some(c) => r matches Ok(m) && m@ == trim(c@),
            None => match message {
                Some(m) => r matches Ok(x) && x@ == m@,
                None => r == Err::<String, FeedbackMessageError>(FeedbackMessageError::NoMessage),
            },
        },
{
    match file_content {
        Some(c) => {
            let t = trim_chars(chars_of(c).as_slice());
            Ok(string_of(t.as_slice()))
        },
        None => match message {
            Some(m) => Ok(owned(m)),
            None => Err(FeedbackMessageError::NoMessage),
        },
    }
}

/// The revset of the commits of `commit` that are not in `base`.
pub open spec fn ahead_revset_of(base: Seq<char>, commit: Seq<char>) -> Seq<char> {
    base + "::"@ + commit + " ~ "@ + base
}

/// Executable `ahead_revset_of`.
pub fn ahead_revset(base: &str, commit: &str) -> (r: String)
    ensures
        r@ == ahead_revset_of(base@, commit@),
{
    let mut r = owned(base);
    append_str(&mut r, "::");
    append_str(&mut r, commit);
    append_str(&mut r, " ~ ");
    append_str(&mut r, base);
    r
}

/// Whether `jj log` of `ahead_revset` shows the commit ahead of its base: it succeeded and
/// printed something besides whitespace.
pub fn commit_is_ahead(log_succeeded: bool, log_stdout: &str) -> (b: bool)
    ensures
        b == (log_succeeded && trim(log_stdout@).len() > 0),
{
    log_succeeded && !is_blank(log_stdout)
}

/// The files of the result: `<root>/.grindbot/result.json`.
pub open spec fn result_json_path(root: Seq<char>) -> Seq<char> {
    root + "/.grindbot/result.json"@
}

/// The stop hook's counter: `<root>/.grindbot/stop_counter`.
pub open spec fn stop_counter_path(root: Seq<char>) -> Seq<char> {
    root + "/.grindbot/stop_counter"@
}

/// Where a handoff writes: the `.grindbot` directory, the stop counter it resets, and the
/// result file.
pub fn handoff_paths(root: &str) -> (r: (String, String, String))
    ensures
        r.0@ == root@ + "/.grindbot"@,
        r.1@ == stop_counter_path(root@),
        r.2@ == result_json_path(root@),
{
    let mut dir = owned(root);
    append_str(&mut dir, "/.grindbot");
    let mut counter = owned(root);
    append_str(&mut counter, "/.grindbot/stop_counter");
    let mut result = owned(root);
    append_str(&mut result, "/.grindbot/result.json");
    (dir, counter, result)
}

} // verus!
