//! The supervisor's persistent state: active implementers, completed and
//! needs-feedback tasks, and conflict-retry counters.

use vstd::prelude::*;
use crate::text::{chars_of, join_path, path_join, string_of};

verus! {

/// The only state-file version this supervisor accepts.
pub const STATE_VERSION: u32 = 1;

/// The supervisor's persistent state file.
#[derive(Clone, Debug)]
pub struct StateFile {
    pub version: u32,
    pub active_implementers: Vec<ActiveImplementer>,
    pub completed_tasks: Vec<CompletedTask>,
    pub needs_feedback: Vec<NeedsFeedbackTask>,
    /// Tracks conflict-retry count per issue.
    pub conflict_retries: Vec<ConflictRetry>,
}

/// A running implementer session, with what is needed to reach it again.
#[derive(Clone, Debug)]
pub struct ActiveImplementer {
    pub issue_number: u64,
    pub session_id: String,
    pub workspace_name: String,
    pub workspace_path: String,
    pub base_commit: String,
    pub started_at: String,
    pub port: u16,
    pub bearer_token: String,
    pub credential_file: String,
}

/// A merged issue.
#[derive(Clone, Debug)]
pub struct CompletedTask {
    pub issue_number: u64,
    pub commit: String,
    pub completed_at: String,
}

/// An issue whose implementer asked for feedback.
#[derive(Clone, Debug)]
pub struct NeedsFeedbackTask {
    pub issue_number: u64,
    pub message: String,
    pub timestamp: String,
}

/// How many conflict-resolution attempts an issue has had.
#[derive(Clone, Debug)]
pub struct ConflictRetry {
    pub issue_number: u64,
    pub count: u32,
}

impl ActiveImplementer {
    /// An identical copy.
    pub fn duplicate(&self) -> (r: Self)
        ensures
            r == *self,
    {
        ActiveImplementer {
            issue_number: self.issue_number,
            session_id: self.session_id.clone(),
            workspace_name: self.workspace_name.clone(),
            workspace_path: self.workspace_path.clone(),
            base_commit: self.base_commit.clone(),
            started_at: self.started_at.clone(),
            port: self.port,
            bearer_token: self.bearer_token.clone(),
            credential_file: self.credential_file.clone(),
        }
    }
}

impl CompletedTask {
    /// An identical copy.
    pub fn duplicate(&self) -> (r: Self)
        ensures
            r == *self,
    {
        CompletedTask {
            issue_number: self.issue_number,
            commit: self.commit.clone(),
            completed_at: self.completed_at.clone(),
        }
    }
}

impl NeedsFeedbackTask {
    /// An identical copy.
    pub fn duplicate(&self) -> (r: Self)
        ensures
            r == *self,
    {
        NeedsFeedbackTask {
            issue_number: self.issue_number,
            message: self.message.clone(),
            timestamp: self.timestamp.clone(),
        }
    }
}

/// Whether a state file is the fresh state: current version and nothing recorded.
pub open spec fn is_fresh(s: StateFile) -> bool {
    &&& s.version == STATE_VERSION
    &&& s.active_implementers@.len() == 0
    &&& s.completed_tasks@.len() == 0
    &&& s.needs_feedback@.len() == 0
    &&& s.conflict_retries@.len() == 0
}

impl Default for StateFile {
    fn default() -> (s: Self)
        ensures
            is_fresh(s),
    {
        StateFile {
            version: STATE_VERSION,
            active_implementers: Vec::new(),
            completed_tasks: Vec::new(),
            needs_feedback: Vec::new(),
            conflict_retries: Vec::new(),
        }
    }
}

/// The active implementers other than those for issue `n`.
pub open spec fn imps_without_issue(s: Seq<ActiveImplementer>, n: u64) -> Seq<ActiveImplementer> {
    s.filter(|i: ActiveImplementer| i.issue_number != n)
}

/// The active implementers other than those in workspace `name`.
pub open spec fn imps_without_workspace(s: Seq<ActiveImplementer>, name: Seq<char>) -> Seq<ActiveImplementer> {
    s.filter(|i: ActiveImplementer| i.workspace_name@ != name)
}

/// The completed tasks other than those for issue `n`.
pub open spec fn completed_without(s: Seq<CompletedTask>, n: u64) -> Seq<CompletedTask> {
    s.filter(|t: CompletedTask| t.issue_number != n)
}

/// The needs-feedback tasks other than those for issue `n`.
pub open spec fn feedback_without(s: Seq<NeedsFeedbackTask>, n: u64) -> Seq<NeedsFeedbackTask> {
    s.filter(|t: NeedsFeedbackTask| t.issue_number != n)
}

/// The conflict-retry counters other than those for issue `n`.
pub open spec fn retries_without(s: Seq<ConflictRetry>, n: u64) -> Seq<ConflictRetry> {
    s.filter(|r: ConflictRetry| r.issue_number != n)
}

/// The position of the first conflict-retry counter for issue `n`, if any.
pub open spec fn retry_position(s: Seq<ConflictRetry>, n: u64) -> Option<int>
    decreases s.len(),
{
    if s.len() == 0 {
        None
    } else {
        match retry_position(s.drop_last(), n) {
            Some(i) => Some(i),
            None => if s.last().issue_number == n {
                Some(s.len() - 1)
            } else {
                None
            },
        }
    }
}

/// The recorded conflict-retry count of issue `n` (0 when none is recorded).
pub open spec fn retry_count(s: Seq<ConflictRetry>, n: u64) -> u32 {
    match retry_position(s, n) {
        Some(i) => s[i].count,
        None => 0,
    }
}

/// The counters after one more conflict retry for issue `n`.
pub open spec fn retries_incremented(s: Seq<ConflictRetry>, n: u64) -> Seq<ConflictRetry> {
    match retry_position(s, n) {
        Some(i) => s.update(i, ConflictRetry { issue_number: n, count: (s[i].count + 1) as u32 }),
        None => s.push(ConflictRetry { issue_number: n, count: 1 }),
    }
}

/// Whether no two conflict-retry counters are for the same issue.
pub open spec fn one_counter_per_issue(s: Seq<ConflictRetry>) -> bool {
    forall|i: int, j: int| 0 <= i < j < s.len() ==> #[trigger] s[i].issue_number != #[trigger] s[j].issue_number
}

proof fn lemma_retry_position(s: Seq<ConflictRetry>, n: u64)
    ensures
        match retry_position(s, n) {
            Some(i) => 0 <= i < s.len() && s[i].issue_number == n && forall|j: int|
                0 <= j < i ==> s[j].issue_number != n,
            None => forall|j: int| 0 <= j < s.len() ==> s[j].issue_number != n,
        },
    decreases s.len(),
{
    if s.len() > 0 {
        let p = s.drop_last();
        lemma_retry_position(p, n);
        assert forall|j: int| 0 <= j < p.len() implies s[j] == p[j] by {}
    }
}

/// The state file path: `{home}/.local/share/grindbot/{owner}/{repo}/state.json`, where
/// `home` is `$HOME` or `.` when it is unset.
pub open spec fn state_path(home: Option<Seq<char>>, owner: Seq<char>, repo: Seq<char>) -> Seq<char> {
    let base = match home {
        Some(h) => h,
        None => "."@,
    };
    path_join(
        path_join(path_join(path_join(base, ".local/share/grindbot"@), owner), repo),
        "state.json"@,
    )
}

impl StateFile {
    /// Default state file path for a configuration, given the value of `$HOME`.
    pub fn default_path(config: &crate::config::Config, home: Option<&str>) -> (p: String)
        ensures
            p@ == state_path(
                match home {
                    Some(h) => Some(h@),
                    None => None,
                },
                config.github.owner@,
                config.github.repo@,
            ),
    {
        let base = match home {
            Some(h) => chars_of(h),
            None => chars_of("."),
        };
        let a = join_path(&base, &chars_of(".local/share/grindbot"));
        let b = join_path(&a, &chars_of(config.github.owner.as_str()));
        let c = join_path(&b, &chars_of(config.github.repo.as_str()));
        let d = join_path(&c, &chars_of("state.json"));
        string_of(d.as_slice())
    }

    /// Accept a state read from disk: keep it when its version is the current one,
    /// otherwise (no file, unreadable, or another version) start fresh.
    pub fn from_loaded(loaded: Option<StateFile>) -> (s: StateFile)
        ensures
            match loaded {
                Some(l) => if l.version == STATE_VERSION { s == l } else { is_fresh(s) },
                None => is_fresh(s),
            },
    {
        match loaded {
            Some(l) => {
                if l.version == STATE_VERSION {
                    l
                } else {
                    StateFile::default()
                }
            },
            None => StateFile::default(),
        }
    }

    /// Add an active implementer, replacing any existing entry for the same issue.
    pub fn add_implementer(&mut self, imp: ActiveImplementer)
        ensures
            final(self).active_implementers@ == imps_without_issue(
                old(self).active_implementers@,
                imp.issue_number,
            ).push(imp),
            final(self).version == old(self).version,
            final(self).completed_tasks@ == old(self).completed_tasks@,
            final(self).needs_feedback@ == old(self).needs_feedback@,
            final(self).conflict_retries@ == old(self).conflict_retries@,
    {
        let ghost pred = |i: ActiveImplementer| i.issue_number != imp.issue_number;
        assert(pred == (|i: ActiveImplementer| i.issue_number != imp.issue_number));
        let mut kept: Vec<ActiveImplementer> = Vec::new();
        let mut i: usize = 0;
        while i < self.active_implementers.len()
            invariant
                self.active_implementers@ == old(self).active_implementers@,
                i <= self.active_implementers.len(),
                pred == (|i: ActiveImplementer| i.issue_number != imp.issue_number),
                kept@ == self.active_implementers@.take(i as int).filter(pred),
            decreases self.active_implementers.len() - i,
        {
            let ghost prev = self.active_implementers@.take(i as int);
            let ghost next = self.active_implementers@.take(i + 1);
            assert(next.drop_last() =~= prev);
            assert(next.last() == self.active_implementers@[i as int]);
            if self.active_implementers[i].issue_number != imp.issue_number {
                kept.push(self.active_implementers[i].duplicate());
            }
            assert(next.filter(pred) == (if pred(next.last()) {
                next.drop_last().filter(pred).push(next.last())
            } else {
                next.drop_last().filter(pred)
            })) by {
                reveal_with_fuel(Seq::filter, 1);
            }
            i = i + 1;
        }
        assert(self.active_implementers@.take(i as int) =~= self.active_implementers@);
        kept.push(imp);
        self.active_implementers = kept;
    }

    /// Remove every active implementer in the named workspace.
    pub fn remove_implementer(&mut self, workspace_name: &str)
        ensures
            final(self).active_implementers@ == imps_without_workspace(
                old(self).active_implementers@,
                workspace_name@,
            ),
            final(self).version == old(self).version,
            final(self).completed_tasks@ == old(self).completed_tasks@,
            final(self).needs_feedback@ == old(self).needs_feedback@,
            final(self).conflict_retries@ == old(self).conflict_retries@,
    {
        let ghost pred = |i: ActiveImplementer| i.workspace_name@ != workspace_name@;
        let mut kept: Vec<ActiveImplementer> = Vec::new();
        let mut i: usize = 0;
        while i < self.active_implementers.len()
            invariant
                self.active_implementers@ == old(self).active_implementers@,
                i <= self.active_implementers.len(),
                pred == (|i: ActiveImplementer| i.workspace_name@ != workspace_name@),
                kept@ == self.active_implementers@.take(i as int).filter(pred),
            decreases self.active_implementers.len() - i,
        {
            let ghost prev = self.active_implementers@.take(i as int);
            let ghost next = self.active_implementers@.take(i + 1);
            assert(next.drop_last() =~= prev);
            assert(next.last() == self.active_implementers@[i as int]);
            let same = crate::text::chars_eq(
                chars_of(self.active_implementers[i].workspace_name.as_str()).as_slice(),
                chars_of(workspace_name).as_slice(),
            );
            if !same {
                kept.push(self.active_implementers[i].duplicate());
            }
            assert(next.filter(pred) == (if pred(next.last()) {
                next.drop_last().filter(pred).push(next.last())
            } else {
                next.drop_last().filter(pred)
            })) by {
                reveal_with_fuel(Seq::filter, 1);
            }
            i = i + 1;
        }
        assert(self.active_implementers@.take(i as int) =~= self.active_implementers@);
        self.active_implementers = kept;
    }
    /// Mark a task as completed, replacing any earlier record for the same issue.
    pub fn add_completed(&mut self, task: CompletedTask)
        ensures
            final(self).completed_tasks@ == completed_without(old(self).completed_tasks@, task.issue_number).push(task),
            final(self).version == old(self).version,
            final(self).active_implementers@ == old(self).active_implementers@,
            final(self).needs_feedback@ == old(self).needs_feedback@,
            final(self).conflict_retries@ == old(self).conflict_retries@,
    {
        let ghost pred = |t: CompletedTask| t.issue_number != task.issue_number;
        let mut kept: Vec<CompletedTask> = Vec::new();
        let mut i: usize = 0;
        while i < self.completed_tasks.len()
            invariant
                self.completed_tasks@ == old(self).completed_tasks@,
                i <= self.completed_tasks.len(),
                pred == (|t: CompletedTask| t.issue_number != task.issue_number),
                kept@ == self.completed_tasks@.take(i as int).filter(pred),
            decreases self.completed_tasks.len() - i,
        {
            let ghost next = self.completed_tasks@.take(i + 1);
            assert(next.drop_last() =~= self.completed_tasks@.take(i as int));
            assert(next.last() == self.completed_tasks@[i as int]);
            if self.completed_tasks[i].issue_number != task.issue_number {
                kept.push(self.completed_tasks[i].duplicate());
            }
            assert(next.filter(pred) == (if pred(next.last()) {
                next.drop_last().filter(pred).push(next.last())
            } else {
                next.drop_last().filter(pred)
            })) by {
                reveal_with_fuel(Seq::filter, 1);
            }
            i = i + 1;
        }
        assert(self.completed_tasks@.take(i as int) =~= self.completed_tasks@);
        kept.push(task);
        self.completed_tasks = kept;
    }

    /// Add a needs-feedback task, replacing any earlier record for the same issue.
    pub fn add_needs_feedback(&mut self, task: NeedsFeedbackTask)
        ensures
            final(self).needs_feedback@ == feedback_without(old(self).needs_feedback@, task.issue_number).push(task),
            final(self).version == old(self).version,
            final(self).active_implementers@ == old(self).active_implementers@,
            final(self).completed_tasks@ == old(self).completed_tasks@,
            final(self).conflict_retries@ == old(self).conflict_retries@,
    {
        let ghost pred = |t: NeedsFeedbackTask| t.issue_number != task.issue_number;
        let mut kept: Vec<NeedsFeedbackTask> = Vec::new();
        let mut i: usize = 0;
        while i < self.needs_feedback.len()
            invariant
                self.needs_feedback@ == old(self).needs_feedback@,
                i <= self.needs_feedback.len(),
                pred == (|t: NeedsFeedbackTask| t.issue_number != task.issue_number),
                kept@ == self.needs_feedback@.take(i as int).filter(pred),
            decreases self.needs_feedback.len() - i,
        {
            let ghost next = self.needs_feedback@.take(i + 1);
            assert(next.drop_last() =~= self.needs_feedback@.take(i as int));
            assert(next.last() == self.needs_feedback@[i as int]);
            if self.needs_feedback[i].issue_number != task.issue_number {
                kept.push(self.needs_feedback[i].duplicate());
            }
            assert(next.filter(pred) == (if pred(next.last()) {
                next.drop_last().filter(pred).push(next.last())
            } else {
                next.drop_last().filter(pred)
            })) by {
                reveal_with_fuel(Seq::filter, 1);
            }
            i = i + 1;
        }
        assert(self.needs_feedback@.take(i as int) =~= self.needs_feedback@);
        kept.push(task);
        self.needs_feedback = kept;
    }

    /// Get the list of completed issue numbers.
    pub fn completed_issues(&self) -> (v: Vec<u64>)
        ensures
            v@ == self.completed_tasks@.map_values(|t: CompletedTask| t.issue_number),
    {
        let mut v: Vec<u64> = Vec::new();
        let mut i: usize = 0;
        while i < self.completed_tasks.len()
            invariant
                i <= self.completed_tasks.len(),
                v@ == self.completed_tasks@.take(i as int).map_values(|t: CompletedTask| t.issue_number),
            decreases self.completed_tasks.len() - i,
        {
            v.push(self.completed_tasks[i].issue_number);
            i = i + 1;
            assert(v@ =~= self.completed_tasks@.take(i as int).map_values(|t: CompletedTask| t.issue_number));
        }
        assert(self.completed_tasks@.take(i as int) =~= self.completed_tasks@);
        v
    }

    /// Get the list of active issue numbers.
    pub fn active_issues(&self) -> (v: Vec<u64>)
        ensures
            v@ == self.active_implementers@.map_values(|a: ActiveImplementer| a.issue_number),
    {
        let mut v: Vec<u64> = Vec::new();
        let mut i: usize = 0;
        while i < self.active_implementers.len()
            invariant
                i <= self.active_implementers.len(),
                v@ == self.active_implementers@.take(i as int).map_values(|a: ActiveImplementer| a.issue_number),
            decreases self.active_implementers.len() - i,
        {
            v.push(self.active_implementers[i].issue_number);
            i = i + 1;
            assert(v@ =~= self.active_implementers@.take(i as int).map_values(|a: ActiveImplementer| a.issue_number));
        }
        assert(self.active_implementers@.take(i as int) =~= self.active_implementers@);
        v
    }

    fn find_retry(&self, issue_number: u64) -> (r: Option<usize>)
        ensures
            match r {
                Some(i) => retry_position(self.conflict_retries@, issue_number) == Some(i as int),
                None => retry_position(self.conflict_retries@, issue_number) is None,
            },
    {
        proof { lemma_retry_position(self.conflict_retries@, issue_number); }
        let mut i: usize = 0;
        while i < self.conflict_retries.len()
            invariant
                i <= self.conflict_retries.len(),
                forall|j: int| 0 <= j < i ==> self.conflict_retries@[j].issue_number != issue_number,
            decreases self.conflict_retries.len() - i,
        {
            if self.conflict_retries[i].issue_number == issue_number {
                proof {
                    lemma_retry_position(self.conflict_retries@, issue_number);
                    match retry_position(self.conflict_retries@, issue_number) {
                        Some(k) => {
                            assert(k == i);
                        },
                        None => {
                            assert(self.conflict_retries@[i as int].issue_number == issue_number);
                        },
                    }
                }
                return Some(i);
            }
            i = i + 1;
        }
        None
    }

    /// Increment the conflict retry count for an issue. Returns the new count.
    pub fn increment_conflict_retry(&mut self, issue_number: u64) -> (n: u32)
        requires
            retry_count(old(self).conflict_retries@, issue_number) < u32::MAX,
        ensures
            final(self).conflict_retries@ == retries_incremented(old(self).conflict_retries@, issue_number),
            n == retry_count(old(self).conflict_retries@, issue_number) + 1,
            retry_count(final(self).conflict_retries@, issue_number) == n,
            forall|m: u64| m != issue_number ==> #[trigger] retry_count(final(self).conflict_retries@, m)
                == retry_count(old(self).conflict_retries@, m),
            one_counter_per_issue(old(self).conflict_retries@) ==> one_counter_per_issue(
                final(self).conflict_retries@,
            ),
            final(self).version == old(self).version,
            final(self).active_implementers@ == old(self).active_implementers@,
            final(self).completed_tasks@ == old(self).completed_tasks@,
            final(self).needs_feedback@ == old(self).needs_feedback@,
    {
        proof {
            lemma_retry_position(self.conflict_retries@, issue_number);
            let s0 = self.conflict_retries@;
            assert forall|m: u64| m != issue_number implies #[trigger] retry_count(
                retries_incremented(s0, issue_number),
                m,
            ) == retry_count(s0, m) by {
                law_increment_then_count(s0, issue_number, m);
            }
            law_increment_then_count(s0, issue_number, issue_number);
            if one_counter_per_issue(s0) {
                law_increment_keeps_one_counter_per_issue(s0, issue_number);
            }
        }
        match self.find_retry(issue_number) {
            Some(i) => {
                let count = self.conflict_retries[i].count + 1;
                self.conflict_retries.set(i, ConflictRetry { issue_number, count });
                count
            },
            None => {
                self.conflict_retries.push(ConflictRetry { issue_number, count: 1 });
                1
            },
        }
    }

    /// Get the conflict retry count for an issue (0 when none is recorded).
    pub fn conflict_retry_count(&self, issue_number: u64) -> (n: u32)
        ensures
            n == retry_count(self.conflict_retries@, issue_number),
    {
        proof { lemma_retry_position(self.conflict_retries@, issue_number); }
        match self.find_retry(issue_number) {
            Some(i) => self.conflict_retries[i].count,
            None => 0,
        }
    }

    /// Reset the conflict retry count for an issue.
    pub fn reset_conflict_retry(&mut self, issue_number: u64)
        ensures
            final(self).conflict_retries@ == retries_without(old(self).conflict_retries@, issue_number),
            retry_count(final(self).conflict_retries@, issue_number) == 0,
            forall|m: u64| m != issue_number ==> #[trigger] retry_count(final(self).conflict_retries@, m)
                == retry_count(old(self).conflict_retries@, m),
            final(self).version == old(self).version,
            final(self).active_implementers@ == old(self).active_implementers@,
            final(self).completed_tasks@ == old(self).completed_tasks@,
            final(self).needs_feedback@ == old(self).needs_feedback@,
    {
        let ghost pred = |r: ConflictRetry| r.issue_number != issue_number;
        let mut kept: Vec<ConflictRetry> = Vec::new();
        let mut i: usize = 0;
        while i < self.conflict_retries.len()
            invariant
                self.conflict_retries@ == old(self).conflict_retries@,
                i <= self.conflict_retries.len(),
                pred == (|r: ConflictRetry| r.issue_number != issue_number),
                kept@ == self.conflict_retries@.take(i as int).filter(pred),
            decreases self.conflict_retries.len() - i,
        {
            let ghost next = self.conflict_retries@.take(i + 1);
            assert(next.drop_last() =~= self.conflict_retries@.take(i as int));
            assert(next.last() == self.conflict_retries@[i as int]);
            if self.conflict_retries[i].issue_number != issue_number {
                kept.push(ConflictRetry {
                    issue_number: self.conflict_retries[i].issue_number,
                    count: self.conflict_retries[i].count,
                });
            }
            assert(next.filter(pred) == (if pred(next.last()) {
                next.drop_last().filter(pred).push(next.last())
            } else {
                next.drop_last().filter(pred)
            })) by {
                reveal_with_fuel(Seq::filter, 1);
            }
            i = i + 1;
        }
        assert(self.conflict_retries@.take(i as int) =~= self.conflict_retries@);
        proof {
            let s0 = self.conflict_retries@;
            law_reset_then_count(s0, issue_number);
            assert forall|m: u64| m != issue_number implies #[trigger] retry_count(retries_without(s0, issue_number), m)
                == retry_count(s0, m) by {
                law_reset_keeps_other_counts(s0, issue_number, m);
            }
        }
        self.conflict_retries = kept;
    }
}


/// Law: after `add_implementer`, the new entry is the only active implementer for its issue.
pub proof fn law_add_implementer_replaces(s: Seq<ActiveImplementer>, imp: ActiveImplementer)
    ensures
        ({
            let r = imps_without_issue(s, imp.issue_number).push(imp);
            &&& r.last() == imp
            &&& forall|i: int| 0 <= i < r.len() - 1 ==> (#[trigger] r[i]).issue_number != imp.issue_number
        }),
{
    let f = imps_without_issue(s, imp.issue_number);
    s.filter_lemma(|i: ActiveImplementer| i.issue_number != imp.issue_number);
    let r = f.push(imp);
    assert forall|i: int| 0 <= i < r.len() - 1 implies (#[trigger] r[i]).issue_number != imp.issue_number by {
        assert(r[i] == f[i]);
    }
}

/// Law: after `remove_implementer(name)`, no active implementer is in workspace `name`,
/// and every other entry is kept.
pub proof fn law_remove_implementer_removes(s: Seq<ActiveImplementer>, name: Seq<char>)
    ensures
        forall|i: int| 0 <= i < imps_without_workspace(s, name).len() ==> (#[trigger] imps_without_workspace(s, name)[i]).workspace_name@ != name,
        forall|i: int| 0 <= i < s.len() && s[i].workspace_name@ != name ==> imps_without_workspace(s, name).contains(#[trigger] s[i]),
{
    s.filter_lemma(|i: ActiveImplementer| i.workspace_name@ != name);
}

/// Law: after `add_completed`, the issue is recorded as completed exactly once.
pub proof fn law_add_completed_records_once(s: Seq<CompletedTask>, task: CompletedTask)
    ensures
        ({
            let r = completed_without(s, task.issue_number).push(task);
            &&& r.map_values(|t: CompletedTask| t.issue_number).contains(task.issue_number)
            &&& forall|i: int| 0 <= i < r.len() - 1 ==> (#[trigger] r[i]).issue_number != task.issue_number
        }),
{
    let f = completed_without(s, task.issue_number);
    s.filter_lemma(|t: CompletedTask| t.issue_number != task.issue_number);
    let r = f.push(task);
    assert forall|i: int| 0 <= i < r.len() - 1 implies (#[trigger] r[i]).issue_number != task.issue_number by {
        assert(r[i] == f[i]);
    }
    assert(r.map_values(|t: CompletedTask| t.issue_number)[r.len() - 1] == task.issue_number);
}

/// Law: incrementing the conflict-retry counter of an issue raises its count by one and
/// leaves the count of every other issue unchanged.
pub proof fn law_increment_then_count(s: Seq<ConflictRetry>, n: u64, m: u64)
    requires
        retry_count(s, n) < u32::MAX,
    ensures
        retry_count(retries_incremented(s, n), n) == retry_count(s, n) + 1,
        m != n ==> retry_count(retries_incremented(s, n), m) == retry_count(s, m),
{
    lemma_retry_position(s, n);
    lemma_retry_position(s, m);
    let r = retries_incremented(s, n);
    lemma_retry_position(r, n);
    lemma_retry_position(r, m);
    match retry_position(s, n) {
        Some(i) => {
            match retry_position(r, n) {
                Some(k) => {
                    if k < i { assert(r[k] == s[k]); }
                    if k > i { assert(r[i].issue_number == n); }
                },
                None => { assert(r[i].issue_number == n); },
            }
            if m != n {
                match (retry_position(s, m), retry_position(r, m)) {
                    (Some(a), Some(b)) => {
                        if a < b { assert(r[a] == s[a]); }
                        if b < a { if b != i { assert(r[b] == s[b]); } }
                        if a != i { assert(r[a] == s[a]); }
                    },
                    (Some(a), None) => { if a != i { assert(r[a] == s[a]); } },
                    (None, Some(b)) => { if b != i { assert(r[b] == s[b]); } },
                    (None, None) => {},
                }
            }
        },
        None => {
            assert(r == s.push(ConflictRetry { issue_number: n, count: 1 }));
            match retry_position(r, n) {
                Some(k) => { if k < s.len() { assert(r[k] == s[k]); } },
                None => { assert(r[s.len() as int].issue_number == n); },
            }
            if m != n {
                match (retry_position(s, m), retry_position(r, m)) {
                    (Some(a), Some(b)) => {
                        assert(r[a] == s[a]);
                        if b < s.len() { assert(r[b] == s[b]); }
                    },
                    (Some(a), None) => { assert(r[a] == s[a]); },
                    (None, Some(b)) => { if b < s.len() { assert(r[b] == s[b]); } },
                    (None, None) => {},
                }
            }
        },
    }
}

/// Law: after resetting the conflict-retry counter of an issue its count is 0.
pub proof fn law_reset_then_count(s: Seq<ConflictRetry>, n: u64)
    ensures
        retry_count(retries_without(s, n), n) == 0,
{
    let r = retries_without(s, n);
    s.filter_lemma(|c: ConflictRetry| c.issue_number != n);
    lemma_retry_position(r, n);
    match retry_position(r, n) {
        Some(k) => { assert(r[k].issue_number != n); },
        None => {},
    }
}

/// Law: incrementing a conflict-retry counter keeps the counters one per issue: an issue
/// that has a counter gets it raised, and one that has none gets a new one.
pub proof fn law_increment_keeps_one_counter_per_issue(s: Seq<ConflictRetry>, n: u64)
    requires
        one_counter_per_issue(s),
    ensures
        one_counter_per_issue(retries_incremented(s, n)),
{
    lemma_retry_position(s, n);
    let r = retries_incremented(s, n);
    match retry_position(s, n) {
        Some(i) => {
            assert forall|j: int| 0 <= j < r.len() implies #[trigger] r[j].issue_number == s[j].issue_number by {}
        },
        None => {
            assert forall|j: int| 0 <= j < s.len() implies #[trigger] r[j] == s[j] by {}
        },
    }
}

proof fn lemma_filter_keeps_first(s: Seq<ConflictRetry>, n: u64, m: u64)
    requires
        m != n,
    ensures
        ({
            let f = retries_without(s, n);
            match (retry_position(f, m), retry_position(s, m)) {
                (Some(a), Some(b)) => 0 <= a < f.len() && 0 <= b < s.len() && f[a] == s[b],
                (None, None) => true,
                _ => false,
            }
        }),
    decreases s.len(),
{
    if s.len() > 0 {
        let p = s.drop_last();
        lemma_filter_keeps_first(p, n, m);
        lemma_retry_position(p, m);
        lemma_retry_position(s, m);
        let fp = retries_without(p, n);
        let f = retries_without(s, n);
        lemma_retry_position(fp, m);
        lemma_retry_position(f, m);
        let kept = s.last().issue_number != n;
        assert(s =~= p.push(s.last()));
        p.lemma_filter_push(s.last(), |r: ConflictRetry| r.issue_number != n);
        if kept {
            assert(f =~= fp.push(s.last()));
            assert(f.drop_last() =~= fp);
            assert(f.last() == s.last());
        } else {
            assert(f =~= fp);
        }
        match retry_position(p, m) {
            Some(b) => { assert(s[b] == p[b]); },
            None => {},
        }
        match retry_position(fp, m) {
            Some(a) => { if kept { assert(f[a] == fp[a]); } },
            None => {},
        }
    }
}

/// Law: resetting the conflict-retry counter of an issue leaves the count of every other
/// issue unchanged.
pub proof fn law_reset_keeps_other_counts(s: Seq<ConflictRetry>, n: u64, m: u64)
    requires
        m != n,
    ensures
        retry_count(retries_without(s, n), m) == retry_count(s, m),
{
    lemma_filter_keeps_first(s, n, m);
}

} // verus!
