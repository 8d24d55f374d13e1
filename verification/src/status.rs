//! The report of `grindbot status`.

use vstd::prelude::*;
use crate::config::Config;
use crate::state_file::{ActiveImplementer, StateFile};
use crate::supervisor::{parse_started_at, rfc3339_instant};
use crate::text::{append_chars, append_str, chars_of, decimal, owned, u64_to_string};

verus! {

/// The time format of start times in the report.
pub const STATUS_TIME_FORMAT: &'static str = "%Y-%m-%d %H:%M UTC";

/// `chrono::DateTime::<Utc>::from_timestamp(secs, nanos)` formatted with `fmt`: `None`
/// when the instant is outside chrono's range.
pub uninterp spec fn utc_display(fmt: Seq<char>, secs: i64, nanos: u32) -> Option<Seq<char>>;

/// Formats an instant with chrono's strftime. chrono's formatting rules are named, not
/// written out; the format must be the report's own (a bad format makes chrono panic).
#[verifier::external_body]
fn format_utc(fmt: &str, secs: i64, nanos: u32) -> (r: Option<String>)
    requires
        fmt@ == STATUS_TIME_FORMAT@,
    ensures
        match r {
            Some(s) => utc_display(fmt@, secs, nanos) == Some(s@),
            None => utc_display(fmt@, secs, nanos) is None,
        },
{
    match chrono::DateTime::from_timestamp(secs, nanos) {
        Some(dt) => Some(dt.format(fmt).to_string()),
        None => None,
    }
}

/// The start time shown for an implementer: its recorded start (or `now`, when that does
/// not parse), formatted.
pub open spec fn start_display(a: ActiveImplementer, now: (i64, u32)) -> Option<Seq<char>> {
    let t = match rfc3339_instant(a.started_at@) {
        Some(t) => t,
        None => now,
    };
    utc_display(STATUS_TIME_FORMAT@, t.0, t.1)
}

/// Whether every start time can be shown.
pub open spec fn starts_displayable(imps: Seq<ActiveImplementer>, now: (i64, u32)) -> bool {
    forall|i: int| 0 <= i < imps.len() ==> #[trigger] start_display(imps[i], now) is Some
}

/// Whether the session of the `i`-th implementer was seen alive (unknown counts as dead).
pub open spec fn alive_at(alive: Seq<bool>, i: int) -> bool {
    0 <= i < alive.len() && alive[i]
}

/// The report's line for one active implementer.
pub open spec fn active_line(a: ActiveImplementer, alive: bool, started: Seq<char>) -> Seq<char> {
    "  #"@ + decimal(a.issue_number as nat) + "  "@ + a.workspace_name@ + "  session: "@ + a.session_id@ + "  "@
        + (if alive { "●"@ } else { "○"@ }) + " "@ + (if alive { "running"@ } else { "dead"@ }) + "  started: "@ + started
}

/// The lines for the active implementers.
pub open spec fn active_lines(imps: Seq<ActiveImplementer>, alive: Seq<bool>, now: (i64, u32)) -> Seq<Seq<char>>
    decreases imps.len(),
{
    if imps.len() == 0 {
        Seq::empty()
    } else {
        active_lines(imps.drop_last(), alive, now).push(
            active_line(imps.last(), alive_at(alive, imps.len() - 1), start_display(imps.last(), now)->Some_0),
        )
    }
}

/// `#<n>` for each completed issue, separated by `, `.
pub open spec fn completed_list(ns: Seq<u64>) -> Seq<char>
    decreases ns.len(),
{
    if ns.len() == 0 {
        Seq::empty()
    } else if ns.len() == 1 {
        "#"@ + decimal(ns[0] as nat)
    } else {
        completed_list(ns.drop_last()) + ", #"@ + decimal(ns.last() as nat)
    }
}

/// The report's heading and the blank line after it.
pub open spec fn header_section(config: Config) -> Seq<Seq<char>> {
    seq!["Grindbot Status — "@ + config.github.owner@ + "/"@ + config.github.repo@, Seq::<char>::empty()]
}

/// The active implementers' section.
pub open spec fn active_section(imps: Seq<ActiveImplementer>, alive: Seq<bool>, now: (i64, u32)) -> Seq<Seq<char>> {
    if imps.len() == 0 {
        seq!["Active Implementers: (none)"@]
    } else {
        seq!["Active Implementers ("@ + decimal(imps.len()) + "):"@] + active_lines(imps, alive, now)
    }
}

/// The completed issues' line.
pub open spec fn completed_section(done: Seq<crate::state_file::CompletedTask>) -> Seq<Seq<char>> {
    if done.len() == 0 {
        seq!["Completed: (none)"@]
    } else {
        seq!["Completed ("@ + decimal(done.len()) + "): "@
            + completed_list(done.map_values(|t: crate::state_file::CompletedTask| t.issue_number))]
    }
}

/// The line of one feedback request.
pub open spec fn feedback_line(t: crate::state_file::NeedsFeedbackTask) -> Seq<char> {
    "  #"@ + decimal(t.issue_number as nat) + ": "@ + t.message@
}

/// The feedback requests' section, absent when there are none.
pub open spec fn feedback_section(fb: Seq<crate::state_file::NeedsFeedbackTask>) -> Seq<Seq<char>> {
    if fb.len() == 0 {
        Seq::empty()
    } else {
        seq![Seq::<char>::empty(), "Needs Feedback ("@ + decimal(fb.len()) + "):"@] + fb.map_values(
            |t: crate::state_file::NeedsFeedbackTask| feedback_line(t),
        )
    }
}

/// The line of one conflict-retry counter.
pub open spec fn retry_line(r: crate::state_file::ConflictRetry) -> Seq<char> {
    "  #"@ + decimal(r.issue_number as nat) + ": "@ + decimal(r.count as nat) + "/3"@
}

/// The conflict-retry counters' section, absent when there are none.
pub open spec fn retries_section(cr: Seq<crate::state_file::ConflictRetry>) -> Seq<Seq<char>> {
    if cr.len() == 0 {
        Seq::empty()
    } else {
        seq![Seq::<char>::empty(), "Conflict Retries:"@] + cr.map_values(|r: crate::state_file::ConflictRetry| retry_line(r))
    }
}

/// The report, line by line.
pub open spec fn status_lines(config: Config, sf: StateFile, alive: Seq<bool>, now: (i64, u32)) -> Seq<Seq<char>> {
    header_section(config) + active_section(sf.active_implementers@, alive, now) + seq![Seq::<char>::empty()]
        + completed_section(sf.completed_tasks@) + feedback_section(sf.needs_feedback@)
        + retries_section(sf.conflict_retries@)
}

/// Lines joined with line feeds.
pub open spec fn joined(lines: Seq<Seq<char>>) -> Seq<char>
    decreases lines.len(),
{
    if lines.len() == 0 {
        Seq::empty()
    } else if lines.len() == 1 {
        lines[0]
    } else {
        joined(lines.drop_last()) + "\n"@ + lines.last()
    }
}

fn push_line(lines: &mut Vec<Vec<char>>, s: &str)
    ensures
        crate::text::char_vec_views(final(lines)@) == crate::text::char_vec_views(old(lines)@).push(s@),
{
    let ghost before = crate::text::char_vec_views(lines@);
    lines.push(chars_of(s));
    assert(crate::text::char_vec_views(lines@) =~= before.push(s@));
}

fn push_string_line(lines: &mut Vec<Vec<char>>, s: String)
    ensures
        crate::text::char_vec_views(final(lines)@) == crate::text::char_vec_views(old(lines)@).push(s@),
{
    push_line(lines, s.as_str());
}

fn join_lines(lines: &Vec<Vec<char>>) -> (s: String)
    ensures
        s@ == joined(crate::text::char_vec_views(lines@)),
{
    let ghost views = crate::text::char_vec_views(lines@);
    let mut out = String::new();
    let mut i: usize = 0;
    while i < lines.len()
        invariant
            i <= lines.len(),
            views == crate::text::char_vec_views(lines@),
            out@ == joined(views.take(i as int)),
        decreases lines.len() - i,
    {
        proof {
            assert(views.take(i + 1).drop_last() =~= views.take(i as int));
            assert(views.take(i + 1).last() == lines@[i as int]@);
            if i == 0 {
                assert(views.take(1)[0] == lines@[0]@);
            }
        }
        if i > 0 {
            append_str(&mut out, "\n");
        }
        append_chars(&mut out, lines[i].as_slice());
        proof {
            if i == 0 {
                assert(out@ =~= views.take(1)[0]);
            }
        }
        i = i + 1;
    }
    assert(views.take(i as int) =~= views);
    out
}

fn displayed_start(a: &ActiveImplementer, now: (i64, u32)) -> (r: Option<String>)
    ensures
        match r {
            Some(s) => start_display(*a, now) == Some(s@),
            None => start_display(*a, now) is None,
        },
{
    let t = parse_started_at(a.started_at.as_str(), now);
    format_utc(STATUS_TIME_FORMAT, t.0, t.1)
}

/// Whether every recorded start time can be shown.
pub fn can_show_starts(state_file: &StateFile, now: (i64, u32)) -> (b: bool)
    ensures
        b == starts_displayable(state_file.active_implementers@, now),
{
    let imps = &state_file.active_implementers;
    let mut i: usize = 0;
    while i < imps.len()
        invariant
            i <= imps.len(),
            imps == &state_file.active_implementers,
            forall|j: int| 0 <= j < i ==> #[trigger] start_display(imps@[j], now) is Some,
        decreases imps.len() - i,
    {
        if displayed_start(&imps[i], now).is_none() {
            return false;
        }
        i = i + 1;
    }
    true
}

fn append_lines(dst: &mut Vec<Vec<char>>, src: Vec<Vec<char>>)
    ensures
        crate::text::char_vec_views(final(dst)@) == crate::text::char_vec_views(old(dst)@) + crate::text::char_vec_views(src@),
{
    let mut src = src;
    let ghost a = dst@;
    let ghost b = src@;
    dst.append(&mut src);
    assert(crate::text::char_vec_views(dst@) =~= crate::text::char_vec_views(a) + crate::text::char_vec_views(b));
}

fn header_lines(config: &Config) -> (r: Vec<Vec<char>>)
    ensures
        crate::text::char_vec_views(r@) == header_section(*config),
{
    let mut lines: Vec<Vec<char>> = Vec::new();
    let mut header = owned("Grindbot Status — ");
    append_str(&mut header, config.github.owner.as_str());
    append_str(&mut header, "/");
    append_str(&mut header, config.github.repo.as_str());
    push_string_line(&mut lines, header);
    push_line(&mut lines, "");
    proof {
        reveal_strlit("");
        let v = crate::text::char_vec_views(lines@);
        assert(v.len() == 2);
        assert(v[1] =~= Seq::<char>::empty());
        assert(v[0] =~= "Grindbot Status — "@ + config.github.owner@ + "/"@ + config.github.repo@);
    }
    assert(crate::text::char_vec_views(lines@) =~= header_section(*config));
    lines
}

fn active_lines_exec(imps: &Vec<ActiveImplementer>, alive: &Vec<bool>, now: (i64, u32)) -> (r: Vec<Vec<char>>)
    requires
        starts_displayable(imps@, now),
    ensures
        crate::text::char_vec_views(r@) == active_section(imps@, alive@, now),
{
    let mut lines: Vec<Vec<char>> = Vec::new();
    if imps.len() == 0 {
        push_line(&mut lines, "Active Implementers: (none)");
        assert(crate::text::char_vec_views(lines@) =~= active_section(imps@, alive@, now));
        return lines;
    }
    let mut h = owned("Active Implementers (");
    append_str(&mut h, u64_to_string(imps.len() as u64).as_str());
    append_str(&mut h, "):");
    push_string_line(&mut lines, h);
    let ghost base = crate::text::char_vec_views(lines@);
    let mut i: usize = 0;
    while i < imps.len()
        invariant
            i <= imps.len(),
            starts_displayable(imps@, now),
            crate::text::char_vec_views(lines@) == base + active_lines(imps@.take(i as int), alive@, now),
        decreases imps.len() - i,
    {
        let a = &imps[i];
        let is_alive = i < alive.len() && alive[i];
        assert(start_display(imps@[i as int], now) is Some);
        let started = match displayed_start(a, now) {
            Some(s) => s,
            None => String::new(),
        };
        let mut line = owned("  #");
        append_str(&mut line, u64_to_string(a.issue_number).as_str());
        append_str(&mut line, "  ");
        append_str(&mut line, a.workspace_name.as_str());
        append_str(&mut line, "  session: ");
        append_str(&mut line, a.session_id.as_str());
        append_str(&mut line, "  ");
        append_str(&mut line, if is_alive { "●" } else { "○" });
        append_str(&mut line, " ");
        append_str(&mut line, if is_alive { "running" } else { "dead" });
        append_str(&mut line, "  started: ");
        append_str(&mut line, started.as_str());
        proof {
            let t = imps@.take(i + 1);
            assert(t.drop_last() =~= imps@.take(i as int));
            assert(t.last() == imps@[i as int]);
            assert(alive_at(alive@, t.len() - 1) == is_alive);
        }
        push_string_line(&mut lines, line);
        i = i + 1;
        proof {
            assert(base + active_lines(imps@.take(i as int), alive@, now) =~= base + active_lines(
                imps@.take(i - 1),
                alive@,
                now,
            ).push(active_line(imps@[i - 1], alive_at(alive@, i - 1), start_display(imps@[i - 1], now)->Some_0)));
        }
    }
    assert(imps@.take(i as int) =~= imps@);
    assert(crate::text::char_vec_views(lines@) =~= active_section(imps@, alive@, now));
    lines
}

fn completed_lines(done: &Vec<crate::state_file::CompletedTask>) -> (r: Vec<Vec<char>>)
    ensures
        crate::text::char_vec_views(r@) == completed_section(done@),
{
    let mut lines: Vec<Vec<char>> = Vec::new();
    if done.len() == 0 {
        push_line(&mut lines, "Completed: (none)");
        assert(crate::text::char_vec_views(lines@) =~= completed_section(done@));
        return lines;
    }
    let ghost ns = done@.map_values(|t: crate::state_file::CompletedTask| t.issue_number);
    let mut list = String::new();
    let mut k: usize = 0;
    while k < done.len()
        invariant
            k <= done.len(),
            ns == done@.map_values(|t: crate::state_file::CompletedTask| t.issue_number),
            list@ == completed_list(ns.take(k as int)),
        decreases done.len() - k,
    {
        proof {
            assert(ns.take(k + 1).drop_last() =~= ns.take(k as int));
            assert(ns.take(k + 1).last() == done@[k as int].issue_number);
        }
        if k > 0 {
            append_str(&mut list, ", #");
        } else {
            append_str(&mut list, "#");
        }
        append_str(&mut list, u64_to_string(done[k].issue_number).as_str());
        proof {
            let t = ns.take(k + 1);
            if k == 0 {
                assert(t[0] == done@[0].issue_number);
                assert(list@ =~= completed_list(t));
            } else {
                assert(t.len() >= 2);
                assert(list@ =~= completed_list(t.drop_last()) + ", #"@ + decimal(t.last() as nat));
            }
        }
        k = k + 1;
    }
    assert(ns.take(k as int) =~= ns);
    let mut line = owned("Completed (");
    append_str(&mut line, u64_to_string(done.len() as u64).as_str());
    append_str(&mut line, "): ");
    append_str(&mut line, list.as_str());
    push_string_line(&mut lines, line);
    assert(crate::text::char_vec_views(lines@) =~= completed_section(done@));
    lines
}

fn feedback_lines(fb: &Vec<crate::state_file::NeedsFeedbackTask>) -> (r: Vec<Vec<char>>)
    ensures
        crate::text::char_vec_views(r@) == feedback_section(fb@),
{
    let mut lines: Vec<Vec<char>> = Vec::new();
    if fb.len() == 0 {
        assert(crate::text::char_vec_views(lines@) =~= feedback_section(fb@));
        return lines;
    }
    push_line(&mut lines, "");
    let mut h = owned("Needs Feedback (");
    append_str(&mut h, u64_to_string(fb.len() as u64).as_str());
    append_str(&mut h, "):");
    push_string_line(&mut lines, h);
    let ghost base = crate::text::char_vec_views(lines@);
    proof {
        reveal_strlit("");
        assert(base.len() == 2);
        assert(base[0] =~= Seq::<char>::empty());
        assert(base =~= seq![Seq::<char>::empty(), "Needs Feedback ("@ + decimal(fb@.len()) + "):"@]);
    }
    let ghost entries = fb@.map_values(|t: crate::state_file::NeedsFeedbackTask| feedback_line(t));
    let mut k: usize = 0;
    while k < fb.len()
        invariant
            k <= fb.len(),
            entries == fb@.map_values(|t: crate::state_file::NeedsFeedbackTask| feedback_line(t)),
            crate::text::char_vec_views(lines@) == base + entries.take(k as int),
        decreases fb.len() - k,
    {
        let mut line = owned("  #");
        append_str(&mut line, u64_to_string(fb[k].issue_number).as_str());
        append_str(&mut line, ": ");
        append_str(&mut line, fb[k].message.as_str());
        push_string_line(&mut lines, line);
        k = k + 1;
        assert(base + entries.take(k as int) =~= (base + entries.take(k - 1)).push(entries[k - 1]));
    }
    assert(entries.take(k as int) =~= entries);
    proof {
        reveal_strlit("");
    }
    assert(crate::text::char_vec_views(lines@) =~= feedback_section(fb@));
    lines
}

fn retry_lines(cr: &Vec<crate::state_file::ConflictRetry>) -> (r: Vec<Vec<char>>)
    ensures
        crate::text::char_vec_views(r@) == retries_section(cr@),
{
    let mut lines: Vec<Vec<char>> = Vec::new();
    if cr.len() == 0 {
        assert(crate::text::char_vec_views(lines@) =~= retries_section(cr@));
        return lines;
    }
    push_line(&mut lines, "");
    push_line(&mut lines, "Conflict Retries:");
    let ghost base = crate::text::char_vec_views(lines@);
    proof {
        reveal_strlit("");
        assert(base.len() == 2);
        assert(base[0] =~= Seq::<char>::empty());
        assert(base =~= seq![Seq::<char>::empty(), "Conflict Retries:"@]);
    }
    let ghost entries = cr@.map_values(|r: crate::state_file::ConflictRetry| retry_line(r));
    let mut k: usize = 0;
    while k < cr.len()
        invariant
            k <= cr.len(),
            entries == cr@.map_values(|r: crate::state_file::ConflictRetry| retry_line(r)),
            crate::text::char_vec_views(lines@) == base + entries.take(k as int),
        decreases cr.len() - k,
    {
        let mut line = owned("  #");
        append_str(&mut line, u64_to_string(cr[k].issue_number).as_str());
        append_str(&mut line, ": ");
        append_str(&mut line, u64_to_string(cr[k].count as u64).as_str());
        append_str(&mut line, "/3");
        push_string_line(&mut lines, line);
        k = k + 1;
        assert(base + entries.take(k as int) =~= (base + entries.take(k - 1)).push(entries[k - 1]));
    }
    assert(entries.take(k as int) =~= entries);
    proof {
        reveal_strlit("");
    }
    assert(crate::text::char_vec_views(lines@) =~= retries_section(cr@));
    lines
}

/// The status report: the repository, the active implementers with whether their
/// sessions are alive (`alive[i]` for the `i`-th; unknown counts as dead), the completed
/// issues, the feedback requests and the conflict-retry counters. `now` stands in for
/// start times that do not parse; every start time must be showable.
pub fn build_status_output(config: &Config, state_file: &StateFile, alive: &Vec<bool>, now: (i64, u32)) -> (s: String)
    requires
        starts_displayable(state_file.active_implementers@, now),
    ensures
        s@ == joined(status_lines(*config, *state_file, alive@, now)),
{
    let mut lines = header_lines(config);
    append_lines(&mut lines, active_lines_exec(&state_file.active_implementers, alive, now));
    let ghost before_gap = crate::text::char_vec_views(lines@);
    push_line(&mut lines, "");
    proof {
        reveal_strlit("");
        assert(""@ =~= Seq::<char>::empty());
        assert(crate::text::char_vec_views(lines@) =~= before_gap + seq![Seq::<char>::empty()]);
    }
    append_lines(&mut lines, completed_lines(&state_file.completed_tasks));
    append_lines(&mut lines, feedback_lines(&state_file.needs_feedback));
    append_lines(&mut lines, retry_lines(&state_file.conflict_retries));
    proof {
        reveal_strlit("");
    }
    assert(crate::text::char_vec_views(lines@) =~= status_lines(*config, *state_file, alive@, now));
    join_lines(&lines)
}

/// The status report, or `None` when a start time cannot be shown.
pub fn try_build_status_output(config: &Config, state_file: &StateFile, alive: &Vec<bool>, now: (i64, u32)) -> (r: Option<String>)
    ensures
        match r {
            Some(s) => starts_displayable(state_file.active_implementers@, now)
                && s@ == joined(status_lines(*config, *state_file, alive@, now)),
            None => !starts_displayable(state_file.active_implementers@, now),
        },
{
    if can_show_starts(state_file, now) {
        Some(build_status_output(config, state_file, alive, now))
    } else {
        None
    }
}

/// The `i`-th line of the active implementers' list is about the `i`-th implementer and
/// shows that implementer's own liveness: `running` when `alive[i]` holds, `dead` when it
/// does not or when `alive` has no entry for it.
pub proof fn law_active_line_shows_own_liveness(imps: Seq<ActiveImplementer>, alive: Seq<bool>, now: (i64, u32), i: int)
    requires
        0 <= i < imps.len(),
    ensures
        active_lines(imps, alive, now).len() == imps.len(),
        active_lines(imps, alive, now)[i] == active_line(
            imps[i],
            i < alive.len() && alive[i],
            start_display(imps[i], now)->Some_0,
        ),
    decreases imps.len(),
{
    let p = imps.drop_last();
    if i < imps.len() - 1 {
        law_active_line_shows_own_liveness(p, alive, now, i);
        assert(p[i] == imps[i]);
    } else if p.len() > 0 {
        law_active_line_shows_own_liveness(p, alive, now, 0);
    } else {
        assert(active_lines(p, alive, now).len() == 0);
    }
}

/// In the status report, the line after the active implementers' heading that belongs to
/// the `i`-th implementer shows `running` exactly when `alive[i]` holds.
pub proof fn law_status_shows_each_sessions_liveness(
    config: Config,
    sf: StateFile,
    alive: Seq<bool>,
    now: (i64, u32),
    i: int,
)
    requires
        0 <= i < sf.active_implementers@.len(),
    ensures
        status_lines(config, sf, alive, now)[3 + i] == active_line(
            sf.active_implementers@[i],
            i < alive.len() && alive[i],
            start_display(sf.active_implementers@[i], now)->Some_0,
        ),
{
    let imps = sf.active_implementers@;
    law_active_line_shows_own_liveness(imps, alive, now, i);
    let h = header_section(config);
    let a = active_section(imps, alive, now);
    assert(a[1 + i] == active_lines(imps, alive, now)[i]);
    let rest = seq![Seq::<char>::empty()] + completed_section(sf.completed_tasks@) + feedback_section(sf.needs_feedback@)
        + retries_section(sf.conflict_retries@);
    assert(status_lines(config, sf, alive, now) =~= h + a + rest);
    assert((h + a + rest)[3 + i] == a[1 + i]);
}

} // verus!
