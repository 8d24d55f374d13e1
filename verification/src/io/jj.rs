//! Reading what the jj command line prints.

use vstd::prelude::*;
use crate::io::CommitInfo;
use crate::text::{
    char_vec_views, chars_of, lines, lines_of, owned, push_all, string_of, trim,
    trim_chars, words, words_of,
};

verus! {

/// The jj client of the application: the main repository it works on.
#[derive(Clone, Debug)]
pub struct RealJjClient {
    /// The main repo path (where the shared `.jj` lives).
    pub repo_path: String,
}

impl RealJjClient {
    pub fn new(repo_path: &str) -> (c: RealJjClient)
        ensures
            c.repo_path@ == repo_path@,
    {
        RealJjClient { repo_path: owned(repo_path) }
    }
}

/// Whether `pat` occurs in `s`.
pub open spec fn contains(s: Seq<char>, pat: Seq<char>) -> bool {
    exists|i: int| 0 <= i && i + pat.len() <= s.len() && #[trigger] s.subrange(i, i + pat.len()) == pat
}

/// Executable `contains`.
pub fn contains_chars(s: &[char], pat: &[char]) -> (b: bool)
    ensures
        b == contains(s@, pat@),
{
    if pat.len() > s.len() {
        return false;
    }
    let mut i: usize = 0;
    while i <= s.len() - pat.len()
        invariant
            pat.len() <= s.len(),
            i <= s.len() - pat.len() + 1,
            forall|k: int| 0 <= k < i ==> #[trigger] s@.subrange(k, k + pat.len()) != pat@,
        decreases s.len() - pat.len() + 1 - i,
    {
        let mut j: usize = 0;
        let mut same = true;
        while j < pat.len()
            invariant
                j <= pat.len(),
                i + pat.len() <= s.len(),
                same == forall|m: int| 0 <= m < j ==> s@[i + m] == pat@[m],
            decreases pat.len() - j,
        {
            same = same && s[i + j] == pat[j];
            j = j + 1;
        }
        if same {
            assert(s@.subrange(i as int, i + pat.len()) =~= pat@);
            return true;
        }
        proof {
            let k = choose|m: int| 0 <= m < pat.len() && s@[i + m] != pat@[m];
            assert(s@.subrange(i as int, i + pat.len())[k] != pat@[k]);
        }
        i = i + 1;
    }
    false
}

/// Whether a text mentions a conflict (`conflict` or `Conflict`).
pub open spec fn mentions_conflict(s: Seq<char>) -> bool {
    contains(s, "conflict"@) || contains(s, "Conflict"@)
}

/// Executable `mentions_conflict`: how a failed `jj rebase` tells a conflict from an error.
pub fn reports_conflict(text: &str) -> (b: bool)
    ensures
        b == mentions_conflict(text@),
{
    let t = chars_of(text);
    contains_chars(t.as_slice(), chars_of("conflict").as_slice()) || contains_chars(
        t.as_slice(),
        chars_of("Conflict").as_slice(),
    )
}

/// The lines of `jj diff --summary` that name conflicted files.
pub open spec fn conflicted_lines(text: Seq<char>) -> Seq<Seq<char>> {
    lines(text).filter(|l: Seq<char>| mentions_conflict(l))
}

/// Executable `conflicted_lines`.
pub fn conflicted_files(diff_summary: &str) -> (r: Vec<String>)
    ensures
        r@.map_values(|s: String| s@) == conflicted_lines(diff_summary@),
{
    let ls = lines_of(chars_of(diff_summary).as_slice());
    let ghost all = char_vec_views(ls@);
    let ghost pred = |l: Seq<char>| mentions_conflict(l);
    let mut r: Vec<String> = Vec::new();
    let mut i: usize = 0;
    while i < ls.len()
        invariant
            i <= ls.len(),
            all == char_vec_views(ls@),
            all == lines(diff_summary@),
            pred == (|l: Seq<char>| mentions_conflict(l)),
            r@.map_values(|s: String| s@) == all.take(i as int).filter(pred),
        decreases ls.len() - i,
    {
        let ghost prev = all.take(i as int);
        let ghost next = all.take(i + 1);
        assert(next.drop_last() =~= prev);
        assert(next.last() == ls@[i as int]@);
        assert(next.filter(pred) == (if pred(next.last()) {
            prev.filter(pred).push(next.last())
        } else {
            prev.filter(pred)
        })) by {
            reveal_with_fuel(Seq::filter, 1);
        }
        let line = string_of(ls[i].as_slice());
        let ghost before = r@.map_values(|s: String| s@);
        if reports_conflict(line.as_str()) {
            r.push(line);
            assert(r@.map_values(|s: String| s@) =~= before.push(ls@[i as int]@));
        }
        i = i + 1;
    }
    assert(all.take(i as int) =~= all);
    r
}

/// The workspace names of `jj workspace list`: the first word of every line that is not blank.
pub open spec fn listed_workspaces(text: Seq<char>) -> Seq<Seq<char>> {
    lines(text).filter(|l: Seq<char>| trim(l).len() > 0).map_values(|l: Seq<char>| words(l)[0])
}

proof fn lemma_words_nonempty(l: Seq<char>)
    requires
        trim(l).len() > 0,
    ensures
        words(l).len() > 0,
{
    crate::text::lemma_trim_start_len(l);
    if trim_start_of(l).len() == 0 {
        assert(trim(l) == crate::text::trim_end(trim_start_of(l)));
        assert(trim_start_of(l) =~= Seq::<char>::empty());
    }
}

spec fn trim_start_of(l: Seq<char>) -> Seq<char> {
    crate::text::trim_start(l)
}

/// Executable `listed_workspaces`.
pub fn workspace_names(list_output: &str) -> (r: Vec<String>)
    ensures
        r@.map_values(|s: String| s@) == listed_workspaces(list_output@),
{
    let ls = lines_of(chars_of(list_output).as_slice());
    let ghost all = char_vec_views(ls@);
    let ghost pred = |l: Seq<char>| trim(l).len() > 0;
    let ghost first = |l: Seq<char>| words(l)[0];
    let mut r: Vec<String> = Vec::new();
    let mut i: usize = 0;
    while i < ls.len()
        invariant
            i <= ls.len(),
            all == char_vec_views(ls@),
            all == lines(list_output@),
            pred == (|l: Seq<char>| trim(l).len() > 0),
            first == (|l: Seq<char>| words(l)[0]),
            r@.map_values(|s: String| s@) == all.take(i as int).filter(pred).map_values(first),
        decreases ls.len() - i,
    {
        let ghost prev = all.take(i as int);
        let ghost next = all.take(i + 1);
        assert(next.drop_last() =~= prev);
        assert(next.last() == ls@[i as int]@);
        assert(next.filter(pred) == (if pred(next.last()) {
            prev.filter(pred).push(next.last())
        } else {
            prev.filter(pred)
        })) by {
            reveal_with_fuel(Seq::filter, 1);
        }
        let t = trim_chars(ls[i].as_slice());
        let ghost before = r@.map_values(|s: String| s@);
        if t.len() > 0 {
            proof {
                lemma_words_nonempty(ls@[i as int]@);
            }
            let ws = words_of(ls[i].as_slice());
            assert(char_vec_views(ws@)[0] == ws@[0]@);
            let name = string_of(ws[0].as_slice());
            r.push(name);
            assert(r@.map_values(|s: String| s@) =~= before.push(words(ls@[i as int]@)[0]));
            assert(prev.filter(pred).push(next.last()).map_values(first) =~= prev.filter(pred).map_values(first).push(
                first(next.last()),
            ));
        }
        i = i + 1;
    }
    assert(all.take(i as int) =~= all);
    r
}


/// The first occurrence of `pat` in `s` at or after `i`.
pub open spec fn occurrence_from(s: Seq<char>, pat: Seq<char>, i: int) -> Option<int>
    decreases s.len() - i,
{
    if i < 0 || i + pat.len() > s.len() {
        None
    } else if s.subrange(i, i + pat.len()) == pat {
        Some(i)
    } else {
        proof {
            if pat.len() == 0 {
                assert(s.subrange(i, i + pat.len()) =~= pat);
            }
        }
        occurrence_from(s, pat, i + 1)
    }
}

pub proof fn lemma_occurrence_from(s: Seq<char>, pat: Seq<char>, i: int)
    requires
        0 <= i,
    ensures
        occurrence_from(s, pat, i) matches Some(k) ==> i <= k && k + pat.len() <= s.len()
            && s.subrange(k, k + pat.len()) == pat
            && forall|m: int| i <= m < k ==> #[trigger] s.subrange(m, m + pat.len()) != pat,
        occurrence_from(s, pat, i) is None ==> forall|m: int| i <= m && m + pat.len() <= s.len()
            ==> #[trigger] s.subrange(m, m + pat.len()) != pat,
    decreases s.len() - i,
{
    if i + pat.len() <= s.len() && s.subrange(i, i + pat.len()) != pat {
        if pat.len() == 0 {
            assert(s.subrange(i, i + pat.len()) =~= pat);
        }
        lemma_occurrence_from(s, pat, i + 1);
    }
}

/// `str::split` by a non-empty separator: the pieces between its non-overlapping
/// occurrences, from the left.
pub open spec fn split_on(s: Seq<char>, sep: Seq<char>) -> Seq<Seq<char>>
    decreases s.len(),
{
    if sep.len() == 0 {
        seq![s]
    } else {
        match occurrence_from(s, sep, 0) {
            Some(i) => {
                proof {
                    lemma_occurrence_from(s, sep, 0);
                }
                seq![s.take(i)] + split_on(s.skip(i + sep.len()), sep)
            },
            None => seq![s],
        }
    }
}

/// Lines joined with line feeds.
pub open spec fn joined_lines(ls: Seq<Seq<char>>) -> Seq<char>
    decreases ls.len(),
{
    if ls.len() == 0 {
        Seq::empty()
    } else if ls.len() == 1 {
        ls[0]
    } else {
        joined_lines(ls.drop_last()) + seq!['\n'] + ls.last()
    }
}

/// The view of a commit.
pub open spec fn commit_view(c: CommitInfo) -> (Seq<char>, Seq<char>, Seq<char>) {
    (c.change_id@, c.commit_hash@, c.description@)
}

/// The commits of a block of `jj log` output, as the supervisor's template prints them:
/// change id, commit id, then the description; a block of fewer than three lines is none.
pub open spec fn log_block(block: Seq<char>) -> Seq<(Seq<char>, Seq<char>, Seq<char>)> {
    let ls = lines(block);
    if ls.len() >= 3 {
        seq![(ls[0], ls[1], joined_lines(ls.skip(2)))]
    } else {
        Seq::empty()
    }
}

/// The commits of `jj log` output whose blocks end with `\n---\n`.
pub open spec fn log_commits(blocks: Seq<Seq<char>>) -> Seq<(Seq<char>, Seq<char>, Seq<char>)>
    decreases blocks.len(),
{
    if blocks.len() == 0 {
        Seq::empty()
    } else {
        log_commits(blocks.drop_last()) + log_block(blocks.last())
    }
}

fn find_from(s: &[char], pat: &[char], from: usize) -> (r: Option<usize>)
    requires
        from <= s.len(),
    ensures
        match r {
            Some(k) => occurrence_from(s@, pat@, from as int) == Some(k as int),
            None => occurrence_from(s@, pat@, from as int) is None,
        },
    decreases s.len() - from,
{
    if pat.len() > s.len() - from {
        return None;
    }
    let mut j: usize = 0;
    let mut same = true;
    while j < pat.len()
        invariant
            j <= pat.len(),
            from + pat.len() <= s.len(),
            same == forall|m: int| 0 <= m < j ==> s@[from + m] == pat@[m],
        decreases pat.len() - j,
    {
        same = same && s[from + j] == pat[j];
        j = j + 1;
    }
    if same {
        assert(s@.subrange(from as int, from + pat.len()) =~= pat@);
        return Some(from);
    }
    proof {
        let k = choose|m: int| 0 <= m < pat.len() && s@[from + m] != pat@[m];
        assert(s@.subrange(from as int, from + pat.len())[k] != pat@[k]);
    }
    if from == s.len() {
        return None;
    }
    find_from(s, pat, from + 1)
}

fn slice_of(s: &[char], from: usize, to: usize) -> (r: Vec<char>)
    requires
        from <= to <= s.len(),
    ensures
        r@ == s@.subrange(from as int, to as int),
{
    let mut r: Vec<char> = Vec::new();
    let mut k: usize = from;
    while k < to
        invariant
            from <= k <= to,
            to <= s.len(),
            r@ == s@.subrange(from as int, k as int),
        decreases to - k,
    {
        r.push(s[k]);
        k = k + 1;
        assert(r@ =~= s@.subrange(from as int, k as int));
    }
    r
}

fn split_exec(s: &[char], sep: &[char]) -> (r: Vec<Vec<char>>)
    requires
        sep.len() > 0,
    ensures
        char_vec_views(r@) == split_on(s@, sep@),
{
    let mut r: Vec<Vec<char>> = Vec::new();
    let mut pos: usize = 0;
    assert(s@.skip(0) =~= s@);
    assert(char_vec_views(r@) + split_on(s@, sep@) =~= split_on(s@, sep@));
    loop
        invariant
            pos <= s.len(),
            sep.len() > 0,
            char_vec_views(r@) + split_on(s@.skip(pos as int), sep@) == split_on(s@, sep@),
        decreases s.len() - pos,
    {
        let ghost rest = s@.skip(pos as int);
        match find_from(s, sep, pos) {
            Some(k) => {
                proof {
                    lemma_occurrence_from(s@, sep@, pos as int);
                    lemma_occurrence_shift(s@, sep@, pos as int);
                    lemma_occurrence_from(rest, sep@, 0);
                }
                let piece = slice_of(s, pos, k);
                assert(rest.take(k - pos) =~= piece@);
                assert(rest.skip(k - pos + sep.len()) =~= s@.skip(k + sep.len()));
                let ghost before = char_vec_views(r@);
                r.push(piece);
                assert(char_vec_views(r@) =~= before.push(piece@));
                assert(before + split_on(rest, sep@) =~= char_vec_views(r@) + split_on(s@.skip(k + sep.len()), sep@));
                pos = k + sep.len();
            },
            None => {
                proof {
                    lemma_occurrence_shift(s@, sep@, pos as int);
                }
                let piece = slice_of(s, pos, s.len());
                assert(rest =~= piece@);
                let ghost before = char_vec_views(r@);
                r.push(piece);
                assert(char_vec_views(r@) =~= before.push(piece@));
                assert(before + split_on(rest, sep@) =~= char_vec_views(r@));
                return r;
            },
        }
    }
}

/// The occurrences of a pattern in a suffix are those in the whole text, shifted.
proof fn lemma_occurrence_shift(s: Seq<char>, pat: Seq<char>, pos: int)
    requires
        0 <= pos <= s.len(),
    ensures
        match occurrence_from(s, pat, pos) {
            Some(k) => occurrence_from(s.skip(pos), pat, 0) == Some(k - pos),
            None => occurrence_from(s.skip(pos), pat, 0) is None,
        },
{
    lemma_occurrence_from(s, pat, pos);
    lemma_occurrence_from(s.skip(pos), pat, 0);
    let t = s.skip(pos);
    assert forall|m: int| 0 <= m && m + pat.len() <= t.len() implies #[trigger] t.subrange(m, m + pat.len())
        == s.subrange(m + pos, m + pos + pat.len()) by {
        assert(t.subrange(m, m + pat.len()) =~= s.subrange(m + pos, m + pos + pat.len()));
    }
    match occurrence_from(s, pat, pos) {
        Some(k) => {
            assert(t.subrange(k - pos, k - pos + pat.len()) == s.subrange(k, k + pat.len()));
            match occurrence_from(t, pat, 0) {
                Some(j) => {
                    assert(s.subrange(j + pos, j + pos + pat.len()) == t.subrange(j, j + pat.len()));
                    if j < k - pos {
                        assert(s.subrange(j + pos, j + pos + pat.len()) != pat);
                    }
                    if j > k - pos {
                        assert(t.subrange(k - pos, k - pos + pat.len()) != pat);
                    }
                },
                None => {
                    assert(t.subrange(k - pos, k - pos + pat.len()) != pat);
                },
            }
        },
        None => {
            match occurrence_from(t, pat, 0) {
                Some(j) => {
                    assert(s.subrange(j + pos, j + pos + pat.len()) == t.subrange(j, j + pat.len()));
                },
                None => {},
            }
        },
    }
}

fn join_with_newlines(ls: &[Vec<char>]) -> (r: Vec<char>)
    ensures
        r@ == joined_lines(char_vec_views(ls@)),
{
    let ghost views = char_vec_views(ls@);
    let mut r: Vec<char> = Vec::new();
    let mut i: usize = 0;
    while i < ls.len()
        invariant
            i <= ls.len(),
            views == char_vec_views(ls@),
            r@ == joined_lines(views.take(i as int)),
        decreases ls.len() - i,
    {
        proof {
            assert(views.take(i + 1).drop_last() =~= views.take(i as int));
            assert(views.take(i + 1).last() == ls@[i as int]@);
        }
        if i > 0 {
            r.push('\n');
        }
        push_all(&mut r, ls[i].as_slice());
        proof {
            if i == 0 {
                assert(views.take(1)[0] == ls@[0]@);
                assert(r@ =~= views.take(1)[0]);
            } else {
                assert(r@ =~= joined_lines(views.take(i as int)) + seq!['\n'] + ls@[i as int]@);
            }
        }
        i = i + 1;
    }
    assert(views.take(i as int) =~= views);
    r
}

/// The commits listed by `jj log` with the supervisor's template (blocks ended by
/// `\n---\n`, each: change id, commit id, description).
pub fn parse_log(text: &str) -> (r: Vec<CommitInfo>)
    ensures
        r@.map_values(|c: CommitInfo| commit_view(c)) == log_commits(split_on(text@, "\n---\n"@)),
{
    let sep = chars_of("\n---\n");
    proof {
        reveal_strlit("\n---\n");
    }
    let blocks = split_exec(chars_of(text).as_slice(), sep.as_slice());
    let ghost bv = char_vec_views(blocks@);
    let mut r: Vec<CommitInfo> = Vec::new();
    let mut i: usize = 0;
    while i < blocks.len()
        invariant
            i <= blocks.len(),
            bv == char_vec_views(blocks@),
            bv == split_on(text@, "\n---\n"@),
            r@.map_values(|c: CommitInfo| commit_view(c)) == log_commits(bv.take(i as int)),
        decreases blocks.len() - i,
    {
        proof {
            assert(bv.take(i + 1).drop_last() =~= bv.take(i as int));
            assert(bv.take(i + 1).last() == blocks@[i as int]@);
        }
        let ls = lines_of(blocks[i].as_slice());
        let ghost before = r@.map_values(|c: CommitInfo| commit_view(c));
        if ls.len() >= 3 {
            let (_, tail) = ls.as_slice().split_at(2);
            assert(tail@ =~= ls@.skip(2));
            assert(char_vec_views(tail@) =~= char_vec_views(ls@).skip(2));
            let desc = join_with_newlines(tail);
            let c = CommitInfo {
                change_id: string_of(ls[0].as_slice()),
                commit_hash: string_of(ls[1].as_slice()),
                description: string_of(desc.as_slice()),
            };
            assert(char_vec_views(ls@)[0] == ls@[0]@);
            assert(char_vec_views(ls@)[1] == ls@[1]@);
            r.push(c);
            assert(r@.map_values(|c: CommitInfo| commit_view(c)) =~= before + log_block(blocks@[i as int]@));
        } else {
            assert(log_block(blocks@[i as int]@) =~= Seq::<(Seq<char>, Seq<char>, Seq<char>)>::empty());
            assert(before + log_block(blocks@[i as int]@) =~= before);
        }
        i = i + 1;
    }
    assert(bv.take(i as int) =~= bv);
    r
}

} // verus!
