//! The checks of `grindbot doctor` that read text: ignore rules and tool output.

use vstd::prelude::*;
use crate::text::{
    append_str, char_vec_views, chars_eq, chars_of, lines, lines_of, owned, string_of, strip_prefix,
    strip_prefix_chars, trim, trim_chars,
};

verus! {

/// An ignore entry as the doctor compares it: the trimmed line without one leading `/`.
pub open spec fn ignore_entry(line: Seq<char>) -> Seq<char> {
    let e = trim(line);
    match strip_prefix(e, "/"@) {
        Some(r) => r,
        None => e,
    }
}

/// Whether `.gitignore` content ignores the runtime directory `dir`: some line, trimmed
/// and without a leading `/`, is exactly `dir` or `dir/`.
pub open spec fn ignores_runtime(contents: Seq<char>, dir: Seq<char>) -> bool {
    exists|i: int| 0 <= i < lines(contents).len() && (ignore_entry(#[trigger] lines(contents)[i]) == dir
        || ignore_entry(lines(contents)[i]) == dir + "/"@)
}

/// Whether `contents` ignores the runtime directory `directory`.
pub fn has_runtime_ignore(contents: &str, directory: &str) -> (b: bool)
    ensures
        b == ignores_runtime(contents@, directory@),
{
    let text = chars_of(contents);
    let ls = lines_of(text.as_slice());
    let dir = chars_of(directory);
    let mut dir_slash = owned(directory);
    append_str(&mut dir_slash, "/");
    let dir_s = chars_of(dir_slash.as_str());
    let slash = chars_of("/");
    let mut i: usize = 0;
    while i < ls.len()
        invariant
            i <= ls.len(),
            char_vec_views(ls@) == lines(contents@),
            dir@ == directory@,
            dir_s@ == directory@ + "/"@,
            slash@ == "/"@,
            forall|j: int| 0 <= j < i ==> !(ignore_entry(#[trigger] lines(contents@)[j]) == directory@
                || ignore_entry(lines(contents@)[j]) == directory@ + "/"@),
        decreases ls.len() - i,
    {
        assert(lines(contents@)[i as int] == ls@[i as int]@);
        let t = trim_chars(ls[i].as_slice());
        let entry = match strip_prefix_chars(t.as_slice(), slash.as_slice()) {
            Some(r) => r,
            None => t,
        };
        if chars_eq(entry.as_slice(), dir.as_slice()) || chars_eq(entry.as_slice(), dir_s.as_slice()) {
            return true;
        }
        i = i + 1;
    }
    false
}

/// Whether a workspace's `.gitignore` covers both runtime directories.
pub open spec fn covers_runtime(contents: Seq<char>) -> bool {
    ignores_runtime(contents, ".grindbot"@) && ignores_runtime(contents, ".polytoken"@)
}

/// Executable `covers_runtime`.
pub fn ignores_covered(contents: &str) -> (b: bool)
    ensures
        b == covers_runtime(contents@),
{
    has_runtime_ignore(contents, ".grindbot") && has_runtime_ignore(contents, ".polytoken")
}

/// What the workspace-ignore check found.
#[derive(Clone, Debug)]
pub enum WorkspaceIgnoreDiagnostic {
    /// There is no managed workspace directory yet.
    Skipped,
    /// Every managed jj workspace ignores both runtime directories.
    Clean,
    /// These workspaces do not.
    Warning { workspaces: Vec<String> },
}

/// The diagnostic for the managed jj workspaces found (each with its path and the content
/// of its `.gitignore`, empty when it has none); `None` when there is no workspace directory.
pub fn ignore_diagnostic(found: Option<Vec<(String, String)>>) -> (d: WorkspaceIgnoreDiagnostic)
    ensures
        match found {
            None => d is Skipped,
            Some(ws) => match d {
                WorkspaceIgnoreDiagnostic::Skipped => false,
                WorkspaceIgnoreDiagnostic::Clean => forall|i: int| 0 <= i < ws@.len() ==> covers_runtime(#[trigger] ws@[i].1@),
                WorkspaceIgnoreDiagnostic::Warning { workspaces } => workspaces@.len() > 0
                    && workspaces@.map_values(|p: String| p@) == ws@.filter(|w: (String, String)| !covers_runtime(w.1@)).map_values(|w: (String, String)| w.0@),
            },
        },
{
    match found {
        None => WorkspaceIgnoreDiagnostic::Skipped,
        Some(ws) => {
            let ghost pred = |w: (String, String)| !covers_runtime(w.1@);
            let mut missing: Vec<String> = Vec::new();
            let mut i: usize = 0;
            while i < ws.len()
                invariant
                    i <= ws.len(),
                    pred == (|w: (String, String)| !covers_runtime(w.1@)),
                    missing@.map_values(|p: String| p@) == ws@.take(i as int).filter(pred).map_values(|w: (String, String)| w.0@),
                decreases ws.len() - i,
            {
                let ghost prev = ws@.take(i as int);
                let ghost next = ws@.take(i + 1);
                assert(next.drop_last() =~= prev);
                assert(next.last() == ws@[i as int]);
                assert(next.filter(pred) == (if pred(next.last()) {
                    prev.filter(pred).push(next.last())
                } else {
                    prev.filter(pred)
                })) by {
                    reveal_with_fuel(Seq::filter, 1);
                }
                let ghost before = missing@.map_values(|p: String| p@);
                if !ignores_covered(ws[i].1.as_str()) {
                    missing.push(ws[i].0.clone());
                    assert(missing@.map_values(|p: String| p@) =~= before.push(ws@[i as int].0@));
                    assert(prev.filter(pred).push(next.last()).map_values(|w: (String, String)| w.0@)
                        =~= prev.filter(pred).map_values(|w: (String, String)| w.0@).push(ws@[i as int].0@));
                }
                i = i + 1;
            }
            assert(ws@.take(i as int) =~= ws@);
            if missing.len() == 0 {
                proof {
                    assert forall|k: int| 0 <= k < ws@.len() implies covers_runtime(#[trigger] ws@[k].1@) by {
                        if !covers_runtime(ws@[k].1@) {
                            ws@.filter_lemma(pred);
                            assert(ws@.filter(pred).contains(ws@[k]));
                        }
                    }
                }
                WorkspaceIgnoreDiagnostic::Clean
            } else {
                WorkspaceIgnoreDiagnostic::Warning { workspaces: missing }
            }
        },
    }
}

/// The first line of a tool's output, trimmed; empty when there is none.
pub open spec fn first_line(text: Seq<char>) -> Seq<char> {
    if lines(text).len() == 0 {
        Seq::empty()
    } else {
        trim(lines(text)[0])
    }
}

/// Executable `first_line` (what the doctor shows of a version or an error).
pub fn first_line_of(text: &str) -> (s: String)
    ensures
        s@ == first_line(text@),
{
    let t = chars_of(text);
    let ls = lines_of(t.as_slice());
    if ls.len() == 0 {
        return String::new();
    }
    assert(lines(text@)[0] == ls@[0]@);
    let f = trim_chars(ls[0].as_slice());
    string_of(f.as_slice())
}

} // verus!
