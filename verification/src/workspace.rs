//! Laying out the files of implementer workspaces.

use vstd::prelude::*;
use crate::config::{workspace_name_of, Config};
use crate::io::{after_ops, apply_ops, op_views, paths_under, Filesystem, FsError, FsOp, FsOpView};
use crate::prompt::{hooks_for, hooks_json, hooks_json_always_stop, PERMISSIONS_YAML, STOP_HOOK_ALWAYS_STOP, STOP_HOOK_SCRIPT};
use crate::text::{
    append_str, char_vec_views, chars_eq, chars_of, join_path, lemma_lines_append,
    lemma_lines_single, lemma_trim_end_last, lines, lines_of, owned, path_join, string_of, strip_cr,
    trim, trim_chars,
};

verus! {

/// The directory of the workspace for `name`: `<repo>/<workspaces dir>/<name>`.
pub open spec fn workspace_dir(repo: Seq<char>, workspaces_dir: Seq<char>, name: Seq<char>) -> Seq<char> {
    repo + "/"@ + workspaces_dir + "/"@ + name
}

/// The files an implementer workspace starts with, in the order they are made: the base
/// commit under `.grindbot/`, and the stop hook and permission rules under `.polytoken/`.
pub open spec fn workspace_file_ops(ws: Seq<char>, base_commit: Seq<char>) -> Seq<FsOpView> {
    seq![
        FsOpView::CreateDirAll { path: ws + "/.grindbot"@ },
        FsOpView::Write { path: ws + "/.grindbot/base_commit"@, content: base_commit },
        FsOpView::CreateDirAll { path: ws + "/.polytoken"@ },
        FsOpView::Write { path: ws + "/.polytoken/hooks.json"@, content: hooks_for(STOP_HOOK_SCRIPT@) },
        FsOpView::Write { path: ws + "/.polytoken/permissions.yaml"@, content: PERMISSIONS_YAML@ },
    ]
}

/// The files a conflict resolution agent's workspace is given: the always-stop hook and
/// the same permission rules.
pub open spec fn conflict_workspace_ops(ws: Seq<char>) -> Seq<FsOpView> {
    seq![
        FsOpView::Write { path: ws + "/.polytoken/hooks.json"@, content: hooks_for(STOP_HOOK_ALWAYS_STOP@) },
        FsOpView::Write { path: ws + "/.polytoken/permissions.yaml"@, content: PERMISSIONS_YAML@ },
    ]
}

/// Whether a line of `.gitignore`, trimmed, is exactly `pattern`.
pub open spec fn gitignore_lists(existing: Seq<char>, pattern: Seq<char>) -> bool {
    exists|i: int| 0 <= i < lines(existing).len() && trim(#[trigger] lines(existing)[i]) == pattern
}

/// The new `.gitignore` content that lists `pattern`, or `None` when it lists it already:
/// the pattern and a line feed are appended, after a line feed of their own when the
/// content does not end with one.
pub open spec fn gitignore_update(existing: Seq<char>, pattern: Seq<char>) -> Option<Seq<char>> {
    if gitignore_lists(existing, pattern) {
        None
    } else if existing.len() == 0 || existing.last() == '\n' {
        Some(existing + pattern + "\n"@)
    } else {
        Some(existing + "\n"@ + pattern + "\n"@)
    }
}

/// Executable `gitignore_update`.
pub fn gitignore_update_for(existing: &str, pattern: &str) -> (r: Option<String>)
    ensures
        match r {
            Some(s) => gitignore_update(existing@, pattern@) == Some(s@),
            None => gitignore_update(existing@, pattern@) is None,
        },
{
    let text = chars_of(existing);
    let pat = chars_of(pattern);
    let ls = lines_of(text.as_slice());
    let mut i: usize = 0;
    while i < ls.len()
        invariant
            i <= ls.len(),
            char_vec_views(ls@) == lines(existing@),
            text@ == existing@,
            pat@ == pattern@,
            forall|j: int| 0 <= j < i ==> trim(#[trigger] lines(existing@)[j]) != pattern@,
        decreases ls.len() - i,
    {
        let t = trim_chars(ls[i].as_slice());
        assert(lines(existing@)[i as int] == ls@[i as int]@);
        if chars_eq(t.as_slice(), pat.as_slice()) {
            return None;
        }
        i = i + 1;
    }
    let mut out = owned(existing);
    if !(text.len() == 0 || text[text.len() - 1] == '\n') {
        append_str(&mut out, "\n");
    }
    append_str(&mut out, pattern);
    append_str(&mut out, "\n");
    Some(out)
}

/// The directory and the file plan of the workspace for `issue_number`.
pub fn workspace_setup_plan(config: &Config, repo_path: &str, issue_number: u64, base_commit: &str)
    -> (r: (String, Vec<FsOp>))
    ensures
        r.0@ == workspace_dir(repo_path@, config.workspace.workspaces_dir@,
            workspace_name_of(config.workspace.prefix@, issue_number)),
        op_views(r.1@) == workspace_file_ops(r.0@, base_commit@),
{
    let name = config.workspace_name(issue_number);
    let mut ws = owned(repo_path);
    append_str(&mut ws, "/");
    append_str(&mut ws, config.workspace.workspaces_dir.as_str());
    append_str(&mut ws, "/");
    append_str(&mut ws, name.as_str());

    let mut grindbot_dir = ws.clone();
    append_str(&mut grindbot_dir, "/.grindbot");
    let mut base_file = ws.clone();
    append_str(&mut base_file, "/.grindbot/base_commit");
    let mut polytoken_dir = ws.clone();
    append_str(&mut polytoken_dir, "/.polytoken");
    let mut hooks_file = ws.clone();
    append_str(&mut hooks_file, "/.polytoken/hooks.json");
    let mut perms_file = ws.clone();
    append_str(&mut perms_file, "/.polytoken/permissions.yaml");

    let mut ops: Vec<FsOp> = Vec::new();
    ops.push(FsOp::CreateDirAll { path: grindbot_dir });
    ops.push(FsOp::Write { path: base_file, content: owned(base_commit) });
    ops.push(FsOp::CreateDirAll { path: polytoken_dir });
    ops.push(FsOp::Write { path: hooks_file, content: hooks_json(STOP_HOOK_SCRIPT) });
    ops.push(FsOp::Write { path: perms_file, content: owned(PERMISSIONS_YAML) });
    assert(op_views(ops@) =~= workspace_file_ops(ws@, base_commit@));
    (ws, ops)
}

/// The file plan that turns a workspace over to a conflict resolution agent.
pub fn conflict_resolution_plan(workspace_path: &str) -> (ops: Vec<FsOp>)
    ensures
        op_views(ops@) == conflict_workspace_ops(workspace_path@),
{
    let mut hooks_file = owned(workspace_path);
    append_str(&mut hooks_file, "/.polytoken/hooks.json");
    let mut perms_file = owned(workspace_path);
    append_str(&mut perms_file, "/.polytoken/permissions.yaml");
    let mut ops: Vec<FsOp> = Vec::new();
    ops.push(FsOp::Write { path: hooks_file, content: hooks_json_always_stop() });
    ops.push(FsOp::Write { path: perms_file, content: owned(PERMISSIONS_YAML) });
    assert(op_views(ops@) =~= conflict_workspace_ops(workspace_path@));
    ops
}

/// The `.gitignore` of a repository.
pub open spec fn gitignore_path_of(repo: Seq<char>) -> Seq<char> {
    repo + "/.gitignore"@
}

/// What listing `pattern` in the repository's `.gitignore` does to the files: the file
/// (empty when missing) gets the update of `gitignore_update`, if one is needed.
pub open spec fn after_gitignore(files: Map<Seq<char>, Seq<char>>, repo: Seq<char>, pattern: Seq<char>)
    -> Map<Seq<char>, Seq<char>>
{
    let path = gitignore_path_of(repo);
    let existing = if files.contains_key(path) { files[path] } else { Seq::<char>::empty() };
    match gitignore_update(existing, pattern) {
        None => files,
        Some(updated) => files.insert(path, updated),
    }
}

/// What setting up the workspace for `issue_number` does to the files when it succeeds.
pub open spec fn after_workspace_setup(
    files: Map<Seq<char>, Seq<char>>,
    repo: Seq<char>,
    workspaces_dir: Seq<char>,
    ws: Seq<char>,
    base_commit: Seq<char>,
) -> Map<Seq<char>, Seq<char>> {
    after_gitignore(after_ops(files, workspace_file_ops(ws, base_commit)), repo, workspaces_dir)
}

/// Adds `pattern` as a line of `<repo>/.gitignore` unless a line lists it already.
fn add_to_gitignore<F: Filesystem>(repo_path: &str, pattern: &str, fs: &mut F) -> (r: Result<(), FsError>)
    ensures
        r is Ok ==> final(fs).files() == after_gitignore(old(fs).files(), repo_path@, pattern@),
{
    let mut path = owned(repo_path);
    append_str(&mut path, "/.gitignore");
    let existing = if fs.path_exists(path.as_str()) {
        match fs.read_to_string(path.as_str()) {
            Ok(s) => s,
            Err(e) => {
                return Err(e);
            },
        }
    } else {
        proof {
            if fs.files().contains_key(path@) {
                assert(crate::io::is_under(path@, path@));
            }
        }
        String::new()
    };
    match gitignore_update_for(existing.as_str(), pattern) {
        None => Ok(()),
        Some(content) => fs.write(path.as_str(), content.as_str()),
    }
}

/// Sets up the files of the workspace for `issue_number` (the jj workspace itself is
/// created beforehand): the plan of `workspace_setup_plan`, then the workspaces
/// directory added to the repository's `.gitignore`. Gives the workspace's directory.
pub fn setup_workspace<F: Filesystem>(
    config: &Config,
    repo_path: &str,
    issue_number: u64,
    base_commit: &str,
    fs: &mut F,
) -> (r: Result<String, FsError>)
    ensures
        r matches Ok(p) ==> p@ == workspace_dir(repo_path@, config.workspace.workspaces_dir@,
            workspace_name_of(config.workspace.prefix@, issue_number))
            && final(fs).files() == after_workspace_setup(old(fs).files(), repo_path@,
                config.workspace.workspaces_dir@, p@, base_commit@),
{
    let (ws, ops) = workspace_setup_plan(config, repo_path, issue_number, base_commit);
    match apply_ops(fs, &ops) {
        Ok(()) => {},
        Err(e) => {
            return Err(e);
        },
    }
    match add_to_gitignore(repo_path, config.workspace.workspaces_dir.as_str(), fs) {
        Ok(()) => Ok(ws),
        Err(e) => Err(e),
    }
}

/// Turns a workspace over to a conflict resolution agent: the plan of
/// `conflict_resolution_plan`, which writes its two files and nothing else.
pub fn setup_conflict_resolution_workspace<F: Filesystem>(workspace_path: &str, fs: &mut F) -> (r: Result<(), FsError>)
    ensures
        r is Ok ==> final(fs).files() == after_ops(old(fs).files(), conflict_workspace_ops(workspace_path@)),
{
    let ops = conflict_resolution_plan(workspace_path);
    apply_ops(fs, &ops)
}

/// The path of the workspace for `issue_number`, joined as `PathBuf::join` joins.
pub fn workspace_path(config: &Config, repo_path: &str, issue_number: u64) -> (p: String)
    ensures
        p@ == path_join(path_join(repo_path@, config.workspace.workspaces_dir@),
            workspace_name_of(config.workspace.prefix@, issue_number)),
{
    let repo = chars_of(repo_path);
    let dir = chars_of(config.workspace.workspaces_dir.as_str());
    let name = config.workspace_name(issue_number);
    let name_v = chars_of(name.as_str());
    let first = join_path(&repo, &dir);
    let full = join_path(&first, &name_v);
    string_of(full.as_slice())
}

/// Removes a workspace's directory when it exists. (The jj workspace is forgotten by the
/// caller, through the jj client.) On success nothing remains at or below the path and
/// every other file is as it was.
pub fn cleanup_workspace<F: Filesystem>(
    _config: &Config,
    _workspace_name: &str,
    workspace_path: &str,
    fs: &mut F,
) -> (r: Result<(), FsError>)
    ensures
        r is Ok ==> final(fs).files() == old(fs).files().remove_keys(paths_under(workspace_path@)),
{
    if fs.path_exists(workspace_path) {
        fs.remove_dir_all(workspace_path)
    } else {
        proof {
            let m = fs.files();
            assert forall|q: Seq<char>| #[trigger] m.contains_key(q) implies !paths_under(workspace_path@).contains(q) by {
                if crate::io::is_under(q, workspace_path@) {
                    assert(exists|x: Seq<char>| crate::io::is_under(x, workspace_path@) && #[trigger] m.contains_key(x));
                }
            }
            assert(m.remove_keys(paths_under(workspace_path@)) =~= m);
        }
        Ok(())
    }
}

/// Adding a pattern to `.gitignore` is idempotent: once added, the pattern is listed and a
/// second update changes nothing. (For a pattern that is one line without surrounding
/// whitespace, as a directory name is.)
pub proof fn law_gitignore_update_idempotent(existing: Seq<char>, pattern: Seq<char>)
    requires
        trim(pattern) == pattern,
        forall|i: int| 0 <= i < pattern.len() ==> pattern[i] != '\n',
    ensures
        gitignore_update(existing, pattern) matches Some(updated) ==> gitignore_update(updated, pattern) is None,
{
    reveal_strlit("\n");
    if let Some(updated) = gitignore_update(existing, pattern) {
        let pl = pattern + seq!['\n'];
        assert("\n"@ =~= seq!['\n']);
        let a = if existing.len() == 0 || existing.last() == '\n' { existing } else { existing + seq!['\n'] };
        assert(updated =~= a + pl);
        lemma_lines_append(a, pl);
        lemma_lines_single(pattern);
        if pattern.len() > 0 {
            // a trimmed pattern does not end with a carriage return
            lemma_trim_end_last(pattern);
        }
        assert(strip_cr(pattern) == pattern);
        let ls = lines(updated);
        assert(ls == lines(a) + seq![pattern]);
        assert(ls[ls.len() - 1] == pattern);
        assert(trim(ls[ls.len() - 1]) == pattern);
        assert(gitignore_lists(updated, pattern));
    }
}

/// The path `setup_workspace` gives and the one `workspace_path` computes are the same for
/// a repository path without a trailing `/` and a relative workspaces directory without
/// leading or trailing `/`, when the prefix does not begin with `/`.
pub proof fn law_setup_path_is_workspace_path(repo: Seq<char>, workspaces_dir: Seq<char>, prefix: Seq<char>, n: u64)
    requires
        repo.len() > 0,
        repo.last() != '/',
        workspaces_dir.len() > 0,
        workspaces_dir[0] != '/',
        workspaces_dir.last() != '/',
        prefix.len() == 0 || prefix[0] != '/',
    ensures
        workspace_dir(repo, workspaces_dir, workspace_name_of(prefix, n))
            == path_join(path_join(repo, workspaces_dir), workspace_name_of(prefix, n)),
{
    reveal_strlit("/");
    assert("/"@ =~= seq!['/']);
    let name = workspace_name_of(prefix, n);
    let first = repo + seq!['/'] + workspaces_dir;
    assert(path_join(repo, workspaces_dir) == first);
    assert(first.last() == workspaces_dir.last());
    if prefix.len() == 0 {
        assert(name[0] == '-');
    } else {
        assert(name[0] == prefix[0]);
    }
    assert(path_join(first, name) == first + seq!['/'] + name);
    assert(workspace_dir(repo, workspaces_dir, name) =~= first + seq!['/'] + name);
}

} // verus!
