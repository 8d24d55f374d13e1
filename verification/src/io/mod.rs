//! The values the supervisor exchanges with its outside collaborators (the GitHub CLI,
//! jj, the Polytoken daemon and the filesystem), and the filesystem interface through
//! which the library's own file plans are carried out.

pub mod github;
pub mod jj;
pub mod polytoken;

use vstd::prelude::*;

verus! {

/// What running a shell command produced.
#[derive(Clone, Debug)]
pub struct CommandOutput {
    pub status: i32,
    pub stdout: String,
    pub stderr: String,
}

/// A failure reported by a command runner.
#[derive(Clone, Debug)]
pub struct CommandError {
    pub message: String,
}

/// Runs shell commands. Implemented by the application and by test doubles.
pub trait CommandRunner {
    fn run(&self, command: &str, cwd: &str) -> Result<CommandOutput, CommandError>;
}

/// One revision as `jj log` lists it.
#[derive(Clone, Debug)]
pub struct CommitInfo {
    pub change_id: String,
    pub commit_hash: String,
    pub description: String,
}

/// The outcome of rebasing an implementation onto the base branch.
#[derive(Clone, Debug)]
pub enum RebaseResult {
    Success,
    Conflict { conflicted_files: Vec<String> },
}

/// How to reach a running Polytoken session.
#[derive(Clone, Debug)]
pub struct SessionInfo {
    pub session_id: String,
    pub port: u16,
    pub credential_file: String,
    pub bearer_token: String,
}

/// What a Polytoken session reports about itself.
#[derive(Clone, Debug)]
pub struct SessionState {
    pub turn_in_flight: bool,
    pub cwd: Option<String>,
    pub used_tokens: Option<u32>,
    pub limit_tokens: Option<u32>,
    pub most_recent_assistant_text: Option<String>,
}

/// A failed filesystem operation, with its description.
#[derive(Clone, Debug)]
pub struct FsError {
    pub message: String,
}

/// Whether `path` is `dir` or lies below it.
pub open spec fn is_under(path: Seq<char>, dir: Seq<char>) -> bool {
    path == dir || (path.len() > dir.len() && path.subrange(0, dir.len() as int) == dir
        && path[dir.len() as int] == '/')
}

/// The paths at or below `dir`.
pub open spec fn paths_under(dir: Seq<char>) -> Set<Seq<char>> {
    Set::new(|q: Seq<char>| is_under(q, dir))
}

/// The filesystem operations the supervisor needs. Implemented by the application
/// (on the real filesystem) and by test doubles.
///
/// `files` models the regular files, path to content, as this process sees them while
/// no other process writes to the same paths. The model is keyed by the path's text, so
/// callers name each file by one canonical path: no `.` or `..` components, no doubled
/// `/`, and no symbolic link or second path that reaches the same file. Each operation states what it does to
/// that model when it succeeds; a failed write may have done part of its work, so a
/// failure says nothing of the model.
pub trait Filesystem {
    /// The files this filesystem holds. The model is abstract: verified code never sees
    /// the default body, which is there so that implementations written outside Verus
    /// (the application's and the tests') need not define it.
    closed spec fn files(&self) -> Map<Seq<char>, Seq<char>> {
        Map::empty()
    }

    fn read_to_string(&self, path: &str) -> (r: Result<String, FsError>)
        ensures
            r matches Ok(s) ==> self.files().contains_key(path@) && self.files()[path@] == s@,
    ;

    /// Creates or replaces the file `path` (creating its parent directories).
    fn write(&mut self, path: &str, content: &str) -> (r: Result<(), FsError>)
        ensures
            r is Ok ==> final(self).files() == old(self).files().insert(path@, content@),
    ;

    /// Creates `path` with `content` unless it exists already; `Ok(false)` when it did.
    fn try_create_exclusive(&mut self, path: &str, content: &str) -> (r: Result<bool, FsError>)
        ensures
            r matches Ok(true) ==> !old(self).files().contains_key(path@)
                && final(self).files() == old(self).files().insert(path@, content@),
            r matches Ok(false) ==> final(self).files() == old(self).files(),
    ;

    /// Whether anything (a file or a directory) is at `path`; true whenever a file lies
    /// at or below it.
    fn path_exists(&self, path: &str) -> (b: bool)
        ensures
            (exists|q: Seq<char>| is_under(q, path@) && #[trigger] self.files().contains_key(q)) ==> b,
    ;

    /// Removes `path` and everything below it.
    fn remove_dir_all(&mut self, path: &str) -> (r: Result<(), FsError>)
        ensures
            r is Ok ==> final(self).files() == old(self).files().remove_keys(paths_under(path@)),
    ;

    /// Removes the file `path`; a missing file is no error.
    fn remove_file(&mut self, path: &str) -> (r: Result<(), FsError>)
        ensures
            r is Ok ==> final(self).files() == old(self).files().remove(path@),
    ;

    /// Creates the directory `path` and its parents.
    fn create_dir_all(&mut self, path: &str) -> (r: Result<(), FsError>)
        ensures
            r is Ok ==> final(self).files() == old(self).files(),
    ;
}

/// A filesystem operation of a plan, in the order the plan lists them.
#[derive(Clone, Debug)]
pub enum FsOp {
    CreateDirAll { path: String },
    Write { path: String, content: String },
}

/// The view of a filesystem operation.
pub enum FsOpView {
    CreateDirAll { path: Seq<char> },
    Write { path: Seq<char>, content: Seq<char> },
}

impl View for FsOp {
    type V = FsOpView;

    open spec fn view(&self) -> FsOpView {
        match self {
            FsOp::CreateDirAll { path } => FsOpView::CreateDirAll { path: path@ },
            FsOp::Write { path, content } => FsOpView::Write { path: path@, content: content@ },
        }
    }
}

/// The views of a sequence of operations.
pub open spec fn op_views(ops: Seq<FsOp>) -> Seq<FsOpView> {
    ops.map_values(|o: FsOp| o@)
}

/// What one operation does to the files when it succeeds.
pub open spec fn after_op(files: Map<Seq<char>, Seq<char>>, op: FsOpView) -> Map<Seq<char>, Seq<char>> {
    match op {
        FsOpView::CreateDirAll { .. } => files,
        FsOpView::Write { path, content } => files.insert(path, content),
    }
}

/// What a plan does to the files when every operation succeeds, in order.
pub open spec fn after_ops(files: Map<Seq<char>, Seq<char>>, ops: Seq<FsOpView>) -> Map<Seq<char>, Seq<char>>
    decreases ops.len(),
{
    if ops.len() == 0 {
        files
    } else {
        after_op(after_ops(files, ops.drop_last()), ops.last())
    }
}

/// Carries out a plan of operations in order, stopping at the first failure. On success
/// every operation was carried out, in order; an empty plan makes no call and succeeds.
pub fn apply_ops<F: Filesystem>(fs: &mut F, ops: &Vec<FsOp>) -> (r: Result<(), FsError>)
    ensures
        ops@.len() == 0 ==> r is Ok && final(fs).files() == old(fs).files(),
        r is Ok ==> final(fs).files() == after_ops(old(fs).files(), op_views(ops@)),
{
    let ghost start = fs.files();
    let mut i: usize = 0;
    while i < ops.len()
        invariant
            i <= ops.len(),
            fs.files() == after_ops(start, op_views(ops@).take(i as int)),
        decreases ops.len() - i,
    {
        proof {
            let vs = op_views(ops@);
            assert(vs.take(i as int + 1).drop_last() =~= vs.take(i as int));
            assert(vs.take(i as int + 1).last() == ops@[i as int]@);
        }
        match &ops[i] {
            FsOp::CreateDirAll { path } => {
                let r = fs.create_dir_all(path.as_str());
                if r.is_err() {
                    return r;
                }
            },
            FsOp::Write { path, content } => {
                let r = fs.write(path.as_str(), content.as_str());
                if r.is_err() {
                    return r;
                }
            },
        }
        i = i + 1;
    }
    proof {
        assert(op_views(ops@).take(ops@.len() as int) =~= op_views(ops@));
    }
    Ok(())
}

} // verus!
