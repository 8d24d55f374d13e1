//! The merge lock: a file in the main repository that one merge at a time holds.

use vstd::prelude::*;
use crate::io::{Filesystem, FsError};
use crate::text::{append_str, owned};

verus! {

/// Who holds the merge lock; written into the lock file (as JSON, by the application).
#[derive(Clone, Debug)]
pub struct MergeLockMetadata {
    pub ticket: u64,
    pub workspace: String,
    pub session: String,
    pub owner: String,
    pub timestamp: String,
}

/// The lock file of the main repository: `<main repo>/.grindbot/merge.lock`.
pub open spec fn lock_path_of(main_repo: Seq<char>) -> Seq<char> {
    main_repo + "/.grindbot/merge.lock"@
}

/// Executable `lock_path_of`.
pub fn merge_lock_path(main_repo: &str) -> (p: String)
    ensures
        p@ == lock_path_of(main_repo@),
{
    let mut p = owned(main_repo);
    append_str(&mut p, "/.grindbot/merge.lock");
    p
}

/// Why the lock was not taken.
#[derive(Clone, Debug)]
pub enum MergeLockError {
    /// Another merge holds it; what its lock file says (or `unknown owner`).
    Held { holder: String },
    Fs(FsError),
}

impl MergeLockError {
    /// The error's text: `merge lock is held: ` and the holder, or the filesystem's own
    /// description of its failure.
    pub open spec fn text(&self) -> Seq<char> {
        match self {
            MergeLockError::Held { holder } => "merge lock is held: "@ + holder@,
            MergeLockError::Fs(e) => e.message@,
        }
    }

    /// The error's text (see `text`).
    pub fn message(&self) -> (m: String)
        ensures
            m@ == self.text(),
    {
        match self {
            MergeLockError::Held { holder } => {
                let mut m = owned("merge lock is held: ");
                append_str(&mut m, holder.as_str());
                m
            },
            MergeLockError::Fs(e) => e.message.clone(),
        }
    }
}

/// A held merge lock. Release it when the merge is over.
#[derive(Clone, Debug)]
pub struct MergeLock {
    path: String,
}

impl MergeLock {
    /// The lock file this lock holds.
    pub closed spec fn path_spec(&self) -> Seq<char> {
        self.path@
    }

    /// Takes the lock of `main_repo` by creating its lock file with `content` (the
    /// holder's metadata), failing when the file exists already. Taking it creates the
    /// file where there was none; a lock held by another merge is neither overwritten nor
    /// released, and the error names its holder: what the lock file holds, or `unknown
    /// owner` when it cannot be read.
    pub fn acquire<F: Filesystem>(fs: &mut F, main_repo: &str, content: &str) -> (r: Result<MergeLock, MergeLockError>)
        ensures
            r matches Ok(l) ==> l.path_spec() == lock_path_of(main_repo@)
                && !old(fs).files().contains_key(lock_path_of(main_repo@))
                && final(fs).files() == old(fs).files().insert(lock_path_of(main_repo@), content@),
            r matches Err(MergeLockError::Held { holder }) ==> final(fs).files() == old(fs).files()
                && ((old(fs).files().contains_key(lock_path_of(main_repo@))
                    && holder@ == old(fs).files()[lock_path_of(main_repo@)])
                    || holder@ == "unknown owner"@),
    {
        let path = merge_lock_path(main_repo);
        let created = fs.try_create_exclusive(path.as_str(), content);
        let holder = match &created {
            Ok(false) => match fs.read_to_string(path.as_str()) {
                Ok(s) => Some(s),
                Err(_) => None,
            },
            _ => None,
        };
        MergeLock::outcome(path, created, holder)
    }

    /// What taking the lock at `path` gives, from what creating the lock file gave
    /// (`Ok(true)`: created; `Ok(false)`: it exists) and, when it exists, what reading it
    /// gave (`None`: unreadable): the lock; `Held` with the file's content, or
    /// `unknown owner`; or the filesystem's error.
    pub fn outcome(path: String, created: Result<bool, FsError>, holder: Option<String>) -> (r: Result<
        MergeLock,
        MergeLockError,
    >)
        ensures
            match created {
                Ok(true) => (r matches Ok(l) && l.path_spec() == path@),
                Ok(false) => (r matches Err(MergeLockError::Held { holder: h }) && h@ == (match holder {
                    Some(s) => s@,
                    None => "unknown owner"@,
                })),
                Err(e) => (r matches Err(MergeLockError::Fs(x)) && x.message@ == e.message@),
            },
    {
        match created {
            Ok(true) => Ok(MergeLock { path }),
            Ok(false) => {
                let h = match holder {
                    Some(s) => s,
                    None => owned("unknown owner"),
                };
                Err(MergeLockError::Held { holder: h })
            },
            Err(e) => Err(MergeLockError::Fs(e)),
        }
    }

    /// Releases the lock: removes its file.
    pub fn release<F: Filesystem>(&self, fs: &mut F) -> (r: Result<(), FsError>)
        ensures
            r is Ok ==> final(fs).files() == old(fs).files().remove(self.path_spec()),
    {
        fs.remove_file(self.path.as_str())
    }

    /// The lock file's path.
    pub fn path(&self) -> (p: &str)
        ensures
            p@ == self.path_spec(),
    {
        self.path.as_str()
    }
}

/// Releasing a lock undoes taking it: the files are as they were before the lock was
/// taken, so the lock can be taken again.
pub proof fn law_release_undoes_acquire(before: Map<Seq<char>, Seq<char>>, main_repo: Seq<char>, content: Seq<char>)
    requires
        !before.contains_key(lock_path_of(main_repo)),
    ensures
        before.insert(lock_path_of(main_repo), content).remove(lock_path_of(main_repo)) == before,
        !before.insert(lock_path_of(main_repo), content).remove(lock_path_of(main_repo)).contains_key(
            lock_path_of(main_repo),
        ),
{
    assert(before.insert(lock_path_of(main_repo), content).remove(lock_path_of(main_repo)) =~= before);
}

} // verus!
