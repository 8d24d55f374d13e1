use std::collections::HashMap;

use grindbot::io::github::{issue_from_gh, GhIssueError};
use grindbot::io::{Filesystem, FsError};
use grindbot::merge_lock::{merge_lock_path, MergeLock, MergeLockError};

struct MemFs {
    files: HashMap<String, String>,
    fail: bool,
}

impl Filesystem for MemFs {
    fn read_to_string(&self, path: &str) -> Result<String, FsError> {
        self.files.get(path).cloned().ok_or(FsError { message: "missing".into() })
    }
    fn write(&mut self, path: &str, content: &str) -> Result<(), FsError> {
        self.files.insert(path.into(), content.into());
        Ok(())
    }
    fn try_create_exclusive(&mut self, path: &str, content: &str) -> Result<bool, FsError> {
        if self.fail {
            return Err(FsError { message: "disk full".into() });
        }
        if self.files.contains_key(path) {
            return Ok(false);
        }
        self.write(path, content)?;
        Ok(true)
    }
    fn path_exists(&self, path: &str) -> bool {
        self.files.contains_key(path)
    }
    fn remove_dir_all(&mut self, path: &str) -> Result<(), FsError> {
        self.files.remove(path);
        Ok(())
    }
    fn remove_file(&mut self, path: &str) -> Result<(), FsError> {
        self.files.remove(path);
        Ok(())
    }
    fn create_dir_all(&mut self, _path: &str) -> Result<(), FsError> {
        Ok(())
    }
}

#[test]
fn lock_is_exclusive_until_released() {
    let mut fs = MemFs { files: HashMap::new(), fail: false };
    assert_eq!(merge_lock_path("/repo"), "/repo/.grindbot/merge.lock");
    let lock = MergeLock::acquire(&mut fs, "/repo", "{\"ticket\":1}").unwrap();
    assert_eq!(lock.path(), "/repo/.grindbot/merge.lock");
    match MergeLock::acquire(&mut fs, "/repo", "{\"ticket\":2}") {
        Err(MergeLockError::Held { holder }) => assert_eq!(holder, "{\"ticket\":1}"),
        _ => panic!("expected the lock to be held"),
    }
    lock.release(&mut fs).unwrap();
    assert!(MergeLock::acquire(&mut fs, "/repo", "{\"ticket\":3}").is_ok());
}

#[test]
fn lock_failure_is_reported() {
    let mut fs = MemFs { files: HashMap::new(), fail: true };
    assert!(matches!(MergeLock::acquire(&mut fs, "/repo", "x"), Err(MergeLockError::Fs(_))));
}

#[test]
fn bad_creation_time_is_reported_first() {
    assert_eq!(
        issue_from_gh(1, "t".into(), "b".into(), "a".into(), "nope", "also nope").unwrap_err(),
        GhIssueError::BadCreatedAt
    );
}

#[test]
fn lock_outcomes() {
    assert_eq!(MergeLock::outcome("/p".into(), Ok(true), None).unwrap().path(), "/p");
    match MergeLock::outcome("/p".into(), Ok(false), None) {
        Err(MergeLockError::Held { holder }) => assert_eq!(holder, "unknown owner"),
        _ => panic!("expected held"),
    }
    match MergeLock::outcome("/p".into(), Ok(false), Some("owner x".into())) {
        Err(MergeLockError::Held { holder }) => assert_eq!(holder, "owner x"),
        _ => panic!("expected held"),
    }
    match MergeLock::outcome("/p".into(), Err(FsError { message: "boom".into() }), None) {
        Err(MergeLockError::Fs(e)) => assert_eq!(e.message, "boom"),
        _ => panic!("expected fs error"),
    }
}

#[test]
fn held_lock_message_names_the_holder() {
    let mut fs = MemFs { files: HashMap::new(), fail: false };
    let _lock = MergeLock::acquire(&mut fs, "/repo", "owner-a").unwrap();
    match MergeLock::acquire(&mut fs, "/repo", "owner-b") {
        Err(e) => assert_eq!(e.message(), "merge lock is held: owner-a"),
        Ok(_) => panic!("expected the lock to be held"),
    }
    assert_eq!(fs.files.get("/repo/.grindbot/merge.lock").unwrap(), "owner-a");
    assert_eq!(fs.files.len(), 1);
    let unknown = MergeLockError::Held { holder: "unknown owner".into() };
    assert_eq!(unknown.message(), "merge lock is held: unknown owner");
    let fs_error = MergeLockError::Fs(FsError { message: "disk full".into() });
    assert_eq!(fs_error.message(), "disk full");
}

#[test]
fn release_restores_the_files() {
    let mut fs = MemFs { files: HashMap::new(), fail: false };
    fs.files.insert("/repo/other".into(), "x".into());
    let before = fs.files.clone();
    let lock = MergeLock::acquire(&mut fs, "/repo", "me").unwrap();
    assert_eq!(fs.files.len(), 2);
    lock.release(&mut fs).unwrap();
    assert_eq!(fs.files, before);
}
