use std::collections::HashMap;

use grindbot::config::Config;
use grindbot::io::{Filesystem, FsError};
use grindbot::prompt::{PERMISSIONS_YAML, STOP_HOOK_SCRIPT};
use grindbot::workspace::{
    cleanup_workspace, gitignore_update_for, setup_conflict_resolution_workspace, setup_workspace,
    workspace_path,
};

struct MockFilesystem {
    files: HashMap<String, String>,
    dirs: Vec<String>,
    removed: Vec<String>,
}

impl MockFilesystem {
    fn new() -> Self {
        MockFilesystem { files: HashMap::new(), dirs: vec![], removed: vec![] }
    }

    fn get(&self, path: &str) -> Option<String> {
        self.files.get(path).cloned()
    }
}

fn is_under(path: &str, dir: &str) -> bool {
    path == dir || (path.starts_with(dir) && path[dir.len()..].starts_with('/'))
}

impl Filesystem for MockFilesystem {
    fn read_to_string(&self, path: &str) -> Result<String, FsError> {
        self.get(path).ok_or_else(|| FsError { message: format!("not found: {}", path) })
    }

    fn write(&mut self, path: &str, content: &str) -> Result<(), FsError> {
        self.files.insert(path.to_string(), content.to_string());
        Ok(())
    }

    fn try_create_exclusive(&mut self, path: &str, content: &str) -> Result<bool, FsError> {
        if self.files.contains_key(path) {
            return Ok(false);
        }
        self.write(path, content)?;
        Ok(true)
    }

    fn path_exists(&self, path: &str) -> bool {
        self.files.keys().any(|f| is_under(f, path)) || self.dirs.iter().any(|d| is_under(d, path))
    }

    fn remove_dir_all(&mut self, path: &str) -> Result<(), FsError> {
        self.removed.push(path.to_string());
        self.files.retain(|f, _| !is_under(f, path));
        self.dirs.retain(|d| !is_under(d, path));
        Ok(())
    }

    fn remove_file(&mut self, path: &str) -> Result<(), FsError> {
        self.files.remove(path);
        Ok(())
    }

    fn create_dir_all(&mut self, path: &str) -> Result<(), FsError> {
        self.dirs.push(path.to_string());
        Ok(())
    }
}

#[test]
fn test_setup_workspace_creates_files() {
    let config = Config::default();
    let mut fs = MockFilesystem::new();
    let repo_path = "/tmp/test-repo";

    setup_workspace(&config, repo_path, 42, "abc123", &mut fs).unwrap();

    let base = fs.get("/tmp/test-repo/.grindbot-workspaces/grindbot-42/.grindbot/base_commit").unwrap();
    assert_eq!(base, "abc123");

    let hooks = fs.get("/tmp/test-repo/.grindbot-workspaces/grindbot-42/.polytoken/hooks.json").unwrap();
    assert!(hooks.contains("grindbot-gate"));
    assert!(hooks.contains("stop"));

    let perms = fs.get("/tmp/test-repo/.grindbot-workspaces/grindbot-42/.polytoken/permissions.yaml").unwrap();
    assert!(perms.contains("deny"));
    assert!(perms.contains("rm"));
    assert!(perms.contains("git"));
}

#[test]
fn test_workspace_setup_creates_all_files() {
    let config = Config::default();
    let mut fs = MockFilesystem::new();
    let repo_path = "/tmp/test-repo";

    let workspace_path = setup_workspace(&config, repo_path, 42, "abc123", &mut fs).unwrap();

    let base = fs.read_to_string(&format!("{}/.grindbot/base_commit", workspace_path)).unwrap();
    assert_eq!(base, "abc123");

    let hooks = fs.read_to_string(&format!("{}/.polytoken/hooks.json", workspace_path)).unwrap();
    assert!(hooks.contains("grindbot-gate"));
    assert!(hooks.contains("stop"));
    assert!(hooks.contains("bash"));

    let perms = fs.read_to_string(&format!("{}/.polytoken/permissions.yaml", workspace_path)).unwrap();
    assert!(perms.contains("deny"));
    assert!(perms.contains("rm"));
    assert!(perms.contains("git"));
    assert!(perms.contains("push"));
    assert!(perms.contains("jj"));
    assert!(perms.contains("abandon"));
    assert!(perms.contains(".grindbot"));
    assert!(perms.contains(".polytoken"));

    let gitignore = fs.read_to_string(&format!("{}/.gitignore", repo_path)).unwrap();
    assert!(gitignore.contains(".grindbot-workspaces"));
}

#[test]
fn test_workspace_setup_uses_config_prefix() {
    let mut config = Config::default();
    config.workspace.prefix = "custom".to_string();
    let mut fs = MockFilesystem::new();
    let workspace_path = setup_workspace(&config, "/repo", 7, "base", &mut fs).unwrap();
    assert!(workspace_path.contains("custom-7"));
    assert_eq!(workspace_path, "/repo/.grindbot-workspaces/custom-7");
}

#[test]
fn test_permissions_yaml_content() {
    assert!(PERMISSIONS_YAML.contains("version: 2"));
    assert!(PERMISSIONS_YAML.contains("flags_present"));
    assert!(PERMISSIONS_YAML.contains("-rf"));
    assert!(PERMISSIONS_YAML.contains("--recursive"));
    assert!(PERMISSIONS_YAML.contains("subcommand: push"));
    assert!(PERMISSIONS_YAML.contains("subcommand: git"));
    assert!(PERMISSIONS_YAML.contains("subcommand: abandon"));
}

#[test]
fn test_stop_hook_script_content() {
    assert!(STOP_HOOK_SCRIPT.contains("POLYTOKEN_PROJECT_DIR"));
    assert!(STOP_HOOK_SCRIPT.contains("result.json"));
    assert!(STOP_HOOK_SCRIPT.contains("handoff done --help"));
    assert!(STOP_HOOK_SCRIPT.contains("stop_counter"));
    assert!(STOP_HOOK_SCRIPT.contains(r#""outcome":"stop""#));
    assert!(STOP_HOOK_SCRIPT.contains(r#""outcome":"continue""#));
    assert!(STOP_HOOK_SCRIPT.contains("\"$COUNT\" -ge 3"));
}

#[test]
fn test_conflict_resolution_workspace_setup() {
    let mut fs = MockFilesystem::new();
    let workspace_path = "/tmp/test-ws";
    fs.create_dir_all(&format!("{}/.polytoken", workspace_path)).unwrap();
    setup_conflict_resolution_workspace(workspace_path, &mut fs).unwrap();
    let hooks = fs.read_to_string(&format!("{}/.polytoken/hooks.json", workspace_path)).unwrap();
    assert!(hooks.contains("grindbot-gate"));
    assert!(hooks.contains("stop"));
    assert!(!hooks.contains("continue"));
    let perms = fs.read_to_string(&format!("{}/.polytoken/permissions.yaml", workspace_path)).unwrap();
    assert_eq!(perms, PERMISSIONS_YAML);
}

#[test]
fn gitignore_is_appended_once() {
    let config = Config::default();
    let mut fs = MockFilesystem::new();
    fs.write("/r/.gitignore", "target").unwrap();
    setup_workspace(&config, "/r", 1, "b", &mut fs).unwrap();
    assert_eq!(fs.get("/r/.gitignore").unwrap(), "target\n.grindbot-workspaces\n");
    setup_workspace(&config, "/r", 2, "b", &mut fs).unwrap();
    assert_eq!(fs.get("/r/.gitignore").unwrap(), "target\n.grindbot-workspaces\n");
}

#[test]
fn gitignore_update_cases() {
    assert_eq!(gitignore_update_for("", ".w"), Some(".w\n".to_string()));
    assert_eq!(gitignore_update_for("a\n", ".w"), Some("a\n.w\n".to_string()));
    assert_eq!(gitignore_update_for("a", ".w"), Some("a\n.w\n".to_string()));
    assert_eq!(gitignore_update_for("a\n  .w  \n", ".w"), None);
    assert_eq!(gitignore_update_for(".w/\n", ".w"), Some(".w/\n.w\n".to_string()));
    let once = gitignore_update_for("x", ".w").unwrap();
    assert_eq!(gitignore_update_for(&once, ".w"), None);
}

#[test]
fn workspace_path_joins_like_pathbuf() {
    let config = Config::default();
    assert_eq!(workspace_path(&config, "/repo", 5), "/repo/.grindbot-workspaces/grindbot-5");
    assert_eq!(workspace_path(&config, "/repo/", 5), "/repo/.grindbot-workspaces/grindbot-5");
    let mut abs = Config::default();
    abs.workspace.workspaces_dir = "/abs".to_string();
    assert_eq!(workspace_path(&abs, "/repo", 5), "/abs/grindbot-5");
}

#[test]
fn cleanup_removes_existing_directory_only() {
    let config = Config::default();
    let mut fs = MockFilesystem::new();
    cleanup_workspace(&config, "ws", "/missing", &mut fs).unwrap();
    assert!(fs.removed.is_empty());
    fs.create_dir_all("/present").unwrap();
    cleanup_workspace(&config, "ws", "/present", &mut fs).unwrap();
    assert_eq!(fs.removed, vec!["/present".to_string()]);
}

#[test]
fn conflict_resolution_writes_only_its_two_files() {
    let mut fs = MockFilesystem::new();
    fs.write("/ws/.grindbot/base_commit", "base").unwrap();
    fs.write("/ws/.polytoken/hooks.json", "old hooks").unwrap();
    setup_conflict_resolution_workspace("/ws", &mut fs).unwrap();
    assert_eq!(fs.files.len(), 3);
    assert_eq!(fs.get("/ws/.grindbot/base_commit").unwrap(), "base");
    assert_ne!(fs.get("/ws/.polytoken/hooks.json").unwrap(), "old hooks");
    assert_eq!(fs.get("/ws/.polytoken/permissions.yaml").unwrap(), PERMISSIONS_YAML);
}

#[test]
fn setup_writes_exactly_the_workspace_files_and_gitignore() {
    let config = Config::default();
    let mut fs = MockFilesystem::new();
    let ws = setup_workspace(&config, "/tmp/test-repo", 42, "abc123", &mut fs).unwrap();
    assert_eq!(ws, "/tmp/test-repo/.grindbot-workspaces/grindbot-42");
    assert_eq!(fs.files.len(), 4);
    assert_eq!(fs.get("/tmp/test-repo/.gitignore").unwrap(), ".grindbot-workspaces\n");
    assert_eq!(fs.get(&format!("{}/.grindbot/base_commit", ws)).unwrap(), "abc123");
}

#[test]
fn cleanup_removes_everything_below_the_path() {
    let config = Config::default();
    let mut fs = MockFilesystem::new();
    fs.write("/w/a/.grindbot/result.json", "{}").unwrap();
    fs.write("/w/ab/file", "keep").unwrap();
    cleanup_workspace(&config, "a", "/w/a", &mut fs).unwrap();
    assert_eq!(fs.get("/w/a/.grindbot/result.json"), None);
    assert_eq!(fs.get("/w/ab/file").unwrap(), "keep");
}
