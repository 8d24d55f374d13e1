use grindbot::config::{Config, GithubConfig, PolytokenConfig, SupervisorConfig, WorkspaceConfig};

fn valid_config() -> Config {
    Config {
        github: GithubConfig {
            owner: "owner".to_string(),
            repo: "repo".to_string(),
            allowlist: vec!["alice".to_string()],
        },
        supervisor: SupervisorConfig {
            max_parallelism: 2,
            poll_interval_secs: 30,
            base_branch: "main".to_string(),
            merge_lock_timeout_secs: 1800,
            final_check_command: None,
            stall_threshold_cycles: 5,
            log_interval_secs: 300,
        },
        polytoken: PolytokenConfig { binary: "polytoken".to_string(), max_tool_turns: 200 },
        workspace: WorkspaceConfig {
            prefix: "grindbot".to_string(),
            workspaces_dir: ".grindbot-workspaces".to_string(),
        },
    }
}

fn error_text(cfg: &Config) -> String {
    cfg.validate().unwrap_err().message()
}

#[test]
fn test_config_validation_valid_config() {
    assert!(valid_config().validate().is_ok());
}

#[test]
fn test_config_validation_empty_owner() {
    let mut cfg = valid_config();
    cfg.github.owner = String::new();
    let err = error_text(&cfg);
    assert!(err.contains("[github] owner"), "got: {err}");
}

#[test]
fn test_config_validation_empty_repo() {
    let mut cfg = valid_config();
    cfg.github.repo = String::new();
    let err = error_text(&cfg);
    assert!(err.contains("[github] repo"), "got: {err}");
}

#[test]
fn test_config_validation_empty_allowlist() {
    let mut cfg = valid_config();
    cfg.github.allowlist = vec![];
    let err = error_text(&cfg);
    assert!(err.contains("[github] allowlist"), "got: {err}");
}

#[test]
fn test_config_validation_zero_parallelism() {
    let mut cfg = valid_config();
    cfg.supervisor.max_parallelism = 0;
    let err = error_text(&cfg);
    assert!(err.contains("max_parallelism"), "got: {err}");
}

#[test]
fn test_config_validation_zero_poll_interval() {
    let mut cfg = valid_config();
    cfg.supervisor.poll_interval_secs = 0;
    let err = error_text(&cfg);
    assert!(err.contains("poll_interval_secs"), "got: {err}");
}

#[test]
fn test_config_validation_empty_base_branch() {
    let mut cfg = valid_config();
    cfg.supervisor.base_branch = String::new();
    let err = error_text(&cfg);
    assert!(err.contains("base_branch"), "got: {err}");
}

#[test]
fn test_config_validation_empty_prefix() {
    let mut cfg = valid_config();
    cfg.workspace.prefix = String::new();
    let err = error_text(&cfg);
    assert!(err.contains("[workspace] prefix"), "got: {err}");
}

#[test]
fn test_stall_threshold_default() {
    let config = Config::default();
    assert_eq!(config.supervisor.stall_threshold_cycles, 5);
}

#[test]
fn test_stall_threshold_validation() {
    let mut cfg = valid_config();
    cfg.supervisor.stall_threshold_cycles = 0;
    let err = error_text(&cfg);
    assert!(err.contains("stall_threshold_cycles"), "got: {err}");
}

#[test]
fn test_log_interval_default() {
    let config = Config::default();
    assert_eq!(config.supervisor.log_interval_secs, 300);
}

#[test]
fn test_log_interval_validation() {
    let mut cfg = valid_config();
    cfg.supervisor.log_interval_secs = 0;
    let err = error_text(&cfg);
    assert!(err.contains("log_interval_secs"), "got: {err}");
}

#[test]
fn default_config_values() {
    let c = Config::default();
    assert_eq!(c.supervisor.max_parallelism, 2);
    assert_eq!(c.supervisor.poll_interval_secs, 30);
    assert_eq!(c.supervisor.base_branch, "main");
    assert_eq!(c.supervisor.merge_lock_timeout_secs, 1800);
    assert_eq!(c.polytoken.binary, "polytoken");
    assert_eq!(c.workspace.prefix, "grindbot");
    assert_eq!(c.workspace.workspaces_dir, ".grindbot-workspaces");
}

#[test]
fn workspace_name_is_prefix_dash_number() {
    assert_eq!(valid_config().workspace_name(42), "grindbot-42");
    assert_eq!(valid_config().workspace_name(0), "grindbot-0");
    let mut c = valid_config();
    c.workspace.prefix = "custom".to_string();
    assert_eq!(c.workspace_name(1234567), "custom-1234567");
}

#[test]
fn first_failing_check_is_reported() {
    let mut cfg = valid_config();
    cfg.github.owner = String::new();
    cfg.github.repo = String::new();
    assert!(error_text(&cfg).contains("[github] owner"));
}

#[test]
fn duplicate_keeps_every_setting() {
    let c = valid_config();
    let d = c.duplicate();
    assert_eq!(d.github.allowlist, c.github.allowlist);
    assert_eq!(d.supervisor.base_branch, c.supervisor.base_branch);
    assert_eq!(d.workspace.workspaces_dir, c.workspace.workspaces_dir);
}
