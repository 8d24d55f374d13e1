//! Supervisor configuration: schema, defaults and validation.

use vstd::prelude::*;
use crate::text::{decimal, push_all, chars_of, string_of};

verus! {

/// The whole configuration file.
#[derive(Clone, Debug)]
pub struct Config {
    pub github: GithubConfig,
    pub supervisor: SupervisorConfig,
    pub polytoken: PolytokenConfig,
    pub workspace: WorkspaceConfig,
}

/// `[github]`: the repository and the authors whose issues may be implemented.
#[derive(Clone, Debug)]
pub struct GithubConfig {
    pub owner: String,
    pub repo: String,
    pub allowlist: Vec<String>,
}

/// `[supervisor]`: loop and merge settings.
#[derive(Clone, Debug)]
pub struct SupervisorConfig {
    pub max_parallelism: usize,
    pub poll_interval_secs: u64,
    pub base_branch: String,
    pub merge_lock_timeout_secs: u64,
    pub final_check_command: Option<String>,
    pub stall_threshold_cycles: u32,
    /// Minimum seconds between routine info-level cycle summaries.
    pub log_interval_secs: u64,
}

/// `[polytoken]`: the agent executable.
#[derive(Clone, Debug)]
pub struct PolytokenConfig {
    pub binary: String,
    pub max_tool_turns: u32,
}

/// `[workspace]`: naming and placement of managed workspaces.
#[derive(Clone, Debug)]
pub struct WorkspaceConfig {
    pub prefix: String,
    pub workspaces_dir: String,
}

/// Default `max_parallelism`.
pub fn default_parallelism() -> (r: usize)
    ensures r == 2,
{
    2
}

/// Default `poll_interval_secs`.
pub fn default_poll_interval() -> (r: u64)
    ensures r == 30,
{
    30
}

/// Default `base_branch`.
pub fn default_base_branch() -> (r: String)
    ensures r@ == "main"@,
{
    String::from_str("main")
}

/// Default `merge_lock_timeout_secs`.
pub fn default_merge_lock_timeout_secs() -> (r: u64)
    ensures r == 1800,
{
    1800
}

/// Default polytoken `binary`.
pub fn default_polytoken_binary() -> (r: String)
    ensures r@ == "polytoken"@,
{
    String::from_str("polytoken")
}

/// Default `max_tool_turns`.
pub fn default_max_tool_turns() -> (r: u32)
    ensures r == 200,
{
    200
}

/// Default workspace `prefix`.
pub fn default_workspace_prefix() -> (r: String)
    ensures r@ == "grindbot"@,
{
    String::from_str("grindbot")
}

/// Default `workspaces_dir`.
pub fn default_workspaces_dir() -> (r: String)
    ensures r@ == ".grindbot-workspaces"@,
{
    String::from_str(".grindbot-workspaces")
}

/// Default `stall_threshold_cycles`.
pub fn default_stall_threshold_cycles() -> (r: u32)
    ensures r == 5,
{
    5
}

/// Default `log_interval_secs`.
pub fn default_log_interval_secs() -> (r: u64)
    ensures r == 300,
{
    300
}

/// The configuration that `Config::default()` yields: every defaulted field at its
/// default, an empty owner, repo and allowlist, and no final check command.
pub open spec fn is_default_config(c: Config) -> bool {
    &&& c.github.owner@.len() == 0
    &&& c.github.repo@.len() == 0
    &&& c.github.allowlist@.len() == 0
    &&& c.supervisor.max_parallelism == 2
    &&& c.supervisor.poll_interval_secs == 30
    &&& c.supervisor.base_branch@ == "main"@
    &&& c.supervisor.merge_lock_timeout_secs == 1800
    &&& c.supervisor.final_check_command is None
    &&& c.supervisor.stall_threshold_cycles == 5
    &&& c.supervisor.log_interval_secs == 300
    &&& c.polytoken.binary@ == "polytoken"@
    &&& c.polytoken.max_tool_turns == 200
    &&& c.workspace.prefix@ == "grindbot"@
    &&& c.workspace.workspaces_dir@ == ".grindbot-workspaces"@
}

/// A copy of a list of strings.
pub fn clone_strings(v: &Vec<String>) -> (r: Vec<String>)
    ensures
        r@ == v@,
{
    let mut r: Vec<String> = Vec::new();
    let mut i: usize = 0;
    while i < v.len()
        invariant
            i <= v.len(),
            r@ == v@.take(i as int),
        decreases v.len() - i,
    {
        r.push(v[i].clone());
        i = i + 1;
        assert(r@ =~= v@.take(i as int));
    }
    assert(v@.take(v.len() as int) =~= v@);
    r
}

/// Whether two configurations hold the same settings.
pub open spec fn same_config(a: Config, b: Config) -> bool {
    &&& a.github.owner == b.github.owner
    &&& a.github.repo == b.github.repo
    &&& a.github.allowlist@ == b.github.allowlist@
    &&& a.supervisor == b.supervisor
    &&& a.polytoken == b.polytoken
    &&& a.workspace == b.workspace
}

impl Config {
    /// An identical copy.
    pub fn duplicate(&self) -> (c: Config)
        ensures
            same_config(c, *self),
    {
        let fcc = match &self.supervisor.final_check_command {
            Some(s) => Some(s.clone()),
            None => None,
        };
        Config {
            github: GithubConfig {
                owner: self.github.owner.clone(),
                repo: self.github.repo.clone(),
                allowlist: clone_strings(&self.github.allowlist),
            },
            supervisor: SupervisorConfig {
                max_parallelism: self.supervisor.max_parallelism,
                poll_interval_secs: self.supervisor.poll_interval_secs,
                base_branch: self.supervisor.base_branch.clone(),
                merge_lock_timeout_secs: self.supervisor.merge_lock_timeout_secs,
                final_check_command: fcc,
                stall_threshold_cycles: self.supervisor.stall_threshold_cycles,
                log_interval_secs: self.supervisor.log_interval_secs,
            },
            polytoken: PolytokenConfig {
                binary: self.polytoken.binary.clone(),
                max_tool_turns: self.polytoken.max_tool_turns,
            },
            workspace: WorkspaceConfig {
                prefix: self.workspace.prefix.clone(),
                workspaces_dir: self.workspace.workspaces_dir.clone(),
            },
        }
    }
}

impl Default for Config {
    fn default() -> (c: Self)
        ensures
            is_default_config(c),
    {
        Config {
            github: GithubConfig { owner: String::new(), repo: String::new(), allowlist: Vec::new() },
            supervisor: SupervisorConfig {
                max_parallelism: default_parallelism(),
                poll_interval_secs: default_poll_interval(),
                base_branch: default_base_branch(),
                merge_lock_timeout_secs: default_merge_lock_timeout_secs(),
                final_check_command: None,
                stall_threshold_cycles: default_stall_threshold_cycles(),
                log_interval_secs: default_log_interval_secs(),
            },
            polytoken: PolytokenConfig {
                binary: default_polytoken_binary(),
                max_tool_turns: default_max_tool_turns(),
            },
            workspace: WorkspaceConfig {
                prefix: default_workspace_prefix(),
                workspaces_dir: default_workspaces_dir(),
            },
        }
    }
}

/// The reasons `Config::validate` rejects a configuration, in the order they are checked.
#[derive(Debug, PartialEq, Eq, Structural, Clone, Copy)]
pub enum ConfigError {
    EmptyOwner,
    EmptyRepo,
    EmptyAllowlist,
    ZeroParallelism,
    ZeroPollInterval,
    EmptyBaseBranch,
    ZeroStallThreshold,
    ZeroLogInterval,
    EmptyPrefix,
}

/// The message of each validation error.
pub open spec fn config_error_message(e: ConfigError) -> Seq<char> {
    match e {
        ConfigError::EmptyOwner => "[github] owner must not be empty"@,
        ConfigError::EmptyRepo => "[github] repo must not be empty"@,
        ConfigError::EmptyAllowlist => "[github] allowlist must contain at least one GitHub username"@,
        ConfigError::ZeroParallelism => "[supervisor] max_parallelism must be at least 1"@,
        ConfigError::ZeroPollInterval => "[supervisor] poll_interval_secs must be at least 1"@,
        ConfigError::EmptyBaseBranch => "[supervisor] base_branch must not be empty"@,
        ConfigError::ZeroStallThreshold => "[supervisor] stall_threshold_cycles must be at least 1"@,
        ConfigError::ZeroLogInterval => "[supervisor] log_interval_secs must be at least 1"@,
        ConfigError::EmptyPrefix => "[workspace] prefix must not be empty"@,
    }
}

impl ConfigError {
    /// The human-readable message of this error.
    pub fn message(&self) -> (m: String)
        ensures
            m@ == config_error_message(*self),
    {
        match self {
            ConfigError::EmptyOwner => String::from_str("[github] owner must not be empty"),
            ConfigError::EmptyRepo => String::from_str("[github] repo must not be empty"),
            ConfigError::EmptyAllowlist => String::from_str(
                "[github] allowlist must contain at least one GitHub username",
            ),
            ConfigError::ZeroParallelism => String::from_str(
                "[supervisor] max_parallelism must be at least 1",
            ),
            ConfigError::ZeroPollInterval => String::from_str(
                "[supervisor] poll_interval_secs must be at least 1",
            ),
            ConfigError::EmptyBaseBranch => String::from_str(
                "[supervisor] base_branch must not be empty",
            ),
            ConfigError::ZeroStallThreshold => String::from_str(
                "[supervisor] stall_threshold_cycles must be at least 1",
            ),
            ConfigError::ZeroLogInterval => String::from_str(
                "[supervisor] log_interval_secs must be at least 1",
            ),
            ConfigError::EmptyPrefix => String::from_str("[workspace] prefix must not be empty"),
        }
    }
}

/// The first rule that a configuration breaks, in the documented order, if any.
pub open spec fn validation_result(c: Config) -> Result<(), ConfigError> {
    if c.github.owner@.len() == 0 {
        Err(ConfigError::EmptyOwner)
    } else if c.github.repo@.len() == 0 {
        Err(ConfigError::EmptyRepo)
    } else if c.github.allowlist@.len() == 0 {
        Err(ConfigError::EmptyAllowlist)
    } else if c.supervisor.max_parallelism == 0 {
        Err(ConfigError::ZeroParallelism)
    } else if c.supervisor.poll_interval_secs == 0 {
        Err(ConfigError::ZeroPollInterval)
    } else if c.supervisor.base_branch@.len() == 0 {
        Err(ConfigError::EmptyBaseBranch)
    } else if c.supervisor.stall_threshold_cycles == 0 {
        Err(ConfigError::ZeroStallThreshold)
    } else if c.supervisor.log_interval_secs == 0 {
        Err(ConfigError::ZeroLogInterval)
    } else if c.workspace.prefix@.len() == 0 {
        Err(ConfigError::EmptyPrefix)
    } else {
        Ok(())
    }
}

/// The name of the managed workspace of an issue: the prefix, a hyphen and the number.
pub open spec fn workspace_name_of(prefix: Seq<char>, issue_number: u64) -> Seq<char> {
    prefix + seq!['-'] + decimal(issue_number as nat)
}

impl Config {
    /// Workspace name for a given issue number: e.g. "grindbot-42".
    pub fn workspace_name(&self, issue_number: u64) -> (name: String)
        ensures
            name@ == workspace_name_of(self.workspace.prefix@, issue_number),
    {
        let mut v = chars_of(self.workspace.prefix.as_str());
        v.push('-');
        let d = crate::text::decimal_chars(issue_number);
        push_all(&mut v, d.as_slice());
        string_of(v.as_slice())
    }

    /// Validate config fields. Pure data check.
    pub fn validate(&self) -> (r: Result<(), ConfigError>)
        ensures
            r == validation_result(*self),
    {
        if self.github.owner.as_str().is_empty() {
            return Err(ConfigError::EmptyOwner);
        }
        if self.github.repo.as_str().is_empty() {
            return Err(ConfigError::EmptyRepo);
        }
        if self.github.allowlist.len() == 0 {
            return Err(ConfigError::EmptyAllowlist);
        }
        if self.supervisor.max_parallelism == 0 {
            return Err(ConfigError::ZeroParallelism);
        }
        if self.supervisor.poll_interval_secs == 0 {
            return Err(ConfigError::ZeroPollInterval);
        }
        if self.supervisor.base_branch.as_str().is_empty() {
            return Err(ConfigError::EmptyBaseBranch);
        }
        if self.supervisor.stall_threshold_cycles == 0 {
            return Err(ConfigError::ZeroStallThreshold);
        }
        if self.supervisor.log_interval_secs == 0 {
            return Err(ConfigError::ZeroLogInterval);
        }
        if self.workspace.prefix.as_str().is_empty() {
            return Err(ConfigError::EmptyPrefix);
        }
        Ok(())
    }
}

} // verus!
