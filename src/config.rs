use vstd::prelude::*;

use crate::text::join2;
use crate::tools::join_path_spec;

verus! {

pub const DEFAULT_MODEL: &'static str = "qwen3:4b-instruct-2507-q4_K_M";

pub const DEFAULT_BASE_URL: &'static str = "http://localhost:11434";

/// The settings of the agent loop and of its model backend.
#[derive(Debug)]
pub struct AgentConfig {
    pub model: String,
    pub base_url: String,
    pub max_iterations: usize,
    pub max_llm_retries: usize,
    pub max_tool_calls: usize,
}

impl Clone for AgentConfig {
    fn clone(&self) -> (r: Self)
        ensures
            r == *self,
    {
        AgentConfig {
            model: self.model.clone(),
            base_url: self.base_url.clone(),
            max_iterations: self.max_iterations,
            max_llm_retries: self.max_llm_retries,
            max_tool_calls: self.max_tool_calls,
        }
    }
}

impl Default for AgentConfig {
    fn default() -> (r: Self)
        ensures
            r.model@ == DEFAULT_MODEL@,
            r.base_url@ == DEFAULT_BASE_URL@,
            r.max_iterations == 10,
            r.max_llm_retries == 3,
            r.max_tool_calls == 5,
    {
        AgentConfig {
            model: DEFAULT_MODEL.to_string(),
            base_url: DEFAULT_BASE_URL.to_string(),
            max_iterations: 10,
            max_llm_retries: 3,
            max_tool_calls: 5,
        }
    }
}

/// Relies on `dirs::home_dir`: the user's home directory, where one is known.
/// What it gives depends on the environment, so nothing is said of it.
#[verifier::external_body]
fn home_dir() -> (r: Option<String>) {
    dirs::home_dir().map(|p| p.to_string_lossy().into_owned())
}

/// The directory that the program keeps its files under, inside `home`.
pub open spec fn data_dir_spec(home: Seq<char>) -> Seq<char> {
    join_path_spec(home, ".brk"@)
}

/// Appends a relative path to a base, as a path join does.
pub fn join_path(base: &str, rel: &str) -> (r: String)
    ensures
        r@ == join_path_spec(base@, rel@),
{
    let n = base.unicode_len();
    if n == 0 {
        rel.to_string()
    } else if base.get_char(n - 1) == '/' {
        join2(base, rel)
    } else {
        let with_sep = join2(base, "/");
        join2(with_sep.as_str(), rel)
    }
}

/// The user's home directory, or the current directory where none is known.
fn home_or_current() -> (r: String) {
    match home_dir() {
        Some(h) => h,
        None => ".".to_string(),
    }
}

/// Where the prompt fragments and the files of the file tools live.
#[derive(Debug)]
pub struct WorkspaceConfig {
    pub root: String,
    pub agent_file: String,
    pub soul_file: String,
    pub user_file: String,
}

impl WorkspaceConfig {
    /// The workspace under the home directory `home`.
    pub fn under_home(home: &str) -> (r: WorkspaceConfig)
        ensures
            r.root@ == join_path_spec(data_dir_spec(home@), "workspace"@),
            r.agent_file@ == join_path_spec(r.root@, "AGENT.md"@),
            r.soul_file@ == join_path_spec(r.root@, "SOUL.md"@),
            r.user_file@ == join_path_spec(r.root@, "USER.md"@),
    {
        let data = join_path(home, ".brk");
        let root = join_path(data.as_str(), "workspace");
        let agent_file = join_path(root.as_str(), "AGENT.md");
        let soul_file = join_path(root.as_str(), "SOUL.md");
        let user_file = join_path(root.as_str(), "USER.md");
        WorkspaceConfig { root, agent_file, soul_file, user_file }
    }
}

impl Default for WorkspaceConfig {
    fn default() -> (r: Self)
        ensures
            exists|home: Seq<char>| r.root@ == join_path_spec(data_dir_spec(home), "workspace"@),
            r.agent_file@ == join_path_spec(r.root@, "AGENT.md"@),
            r.soul_file@ == join_path_spec(r.root@, "SOUL.md"@),
            r.user_file@ == join_path_spec(r.root@, "USER.md"@),
    {
        let home = home_or_current();
        WorkspaceConfig::under_home(home.as_str())
    }
}

/// Where sessions are stored.
#[derive(Debug)]
pub struct SessionConfig {
    pub storage_path: String,
    pub auto_save: bool,
}

impl SessionConfig {
    /// The session store under the home directory `home`.
    pub fn under_home(home: &str) -> (r: SessionConfig)
        ensures
            r.storage_path@ == join_path_spec(data_dir_spec(home@), "sessions"@),
            r.auto_save,
    {
        let data = join_path(home, ".brk");
        SessionConfig { storage_path: join_path(data.as_str(), "sessions"), auto_save: true }
    }
}

impl Default for SessionConfig {
    fn default() -> (r: Self)
        ensures
            exists|home: Seq<char>| r.storage_path@ == join_path_spec(data_dir_spec(home), "sessions"@),
            r.auto_save,
    {
        let home = home_or_current();
        SessionConfig::under_home(home.as_str())
    }
}

/// All settings together.
#[derive(Debug)]
pub struct Config {
    pub agent: AgentConfig,
    pub workspace: WorkspaceConfig,
    pub session: SessionConfig,
}

impl Default for Config {
    fn default() -> (r: Self)
        ensures
            r.agent.max_iterations == 10,
            r.agent.max_llm_retries == 3,
            r.agent.max_tool_calls == 5,
            r.workspace.agent_file@ == join_path_spec(r.workspace.root@, "AGENT.md"@),
            r.session.auto_save,
    {
        Config {
            agent: AgentConfig::default(),
            workspace: WorkspaceConfig::default(),
            session: SessionConfig::default(),
        }
    }
}

impl Config {
    /// The path of the configuration file under the home directory `home`.
    pub fn file_under_home(home: &str) -> (r: String)
        ensures
            r@ == join_path_spec(data_dir_spec(home@), "config.toml"@),
    {
        let data = join_path(home, ".brk");
        join_path(data.as_str(), "config.toml")
    }
}

} // verus!
