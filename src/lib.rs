pub mod agent;
pub mod catalog;
pub mod config;
pub mod context;
pub mod web;
pub mod llm;
pub mod message;
pub mod session;
pub mod text;
pub mod time;
pub mod tools;

pub use agent::{Agent, ChatAction, ChatEvent, ChatPhase, ChatRun};
pub use catalog::{get_tools_static, FunctionDefinition, ParamSpec, ParameterSchema, Tool};
pub use config::{AgentConfig, Config, SessionConfig, WorkspaceConfig};
pub use context::{Context, ContextView, PromptSources};
pub use web::{html_to_text, search_digest, SearchItem};
pub use llm::{backoff_delay_ms, reply_outcome, LlmClient, OllamaRequest, OllamaResponse, RetryStep};
pub use message::{FunctionCall, Message, MessageView, Role, ToolArguments, ToolCall};
pub use session::{Session, SessionError, SessionManager, SessionMetadata, SessionRecord};
pub use time::Timestamp;
pub use tools::{
    ArgField, CallPlan, FsTools, ToolError, ToolExecutor, ToolRegistry, ToolRequest,
};
