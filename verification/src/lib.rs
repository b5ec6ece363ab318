//! A small, extensible harness for OpenAI-compatible LLM agents.

pub mod agent;
pub mod agent_laws;
pub mod chat;
pub mod common;
pub mod content;
pub mod error;
pub mod json;
pub mod json_value;
pub mod macro_laws;
pub mod macros;
pub mod message_laws;
pub mod path;
pub mod path_laws;
pub mod provider;
pub mod report_laws;
pub mod secrets;
pub mod session;
pub mod state;
pub mod streaming;
pub mod text;
pub mod text_laws;
pub mod tools;
pub mod url_text;
pub mod utf8;
pub mod value;

pub use chat::{
    ChatMessage, ChatRequest, ChatResponse, MessageRole, ReasoningConfig, ReasoningPayload,
    ToolCall, ToolCallFunction,
};
pub use content::{
    ContentPart, FileInput, ImageDetail, ImageUrl, InputAudio, MessageContent, VideoUrl,
};
pub use error::{Error, Result};
pub use provider::{ApiKeyRef, ChatProvider, ModelCapabilities, ProviderConfig, ProviderKind};
pub use secrets::SecretStore;
pub use session::{
    AgentEvent, ChatSession, CompactionConfig, ContextUsage, ContextUsageBreakdown,
    NotificationConfig, SessionConfig, SessionTurn, TelemetryConfig, TelemetryEvent, ToolCallUsage,
};
pub use state::AgentState;
pub use tools::builtin::{
    apply_patch_tool, builtin_registry, builtin_registry_for_provider, create_file_tool,
    delete_file_tool, read_tool, read_tool_with_capabilities, ripgrep_tool,
};
pub use tools::file::{ApplyPatchArgs, CreateFileArgs, DeleteFileArgs, ReadArgs, RgArgs};
pub use tools::media::READ_MAX_MEDIA_BYTES;
pub use tools::{FunctionToolDefinition, Tool, ToolDefinition, ToolRegistry, ToolResult};
