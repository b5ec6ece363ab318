//! Structured observability events.

use vstd::prelude::*;

use crate::chat::{ChatRequest, ChatResponse, RequestView, ResponseView};
use crate::common::{duplicate_option, view_of, Duplicate};

verus! {

/// Selects which [`TelemetryEvent`] values a session emits.
///
/// Payload fields are opt-in. [`TelemetryConfig::tools`] records tool-call metadata without
/// argument or result payloads, while [`TelemetryConfig::all`] captures full tool and model
/// payloads.
#[derive(Clone, Copy, Debug, PartialEq, Eq, Structural)]
pub struct TelemetryConfig {
    /// Emit user and assistant message events, including message text.
    pub messages: bool,
    /// Emit tool-call metadata.
    pub tool_calls: bool,
    /// Include tool arguments and tool result content.
    pub tool_payloads: bool,
    /// Emit provider/model request and response metadata.
    pub model_metadata: bool,
    /// Include full model request and response payloads.
    pub model_payloads: bool,
}

/// Structured observability events emitted by a session. Content fields hold text only.
#[derive(Debug, PartialEq, Eq)]
pub enum TelemetryEvent {
    /// A user message was added to the session.
    UserMessage { turn_id: u64, content_len: usize, content: Option<String> },
    /// An assistant message was added to the session.
    AssistantMessage {
        turn_id: u64,
        content_len: usize,
        tool_calls: usize,
        content: Option<String>,
    },
    /// A tool result message was added to the session.
    ToolMessage {
        turn_id: u64,
        tool_call_id: String,
        name: String,
        content_len: usize,
        content: Option<String>,
    },
    /// A provider request is being sent.
    ModelRequest {
        provider: String,
        model: String,
        message_count: usize,
        tool_count: usize,
        request: Option<ChatRequest>,
    },
    /// A provider response was received and parsed.
    ModelResponse {
        provider: String,
        model: String,
        content_len: usize,
        tool_calls: usize,
        response: Option<ChatResponse>,
    },
    /// A tool call is starting.
    ToolCallStarted {
        tool_call_id: String,
        name: String,
        arguments_len: usize,
        arguments: Option<String>,
    },
    /// A tool call finished successfully.
    ToolCallFinished {
        tool_call_id: String,
        name: String,
        content_len: usize,
        content: Option<String>,
    },
    /// A tool call failed.
    ToolCallFailed { tool_call_id: String, name: String, error: String },
}

/// The model of a [`TelemetryEvent`].
pub enum TelemetryView {
    UserMessage { turn_id: u64, content_len: usize, content: Option<Seq<char>> },
    AssistantMessage {
        turn_id: u64,
        content_len: usize,
        tool_calls: usize,
        content: Option<Seq<char>>,
    },
    ToolMessage {
        turn_id: u64,
        tool_call_id: Seq<char>,
        name: Seq<char>,
        content_len: usize,
        content: Option<Seq<char>>,
    },
    ModelRequest {
        provider: Seq<char>,
        model: Seq<char>,
        message_count: usize,
        tool_count: usize,
        request: Option<RequestView>,
    },
    ModelResponse {
        provider: Seq<char>,
        model: Seq<char>,
        content_len: usize,
        tool_calls: usize,
        response: Option<ResponseView>,
    },
    ToolCallStarted {
        tool_call_id: Seq<char>,
        name: Seq<char>,
        arguments_len: usize,
        arguments: Option<Seq<char>>,
    },
    ToolCallFinished {
        tool_call_id: Seq<char>,
        name: Seq<char>,
        content_len: usize,
        content: Option<Seq<char>>,
    },
    ToolCallFailed { tool_call_id: Seq<char>, name: Seq<char>, error: Seq<char> },
}

impl View for TelemetryEvent {
    type V = TelemetryView;

    open spec fn view(&self) -> TelemetryView {
        match self {
            TelemetryEvent::UserMessage { turn_id, content_len, content } =>
            TelemetryView::UserMessage {
                turn_id: *turn_id,
                content_len: *content_len,
                content: view_of(*content),
            },
            TelemetryEvent::AssistantMessage { turn_id, content_len, tool_calls, content } =>
            TelemetryView::AssistantMessage {
                turn_id: *turn_id,
                content_len: *content_len,
                tool_calls: *tool_calls,
                content: view_of(*content),
            },
            TelemetryEvent::ToolMessage { turn_id, tool_call_id, name, content_len, content } =>
            TelemetryView::ToolMessage {
                turn_id: *turn_id,
                tool_call_id: tool_call_id@,
                name: name@,
                content_len: *content_len,
                content: view_of(*content),
            },
            TelemetryEvent::ModelRequest { provider, model, message_count, tool_count, request } =>
            TelemetryView::ModelRequest {
                provider: provider@,
                model: model@,
                message_count: *message_count,
                tool_count: *tool_count,
                request: view_of(*request),
            },
            TelemetryEvent::ModelResponse {
                provider,
                model,
                content_len,
                tool_calls,
                response,
            } => TelemetryView::ModelResponse {
                provider: provider@,
                model: model@,
                content_len: *content_len,
                tool_calls: *tool_calls,
                response: view_of(*response),
            },
            TelemetryEvent::ToolCallStarted { tool_call_id, name, arguments_len, arguments } =>
            TelemetryView::ToolCallStarted {
                tool_call_id: tool_call_id@,
                name: name@,
                arguments_len: *arguments_len,
                arguments: view_of(*arguments),
            },
            TelemetryEvent::ToolCallFinished { tool_call_id, name, content_len, content } =>
            TelemetryView::ToolCallFinished {
                tool_call_id: tool_call_id@,
                name: name@,
                content_len: *content_len,
                content: view_of(*content),
            },
            TelemetryEvent::ToolCallFailed { tool_call_id, name, error } =>
            TelemetryView::ToolCallFailed {
                tool_call_id: tool_call_id@,
                name: name@,
                error: error@,
            },
        }
    }
}

impl Duplicate for TelemetryEvent {
    fn duplicate(&self) -> (copy: Self) {
        match self {
            TelemetryEvent::UserMessage { turn_id, content_len, content } =>
            TelemetryEvent::UserMessage {
                turn_id: *turn_id,
                content_len: *content_len,
                content: duplicate_option(content),
            },
            TelemetryEvent::AssistantMessage { turn_id, content_len, tool_calls, content } =>
            TelemetryEvent::AssistantMessage {
                turn_id: *turn_id,
                content_len: *content_len,
                tool_calls: *tool_calls,
                content: duplicate_option(content),
            },
            TelemetryEvent::ToolMessage { turn_id, tool_call_id, name, content_len, content } =>
            TelemetryEvent::ToolMessage {
                turn_id: *turn_id,
                tool_call_id: tool_call_id.clone(),
                name: name.clone(),
                content_len: *content_len,
                content: duplicate_option(content),
            },
            TelemetryEvent::ModelRequest { provider, model, message_count, tool_count, request } =>
            TelemetryEvent::ModelRequest {
                provider: provider.clone(),
                model: model.clone(),
                message_count: *message_count,
                tool_count: *tool_count,
                request: duplicate_option(request),
            },
            TelemetryEvent::ModelResponse {
                provider,
                model,
                content_len,
                tool_calls,
                response,
            } => TelemetryEvent::ModelResponse {
                provider: provider.clone(),
                model: model.clone(),
                content_len: *content_len,
                tool_calls: *tool_calls,
                response: duplicate_option(response),
            },
            TelemetryEvent::ToolCallStarted { tool_call_id, name, arguments_len, arguments } =>
            TelemetryEvent::ToolCallStarted {
                tool_call_id: tool_call_id.clone(),
                name: name.clone(),
                arguments_len: *arguments_len,
                arguments: duplicate_option(arguments),
            },
            TelemetryEvent::ToolCallFinished { tool_call_id, name, content_len, content } =>
            TelemetryEvent::ToolCallFinished {
                tool_call_id: tool_call_id.clone(),
                name: name.clone(),
                content_len: *content_len,
                content: duplicate_option(content),
            },
            TelemetryEvent::ToolCallFailed { tool_call_id, name, error } =>
            TelemetryEvent::ToolCallFailed {
                tool_call_id: tool_call_id.clone(),
                name: name.clone(),
                error: error.clone(),
            },
        }
    }
}

impl Clone for TelemetryEvent {
    fn clone(&self) -> (copy: Self)
        ensures
            copy@ == self@,
    {
        self.duplicate()
    }
}

/// Whether `config` asks for `event`.
pub open spec fn wants_telemetry(config: TelemetryConfig, event: TelemetryView) -> bool {
    match event {
        TelemetryView::UserMessage { .. } => config.messages,
        TelemetryView::AssistantMessage { .. } => config.messages,
        TelemetryView::ToolMessage { .. } => config.tool_calls || config.tool_payloads,
        TelemetryView::ModelRequest { .. } => config.model_metadata || config.model_payloads,
        TelemetryView::ModelResponse { .. } => config.model_metadata || config.model_payloads,
        TelemetryView::ToolCallStarted { .. } => config.tool_calls || config.tool_payloads,
        TelemetryView::ToolCallFinished { .. } => config.tool_calls || config.tool_payloads,
        TelemetryView::ToolCallFailed { .. } => config.tool_calls || config.tool_payloads,
    }
}

/// No telemetry at all.
pub open spec fn no_telemetry() -> TelemetryConfig {
    TelemetryConfig {
        messages: false,
        tool_calls: false,
        tool_payloads: false,
        model_metadata: false,
        model_payloads: false,
    }
}

impl Default for TelemetryConfig {
    fn default() -> (config: Self)
        ensures
            config == no_telemetry(),
    {
        TelemetryConfig {
            messages: false,
            tool_calls: false,
            tool_payloads: false,
            model_metadata: false,
            model_payloads: false,
        }
    }
}

impl TelemetryConfig {
    /// Disable all telemetry.
    pub fn none() -> (config: Self)
        ensures
            config == no_telemetry(),
    {
        Self::default()
    }

    /// Capture user and assistant message events.
    pub fn messages() -> (config: Self)
        ensures
            config == (TelemetryConfig { messages: true, ..no_telemetry() }),
    {
        let mut config = Self::default();
        config.messages = true;
        config
    }

    /// Capture message and tool-call metadata, without tool payloads.
    pub fn tools() -> (config: Self)
        ensures
            config == (TelemetryConfig { messages: true, tool_calls: true, ..no_telemetry() }),
    {
        let mut config = Self::default();
        config.messages = true;
        config.tool_calls = true;
        config
    }

    /// Capture all telemetry, including model and tool payloads.
    pub fn all() -> (config: Self)
        ensures
            config == (TelemetryConfig {
                messages: true,
                tool_calls: true,
                tool_payloads: true,
                model_metadata: true,
                model_payloads: true,
            }),
    {
        TelemetryConfig {
            messages: true,
            tool_calls: true,
            tool_payloads: true,
            model_metadata: true,
            model_payloads: true,
        }
    }

    /// Whether this configuration enables a telemetry stream.
    pub fn is_enabled(&self) -> (b: bool)
        ensures
            b == (*self != no_telemetry()),
    {
        self.messages || self.tool_calls || self.tool_payloads || self.model_metadata
            || self.model_payloads
    }

    /// Whether this configuration asks for `event`.
    pub fn should_emit(&self, event: &TelemetryEvent) -> (b: bool)
        ensures
            b == wants_telemetry(*self, event@),
    {
        match event {
            TelemetryEvent::UserMessage { .. } => self.messages,
            TelemetryEvent::AssistantMessage { .. } => self.messages,
            TelemetryEvent::ToolMessage { .. } => self.tool_calls || self.tool_payloads,
            TelemetryEvent::ModelRequest { .. } => self.model_metadata || self.model_payloads,
            TelemetryEvent::ModelResponse { .. } => self.model_metadata || self.model_payloads,
            TelemetryEvent::ToolCallStarted { .. } => self.tool_calls || self.tool_payloads,
            TelemetryEvent::ToolCallFinished { .. } => self.tool_calls || self.tool_payloads,
            TelemetryEvent::ToolCallFailed { .. } => self.tool_calls || self.tool_payloads,
        }
    }
}

/// Whether an event carries a tool's arguments or output, or a model's request or response.
pub open spec fn carries_payload(event: TelemetryView) -> bool {
    match event {
        TelemetryView::UserMessage { .. } => false,
        TelemetryView::AssistantMessage { .. } => false,
        TelemetryView::ToolMessage { content, .. } => content is Some,
        TelemetryView::ModelRequest { request, .. } => request is Some,
        TelemetryView::ModelResponse { response, .. } => response is Some,
        TelemetryView::ToolCallStarted { arguments, .. } => arguments is Some,
        TelemetryView::ToolCallFinished { content, .. } => content is Some,
        TelemetryView::ToolCallFailed { .. } => false,
    }
}

} // verus!
