//! Events of a streamed run.

use vstd::prelude::*;

use crate::chat::{CallView, ChatResponse, ResponseView, ToolCall};
use crate::common::Duplicate;
use crate::content::{ContentView, MessageContent};
use crate::value::{Json, Tree};

verus! {

/// Events across all model requests and tool rounds in one run.
/// Text deltas include intermediate assistant messages. `Completed` is the final answer.
#[derive(Debug, PartialEq, Eq)]
pub enum StreamEvent {
    ModelStarted,
    TextDelta { text: String },
    /// Provider-supplied reasoning, kept separate from visible assistant text.
    ReasoningDelta { text: String },
    ToolCallDelta { index: u64, delta: Json },
    /// Complete, validated model response, before any tools execute.
    ModelCompleted { response: ChatResponse },
    ToolStarted { call: ToolCall },
    ToolResult { tool_call_id: String, name: String, content: MessageContent },
    /// Emitted once, after successful completion and session history commit.
    Completed { response: ChatResponse },
}

/// The model of a [`StreamEvent`].
pub enum StreamView {
    ModelStarted,
    TextDelta { text: Seq<char> },
    ReasoningDelta { text: Seq<char> },
    ToolCallDelta { index: u64, delta: Tree },
    ModelCompleted { response: ResponseView },
    ToolStarted { call: CallView },
    ToolResult { tool_call_id: Seq<char>, name: Seq<char>, content: ContentView },
    Completed { response: ResponseView },
}

impl View for StreamEvent {
    type V = StreamView;

    open spec fn view(&self) -> StreamView {
        match self {
            StreamEvent::ModelStarted => StreamView::ModelStarted,
            StreamEvent::TextDelta { text } => StreamView::TextDelta { text: text@ },
            StreamEvent::ReasoningDelta { text } => StreamView::ReasoningDelta { text: text@ },
            StreamEvent::ToolCallDelta { index, delta } => StreamView::ToolCallDelta {
                index: *index,
                delta: delta@,
            },
            StreamEvent::ModelCompleted { response } => StreamView::ModelCompleted {
                response: response@,
            },
            StreamEvent::ToolStarted { call } => StreamView::ToolStarted { call: call@ },
            StreamEvent::ToolResult { tool_call_id, name, content } => StreamView::ToolResult {
                tool_call_id: tool_call_id@,
                name: name@,
                content: content@,
            },
            StreamEvent::Completed { response } => StreamView::Completed { response: response@ },
        }
    }
}

impl Duplicate for StreamEvent {
    fn duplicate(&self) -> (copy: Self) {
        match self {
            StreamEvent::ModelStarted => StreamEvent::ModelStarted,
            StreamEvent::TextDelta { text } => StreamEvent::TextDelta { text: text.clone() },
            StreamEvent::ReasoningDelta { text } => StreamEvent::ReasoningDelta {
                text: text.clone(),
            },
            StreamEvent::ToolCallDelta { index, delta } => StreamEvent::ToolCallDelta {
                index: *index,
                delta: delta.duplicate(),
            },
            StreamEvent::ModelCompleted { response } => StreamEvent::ModelCompleted {
                response: response.duplicate(),
            },
            StreamEvent::ToolStarted { call } => StreamEvent::ToolStarted {
                call: call.duplicate(),
            },
            StreamEvent::ToolResult { tool_call_id, name, content } => StreamEvent::ToolResult {
                tool_call_id: tool_call_id.clone(),
                name: name.clone(),
                content: content.duplicate(),
            },
            StreamEvent::Completed { response } => StreamEvent::Completed {
                response: response.duplicate(),
            },
        }
    }
}

impl Clone for StreamEvent {
    fn clone(&self) -> (copy: Self)
        ensures
            copy@ == self@,
    {
        self.duplicate()
    }
}

} // verus!
