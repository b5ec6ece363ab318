//! One persisted turn of a session.

use vstd::prelude::*;

use crate::chat::{ChatMessage, MessageRole, ReasoningPayload, ToolCall};
use crate::chat::{no_reasoning, some_reasoning, CallView, MessageView, ReasoningView};
use crate::common::{duplicate_all, duplicate_option, view_of, views, Duplicate};
use crate::content::{ContentView, MessageContent};
use crate::json::{JsonText, JsonView};

verus! {

/// One persisted turn in a [`crate::session::ChatSession`].
///
/// This is the session-side representation of a chat message. It keeps provider reasoning payloads,
/// annotations and tool-call metadata intact so the conversation can be replayed to providers that
/// support preserved reasoning or tool-call continuations.
#[derive(Debug, PartialEq, Eq)]
pub struct SessionTurn {
    pub id: u64,
    pub role: MessageRole,
    pub content: MessageContent,
    pub annotations: Vec<JsonText>,
    pub reasoning: Option<ReasoningPayload>,
    pub tool_calls: Vec<ToolCall>,
    pub tool_call_id: Option<String>,
    pub name: Option<String>,
}

/// The model of a [`SessionTurn`].
pub struct TurnView {
    pub id: u64,
    pub role: MessageRole,
    pub content: ContentView,
    pub annotations: Seq<JsonView>,
    pub reasoning: Option<ReasoningView>,
    pub tool_calls: Seq<CallView>,
    pub tool_call_id: Option<Seq<char>>,
    pub name: Option<Seq<char>>,
}

impl View for SessionTurn {
    type V = TurnView;

    open spec fn view(&self) -> TurnView {
        TurnView {
            id: self.id,
            role: self.role,
            content: self.content@,
            annotations: views(self.annotations@),
            reasoning: view_of(self.reasoning),
            tool_calls: views(self.tool_calls@),
            tool_call_id: view_of(self.tool_call_id),
            name: view_of(self.name),
        }
    }
}

/// The turn that stores `message` under `id`.
pub open spec fn turn_of(id: u64, message: MessageView) -> TurnView {
    TurnView {
        id,
        role: message.role,
        content: message.content,
        annotations: message.annotations,
        reasoning: some_reasoning(message.reasoning),
        tool_calls: message.tool_calls,
        tool_call_id: message.tool_call_id,
        name: message.name,
    }
}

/// The message that replays `turn`.
pub open spec fn message_of(turn: TurnView) -> MessageView {
    MessageView {
        role: turn.role,
        content: turn.content,
        annotations: turn.annotations,
        reasoning: match turn.reasoning {
            Some(reasoning) => reasoning,
            None => no_reasoning(),
        },
        tool_calls: turn.tool_calls,
        tool_call_id: turn.tool_call_id,
        name: turn.name,
    }
}

impl Duplicate for SessionTurn {
    fn duplicate(&self) -> (copy: Self) {
        SessionTurn {
            id: self.id,
            role: self.role,
            content: self.content.duplicate(),
            annotations: duplicate_all(&self.annotations),
            reasoning: duplicate_option(&self.reasoning),
            tool_calls: duplicate_all(&self.tool_calls),
            tool_call_id: duplicate_option(&self.tool_call_id),
            name: duplicate_option(&self.name),
        }
    }
}

impl Clone for SessionTurn {
    fn clone(&self) -> (copy: Self)
        ensures
            copy@ == self@,
    {
        self.duplicate()
    }
}

impl From<ChatMessage> for SessionTurn {
    /// A turn without an id of its own: the session that stores it gives it one.
    fn from(message: ChatMessage) -> (turn: Self)
        ensures
            turn@ == turn_of(0, message@),
    {
        let reasoning = ReasoningPayload {
            reasoning: message.reasoning,
            reasoning_content: message.reasoning_content,
            reasoning_details: message.reasoning_details,
        }.into_option();
        SessionTurn {
            id: 0,
            role: message.role,
            content: message.content,
            annotations: message.annotations,
            reasoning,
            tool_calls: message.tool_calls,
            tool_call_id: message.tool_call_id,
            name: message.name,
        }
    }
}

impl vstd::std_specs::convert::FromSpecImpl<ChatMessage> for SessionTurn {
    open spec fn obeys_from_spec() -> bool {
        false
    }

    open spec fn from_spec(message: ChatMessage) -> Self {
        arbitrary()
    }
}

impl From<SessionTurn> for ChatMessage {
    fn from(turn: SessionTurn) -> (message: Self)
        ensures
            message@ == message_of(turn@),
    {
        let message = ChatMessage {
            role: turn.role,
            content: turn.content,
            annotations: turn.annotations,
            reasoning: None,
            reasoning_content: None,
            reasoning_details: None,
            tool_calls: turn.tool_calls,
            tool_call_id: turn.tool_call_id,
            name: turn.name,
        };
        match turn.reasoning {
            Some(reasoning) => message.with_reasoning(reasoning),
            None => message,
        }
    }
}

impl vstd::std_specs::convert::FromSpecImpl<SessionTurn> for ChatMessage {
    open spec fn obeys_from_spec() -> bool {
        false
    }

    open spec fn from_spec(turn: SessionTurn) -> Self {
        arbitrary()
    }
}

/// Storing a message and replaying it gives the message back: content with its media, annotations,
/// reasoning and tool calls included.
pub proof fn replay_gives_back_what_was_stored(id: u64, message: MessageView)
    ensures
        message_of(turn_of(id, message)) == message,
{
}

} // verus!
