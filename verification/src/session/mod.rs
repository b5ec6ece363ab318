//! Conversation management: history, tool loops, compaction, events, and telemetry.

pub mod compaction;
pub mod context_laws;
pub mod edit;
pub mod edit_laws;
pub mod event;
pub mod instruction;
pub mod laws;
pub mod model;
pub mod record_laws;
pub mod run;
pub mod run_laws;
pub mod telemetry;
pub mod turn;

pub use crate::session::compaction::{CompactionConfig, ContextUsage, ContextUsageBreakdown, ToolCallUsage};
pub use crate::session::event::{AgentEvent, NotificationConfig};
pub use crate::session::model::SessionConfig;
pub use crate::session::telemetry::{TelemetryConfig, TelemetryEvent};
pub use crate::session::turn::SessionTurn;

use vstd::prelude::*;

use crate::chat::{plain_message, ChatMessage, ChatRequest, ChatResponse, MessageRole, ToolCall};
use crate::common::{bytes_of, capped, duplicate_all, lemma_take_push, lemma_views_push, outcome};
use crate::common::{view_of, views, Duplicate, TextSource};
use crate::content::{ContentView, MessageContent};
use crate::error::Error;
use crate::provider::{request_for, ChatProvider};
use crate::session::compaction::{breakdown_of, context_tokens, usage_breakdown};
use crate::session::edit::allocate_turn_id;
use crate::session::edit::{cleanup, remove_messages, remove_previous_tool_messages, shrinkage, summarize_messages};
use crate::session::event::no_notifications;
use crate::session::model::{answered, call_ended, call_failed_telemetry, call_started, call_started_telemetry};
use crate::session::model::{compacting, compaction_call_made};
use crate::session::model::{default_config, emitted, fresh_session, history, observed, or_empty, payload_of};
use crate::session::model::{pushed, removing, requested};
use crate::session::model::{result_observed, summarizing, turn_telemetry};
use crate::session::model::{DecodedView, SessionView};
use crate::session::telemetry::no_telemetry;
use crate::text::{has_prefix, same_text};
use crate::tools::compact::{acknowledgement, parse_remove_args, parse_summarize_args};
use crate::tools::compact::{RemoveMessagesArgs, SummarizeMessagesArgs};
use crate::tools::compact::{COMPACT_REMOVE_MESSAGES, COMPACT_SUMMARIZE_MESSAGES};
use crate::tools::{report_call, reported, result_message, ResultView, ToolDefinition, ToolResult};

verus! {

broadcast use lemma_views_push;

/// Stateful chat transcript.
///
/// A session owns the message history and preserves reasoning and tool-call state. Events and
/// telemetry wait in the session until they are taken and sent.
pub struct ChatSession {
    turns: Vec<SessionTurn>,
    next_turn_id: u64,
    config: SessionConfig,
    events_on: bool,
    telemetry_on: bool,
    events: Vec<AgentEvent>,
    telemetry: Vec<TelemetryEvent>,
}

/// What decoding the arguments of a compaction call gave, for each compaction tool.
#[derive(Debug, PartialEq, Eq)]
pub struct DecodedArguments {
    pub remove: Result<RemoveMessagesArgs, String>,
    pub summarize: Result<SummarizeMessagesArgs, String>,
}

impl View for DecodedArguments {
    type V = DecodedView;

    open spec fn view(&self) -> DecodedView {
        DecodedView {
            remove: match self.remove {
                Ok(args) => Ok((args.turn_ids@, args.reason@)),
                Err(message) => Err(message@),
            },
            summarize: match self.summarize {
                Ok(args) => Ok((args.turn_ids@, args.summary@, args.reason@)),
                Err(message) => Err(message@),
            },
        }
    }
}

impl View for ChatSession {
    type V = SessionView;

    closed spec fn view(&self) -> SessionView {
        SessionView {
            turns: views(self.turns@),
            next_turn_id: self.next_turn_id,
            config: self.config,
            events_on: self.events_on,
            telemetry_on: self.telemetry_on,
            events: views(self.events@),
            telemetry: views(self.telemetry@),
        }
    }
}

// ---------------------------------------------------------------------------------------------
// Configuration
// ---------------------------------------------------------------------------------------------

impl Default for SessionConfig {
    fn default() -> (config: Self)
        ensures
            config == default_config(),
    {
        SessionConfig {
            max_tool_rounds: 8,
            event_channel_capacity: None,
            notifications: NotificationConfig::default(),
            compaction: CompactionConfig::default(),
            telemetry: TelemetryConfig::default(),
            telemetry_channel_capacity: None,
        }
    }
}

fn times_capped(n: usize, factor: usize) -> (r: usize)
    requires
        factor > 0,
    ensures
        r == capped(n * factor),
{
    if n > usize::MAX / factor {
        proof {
            let q: int = usize::MAX as int / factor as int;
            let rem: int = usize::MAX as int % factor as int;
            assert(usize::MAX == factor * q + rem && rem < factor) by (nonlinear_arith)
                requires
                    factor > 0,
                    q == usize::MAX as int / factor as int,
                    rem == usize::MAX as int % factor as int,
            ;
            assert(n * factor > usize::MAX) by (nonlinear_arith)
                requires
                    n >= q + 1,
                    factor > 0,
                    usize::MAX == factor * q + rem,
                    rem < factor,
            ;
        }
        usize::MAX
    } else {
        proof {
            let q: int = usize::MAX as int / factor as int;
            assert(n * factor <= usize::MAX) by (nonlinear_arith)
                requires
                    n <= q,
                    factor > 0,
                    q == usize::MAX as int / factor as int,
            ;
        }
        n * factor
    }
}

impl SessionConfig {
    /// Effective bounded channel capacity for [`AgentEvent`] notifications.
    pub fn event_channel_capacity(&self) -> (n: usize)
        ensures
            n == match self.event_channel_capacity {
                Some(capacity) => capacity,
                None => if self.max_tool_rounds == 0 {
                    1
                } else {
                    capped(self.max_tool_rounds * 4)
                },
            },
    {
        match self.event_channel_capacity {
            Some(capacity) => capacity,
            None => if self.max_tool_rounds == 0 {
                1
            } else {
                times_capped(self.max_tool_rounds, 4)
            },
        }
    }

    /// Effective bounded channel capacity for [`TelemetryEvent`] notifications.
    pub fn telemetry_channel_capacity(&self) -> (n: usize)
        ensures
            n == match self.telemetry_channel_capacity {
                Some(capacity) => capacity,
                None => if self.max_tool_rounds == 0 {
                    8
                } else {
                    capped(self.max_tool_rounds * 8)
                },
            },
    {
        match self.telemetry_channel_capacity {
            Some(capacity) => capacity,
            None => if self.max_tool_rounds == 0 {
                8
            } else {
                times_capped(self.max_tool_rounds, 8)
            },
        }
    }
}

// ---------------------------------------------------------------------------------------------
// Construction
// ---------------------------------------------------------------------------------------------

/// The capacity of the event stream that a configuration asks for.
pub open spec fn event_stream(config: SessionConfig) -> Option<usize> {
    if config.notifications == no_notifications() {
        None
    } else {
        Some(
            match config.event_channel_capacity {
                Some(capacity) => capacity,
                None => if config.max_tool_rounds == 0 {
                    1
                } else {
                    capped(config.max_tool_rounds * 4)
                },
            },
        )
    }
}

/// The capacity of the telemetry stream that a configuration asks for.
pub open spec fn telemetry_stream(config: SessionConfig) -> Option<usize> {
    if config.telemetry == no_telemetry() {
        None
    } else {
        Some(
            match config.telemetry_channel_capacity {
                Some(capacity) => capacity,
                None => if config.max_tool_rounds == 0 {
                    8
                } else {
                    capped(config.max_tool_rounds * 8)
                },
            },
        )
    }
}

/// A session for a configuration, with the streams that it asks for.
pub open spec fn configured(config: SessionConfig) -> SessionView {
    fresh_session(config, event_stream(config) is Some, telemetry_stream(config) is Some)
}

/// A system prompt.
pub open spec fn system_prompt(text: Seq<char>) -> crate::chat::MessageView {
    plain_message(MessageRole::System, ContentView::Text(text))
}

impl Default for ChatSession {
    fn default() -> (session: Self)
        ensures
            session@ == fresh_session(default_config(), false, false),
    {
        let session = ChatSession {
            turns: Vec::new(),
            next_turn_id: 1,
            config: SessionConfig::default(),
            events_on: false,
            telemetry_on: false,
            events: Vec::new(),
            telemetry: Vec::new(),
        };
        assert(session@.turns =~= seq![]);
        assert(session@.events =~= seq![]);
        assert(session@.telemetry =~= seq![]);
        session
    }
}

impl Duplicate for ChatSession {
    fn duplicate(&self) -> (copy: Self) {
        ChatSession {
            turns: duplicate_all(&self.turns),
            next_turn_id: self.next_turn_id,
            config: self.config,
            events_on: self.events_on,
            telemetry_on: self.telemetry_on,
            events: duplicate_all(&self.events),
            telemetry: duplicate_all(&self.telemetry),
        }
    }
}

impl Clone for ChatSession {
    fn clone(&self) -> (copy: Self)
        ensures
            copy@ == self@,
    {
        self.duplicate()
    }
}

impl ChatSession {
    /// Create an empty session with default configuration and no event streams.
    pub fn new() -> (session: Self)
        ensures
            session@ == fresh_session(default_config(), false, false),
    {
        Self::default()
    }

    /// Create a session seeded with a system prompt.
    pub fn with_system_prompt(prompt: impl TextSource) -> (session: Self)
        ensures
            session@ == pushed(
                fresh_session(default_config(), false, false),
                system_prompt(prompt.text_view()),
            ),
    {
        let mut session = Self::new();
        session.push_system(prompt);
        session
    }

    /// Create a configured session, and the capacity of the event stream to open for it.
    ///
    /// There is one only when [`SessionConfig::notifications`] enables at least one event kind.
    pub fn with_config(config: SessionConfig) -> (r: (Self, Option<usize>))
        ensures
            r.0@ == configured(config),
            r.1 == event_stream(config),
    {
        let (session, events, _) = Self::with_config_and_telemetry(config);
        (session, events)
    }

    /// Create a configured session, and the capacities of the event and telemetry streams to open
    /// for it.
    ///
    /// There is a telemetry stream only when [`SessionConfig::telemetry`] enables at least one
    /// event kind.
    pub fn with_config_and_telemetry(config: SessionConfig) -> (r: (
        Self,
        Option<usize>,
        Option<usize>,
    ))
        ensures
            r.0@ == configured(config),
            r.1 == event_stream(config),
            r.2 == telemetry_stream(config),
    {
        let events_on = config.notifications.is_enabled();
        let telemetry_on = config.telemetry.is_enabled();
        let events = if events_on {
            Some(config.event_channel_capacity())
        } else {
            None
        };
        let telemetry = if telemetry_on {
            Some(config.telemetry_channel_capacity())
        } else {
            None
        };
        let session = ChatSession {
            turns: Vec::new(),
            next_turn_id: 1,
            config,
            events_on,
            telemetry_on,
            events: Vec::new(),
            telemetry: Vec::new(),
        };
        assert(session@.turns =~= seq![]);
        assert(session@.events =~= seq![]);
        assert(session@.telemetry =~= seq![]);
        (session, events, telemetry)
    }

    /// Create a configured session seeded with a system prompt.
    pub fn with_system_prompt_and_config(prompt: impl TextSource, config: SessionConfig) -> (r: (
        Self,
        Option<usize>,
    ))
        ensures
            r.0@ == pushed(configured(config), system_prompt(prompt.text_view())),
            r.1 == event_stream(config),
    {
        let (mut session, events) = Self::with_config(config);
        session.push_system(prompt);
        (session, events)
    }

    /// Create a configured session seeded with a system prompt, with event and telemetry streams.
    pub fn with_system_prompt_config_and_telemetry(
        prompt: impl TextSource,
        config: SessionConfig,
    ) -> (r: (Self, Option<usize>, Option<usize>))
        ensures
            r.0@ == pushed(configured(config), system_prompt(prompt.text_view())),
            r.1 == event_stream(config),
            r.2 == telemetry_stream(config),
    {
        let (mut session, events, telemetry) = Self::with_config_and_telemetry(config);
        session.push_system(prompt);
        (session, events, telemetry)
    }

    // -----------------------------------------------------------------------------------------
    // Reading
    // -----------------------------------------------------------------------------------------

    /// Current session configuration.
    pub fn config(&self) -> (config: &SessionConfig)
        ensures
            *config == self@.config,
    {
        &self.config
    }

    /// Mutable session configuration.
    pub fn config_mut(&mut self) -> (config: &mut SessionConfig)
        ensures
            *config == old(self)@.config,
            final(self)@ == (SessionView { config: *final(config), ..old(self)@ }),
    {
        &mut self.config
    }

    /// Persisted session turns.
    pub fn turns(&self) -> (turns: &Vec<SessionTurn>)
        ensures
            views(turns@) == self@.turns,
    {
        &self.turns
    }

    /// Estimated context usage and largest consumers.
    pub fn context_usage_breakdown(&self) -> (breakdown: ContextUsageBreakdown)
        ensures
            breakdown@ == breakdown_of(self@.turns, self@.turns.len()),
    {
        self.context_usage_breakdown_with_limit(self.turns.len())
    }

    /// Estimated context usage and at most `limit` largest consumers of each sort.
    pub fn context_usage_breakdown_with_limit(&self, limit: usize) -> (breakdown:
        ContextUsageBreakdown)
        ensures
            breakdown@ == breakdown_of(self@.turns, limit as nat),
    {
        usage_breakdown(&self.turns, limit)
    }

    /// Rough token estimate for the active context.
    pub fn estimated_context_tokens(&self) -> (tokens: usize)
        ensures
            tokens == context_tokens(self@.turns),
    {
        self.context_usage_breakdown().total_estimated_tokens
    }

    /// Convert the session history into provider chat messages.
    pub fn messages(&self) -> (messages: Vec<ChatMessage>)
        ensures
            views(messages@) == history(self@.turns),
    {
        let ghost all = history(self@.turns);
        let mut messages: Vec<ChatMessage> = Vec::new();
        let mut i: usize = 0;
        while i < self.turns.len()
            invariant
                i <= self.turns@.len(),
                self@.turns == views(self.turns@),
                all == history(self@.turns),
                views(messages@) =~= all.take(i as int),
            decreases self.turns@.len() - i,
        {
            messages.push(ChatMessage::from(self.turns[i].duplicate()));
            proof {
                lemma_take_push(all, i as int);
            }
            i += 1;
        }
        assert(all.take(i as int) =~= all);
        messages
    }

    // -----------------------------------------------------------------------------------------
    // Streams
    // -----------------------------------------------------------------------------------------

    /// Take the events that wait to be sent.
    pub fn take_events(&mut self) -> (events: Vec<AgentEvent>)
        ensures
            views(events@) == old(self)@.events,
            final(self)@ == (SessionView { events: seq![], ..old(self)@ }),
    {
        let mut events: Vec<AgentEvent> = Vec::new();
        std::mem::swap(&mut self.events, &mut events);
        assert(self@.events =~= seq![]);
        events
    }

    /// Take the telemetry that waits to be sent.
    pub fn take_telemetry(&mut self) -> (telemetry: Vec<TelemetryEvent>)
        ensures
            views(telemetry@) == old(self)@.telemetry,
            final(self)@ == (SessionView { telemetry: seq![], ..old(self)@ }),
    {
        let mut telemetry: Vec<TelemetryEvent> = Vec::new();
        std::mem::swap(&mut self.telemetry, &mut telemetry);
        assert(self@.telemetry =~= seq![]);
        telemetry
    }

    /// Emit an event.
    pub(crate) fn emit(&mut self, event: AgentEvent)
        ensures
            final(self)@ == emitted(old(self)@, event@),
    {
        if self.config.notifications.should_emit(&event) && self.events_on {
            self.events.push(event);
        }
    }

    fn emit_telemetry(&mut self, event: TelemetryEvent)
        ensures
            final(self)@ == observed(old(self)@, event@),
    {
        if self.config.telemetry.should_emit(&event) && self.telemetry_on {
            self.telemetry.push(event);
        }
    }

    fn emit_message_telemetry(&mut self, turn: &SessionTurn)
        ensures
            final(self)@ == match turn_telemetry(old(self)@.config.telemetry, turn@) {
                Some(event) => observed(old(self)@, event),
                None => old(self)@,
            },
    {
        let content_len = turn.content.len();
        let telemetry = self.config.telemetry;
        match turn.role {
            MessageRole::User => self.emit_telemetry(
                TelemetryEvent::UserMessage {
                    turn_id: turn.id,
                    content_len,
                    content: text_where(telemetry.messages, &turn.content),
                },
            ),
            MessageRole::Assistant => self.emit_telemetry(
                TelemetryEvent::AssistantMessage {
                    turn_id: turn.id,
                    content_len,
                    tool_calls: turn.tool_calls.len(),
                    content: text_where(telemetry.messages, &turn.content),
                },
            ),
            MessageRole::Tool => self.emit_telemetry(
                TelemetryEvent::ToolMessage {
                    turn_id: turn.id,
                    tool_call_id: text_or_empty(&turn.tool_call_id),
                    name: text_or_empty(&turn.name),
                    content_len,
                    content: text_where(telemetry.tool_payloads, &turn.content),
                },
            ),
            MessageRole::System => {},
        }
    }

    /// Report the start of a tool call.
    pub fn emit_tool_call_started_telemetry(&mut self, call: &ToolCall)
        ensures
            final(self)@ == observed(
                old(self)@,
                call_started_telemetry(old(self)@.config.telemetry, call@),
            ),
    {
        let arguments = if self.config.telemetry.tool_payloads {
            Some(call.function.arguments.clone())
        } else {
            None
        };
        self.emit_telemetry(
            TelemetryEvent::ToolCallStarted {
                tool_call_id: call.id.clone(),
                name: call.function.name.clone(),
                arguments_len: bytes_of(call.function.arguments.as_str()),
                arguments,
            },
        );
    }

    fn emit_tool_error_telemetry(&mut self, call: &ToolCall, error: String)
        ensures
            final(self)@ == observed(old(self)@, call_failed_telemetry(call@, error@)),
    {
        self.emit_telemetry(
            TelemetryEvent::ToolCallFailed {
                tool_call_id: call.id.clone(),
                name: call.function.name.clone(),
                error,
            },
        );
    }

    fn emit_tool_result_telemetry(&mut self, call: &ToolCall, result: &ToolResult)
        ensures
            final(self)@ == result_observed(old(self)@, call@, result@),
    {
        let content = text_where(self.config.telemetry.tool_payloads, &result.content);
        self.emit_telemetry(
            TelemetryEvent::ToolCallFinished {
                tool_call_id: result.tool_call_id.clone(),
                name: result.name.clone(),
                content_len: result.content.len(),
                content,
            },
        );
        let text = result.content.text();
        if has_prefix(text.as_str(), "Tool error:") {
            let error = Error::Tool(text).to_string();
            self.emit_tool_error_telemetry(call, error);
        }
    }

    // -----------------------------------------------------------------------------------------
    // History
    // -----------------------------------------------------------------------------------------

    /// Append a system message.
    pub fn push_system(&mut self, content: impl TextSource)
        ensures
            final(self)@ == pushed(old(self)@, system_prompt(content.text_view())),
    {
        self.push(ChatMessage::system(content));
    }

    /// Append a user message.
    pub fn push_user<C: Into<MessageContent>>(&mut self, content: C)
        ensures
            exists|given: MessageContent| #[trigger]
                call_ensures(C::into, (content,), given) && final(self)@ == pushed(
                    old(self)@,
                    plain_message(MessageRole::User, given@),
                ),
    {
        let message = ChatMessage::user(content);
        let ghost given = message.content;
        assert(call_ensures(C::into, (content,), given));
        self.push(message);
    }

    /// Append a plain assistant message.
    pub fn push_assistant<C: Into<MessageContent>>(&mut self, content: C)
        ensures
            exists|given: MessageContent| #[trigger]
                call_ensures(C::into, (content,), given) && final(self)@ == pushed(
                    old(self)@,
                    plain_message(MessageRole::Assistant, given@),
                ),
    {
        let message = ChatMessage::assistant(content);
        let ghost given = message.content;
        assert(call_ensures(C::into, (content,), given));
        self.push(message);
    }

    /// Append any chat message, preserving reasoning, annotations and tool-call fields.
    pub fn push(&mut self, message: ChatMessage)
        ensures
            final(self)@ == pushed(old(self)@, message@),
    {
        let mut turn = SessionTurn::from(message);
        turn.id = allocate_turn_id(&mut self.next_turn_id);
        self.emit_message_telemetry(&turn);
        self.turns.push(turn);
    }

    // -----------------------------------------------------------------------------------------
    // Compaction
    // -----------------------------------------------------------------------------------------

    /// Remove turns, with the requests and answers that belong to them.
    pub fn compact_remove_messages(&mut self, turn_ids: &Vec<u64>, reason: &str) -> (r: Result<
        String,
        Error,
    >)
        ensures
            final(self)@ == removing(old(self)@, turn_ids@, reason@).session,
            outcome(r) == removing(old(self)@, turn_ids@, reason@).outcome,
    {
        let compaction = self.config.compaction;
        remove_messages(&mut self.turns, &compaction, turn_ids, reason)
    }

    /// Replace turns by a summary.
    pub fn compact_summarize_messages(
        &mut self,
        turn_ids: &Vec<u64>,
        summary: &str,
        reason: &str,
    ) -> (r: Result<String, Error>)
        ensures
            final(self)@ == summarizing(old(self)@, turn_ids@, summary@, reason@).session,
            outcome(r) == summarizing(old(self)@, turn_ids@, summary@, reason@).outcome,
    {
        let compaction = self.config.compaction;
        summarize_messages(
            &mut self.turns,
            &mut self.next_turn_id,
            &compaction,
            turn_ids,
            summary,
            reason,
        )
    }

    /// Remove what earlier compactions left, and return by how many turns the history became
    /// shorter.
    pub fn remove_previous_compaction_tool_messages(&mut self) -> (removed: usize)
        ensures
            final(self)@ == (SessionView { turns: cleanup(old(self)@.turns), ..old(self)@ }),
            removed == shrinkage(old(self)@.turns.len(), final(self)@.turns.len()),
    {
        remove_previous_tool_messages(&mut self.turns)
    }

    fn compact(&mut self, call: &ToolCall, decoded: DecodedArguments) -> (r: Result<String, Error>)
        ensures
            final(self)@ == compacting(old(self)@, call@, decoded@).session,
            outcome(r) == compacting(old(self)@, call@, decoded@).outcome,
    {
        let name = call.function.name.as_str();
        let arguments = call.function.arguments.as_str();
        if same_text(name, COMPACT_REMOVE_MESSAGES) {
            match parse_remove_args(arguments, decoded.remove) {
                Ok(args) => self.compact_remove_messages(&args.turn_ids, args.reason.as_str()),
                Err(error) => Err(error),
            }
        } else if same_text(name, COMPACT_SUMMARIZE_MESSAGES) {
            match parse_summarize_args(arguments, decoded.summarize) {
                Ok(args) => self.compact_summarize_messages(
                    &args.turn_ids,
                    args.summary.as_str(),
                    args.reason.as_str(),
                ),
                Err(error) => Err(error),
            }
        } else {
            Err(Error::UnknownTool(call.function.name.clone()))
        }
    }

    /// Make a compaction call, and return its result, which is not in the history yet.
    pub fn execute_compaction_tool_call(
        &mut self,
        call: &ToolCall,
        decoded: DecodedArguments,
    ) -> (result: ToolResult)
        ensures
            (final(self)@, result@) == compaction_call_made(old(self)@, call@, decoded@),
    {
        self.emit(
            AgentEvent::CompactionToolCallStarted {
                tool_call_id: call.id.clone(),
                name: call.function.name.clone(),
                arguments: call.function.arguments.clone(),
            },
        );
        self.emit_tool_call_started_telemetry(call);
        let result = match self.compact(call, decoded) {
            Ok(detail) => ToolResult::new(
                call,
                MessageContent::Text(
                    acknowledgement(call.function.name.as_str(), detail.as_str()),
                ),
            ),
            Err(error) => ToolResult::error(call, error.to_string()),
        };
        self.emit_tool_result_telemetry(call, &result);
        result
    }

    // -----------------------------------------------------------------------------------------
    // Requests and tool calls
    // -----------------------------------------------------------------------------------------

    /// The request for `messages` and `tools`, reported as being sent.
    pub fn begin_request(
        &mut self,
        provider: &ChatProvider,
        messages: &Vec<ChatMessage>,
        tools: Vec<ToolDefinition>,
    ) -> (request: ChatRequest)
        ensures
            request@ == request_for(provider@, views(messages@), views(tools@)),
            final(self)@ == requested(old(self)@, provider@, request@),
    {
        let request = provider.build_request(messages, tools);
        let payload = if self.config.telemetry.model_payloads {
            Some(request.duplicate())
        } else {
            None
        };
        self.emit_telemetry(
            TelemetryEvent::ModelRequest {
                provider: provider.config().name.clone(),
                model: request.model.clone(),
                message_count: request.messages.len(),
                tool_count: request.tools.len(),
                request: payload,
            },
        );
        request
    }

    /// Report a response as received.
    pub fn finish_request(&mut self, provider: &ChatProvider, response: &ChatResponse)
        ensures
            final(self)@ == answered(old(self)@, provider@, response@),
    {
        let payload = if self.config.telemetry.model_payloads {
            Some(response.duplicate())
        } else {
            None
        };
        self.emit_telemetry(
            TelemetryEvent::ModelResponse {
                provider: provider.config().name.clone(),
                model: provider.config().default_model.clone(),
                content_len: response.message.content.len(),
                tool_calls: response.message.tool_calls.len(),
                response: payload,
            },
        );
    }

    /// The request for the whole history, reported as being sent.
    pub fn begin_completion(&mut self, provider: &ChatProvider, tools: Vec<ToolDefinition>) -> (request:
        ChatRequest)
        ensures
            request@ == request_for(provider@, history(old(self)@.turns), views(tools@)),
            final(self)@ == requested(old(self)@, provider@, request@),
    {
        let messages = self.messages();
        self.begin_request(provider, &messages, tools)
    }

    /// Store the reply to [`ChatSession::begin_completion`].
    pub fn finish_completion(&mut self, provider: &ChatProvider, response: &ChatResponse)
        ensures
            final(self)@ == pushed(
                answered(old(self)@, provider@, response@),
                response@.message,
            ),
    {
        self.finish_request(provider, response);
        self.push(response.message.duplicate());
    }

    /// Report the start of a tool call, in a round of a managed run or outside one.
    pub fn begin_tool_call(&mut self, call: &ToolCall, round: Option<usize>)
        ensures
            final(self)@ == call_started(old(self)@, call@, round),
    {
        if let Some(round) = round {
            let arguments = if self.config.telemetry.tool_payloads {
                Some(call.function.arguments.clone())
            } else {
                None
            };
            self.emit(
                AgentEvent::ToolCallStarted {
                    round,
                    tool_call_id: call.id.clone(),
                    name: call.function.name.clone(),
                    arguments,
                },
            );
        }
        self.emit_tool_call_started_telemetry(call);
    }

    /// Store the outcome of a tool call: its result, or a report of its error.
    pub fn finish_tool_call(
        &mut self,
        call: &ToolCall,
        round: Option<usize>,
        outcome: Result<ToolResult, Error>,
    ) -> (result: ToolResult)
        ensures
            final(self)@ == call_ended(
                old(self)@,
                call@,
                round,
                crate::common::outcome(outcome),
            ),
            result@ == reported(call@, crate::common::outcome(outcome)),
    {
        match &outcome {
            Ok(result) => {
                if let Some(round) = round {
                    self.emit(
                        AgentEvent::ToolCallFinished {
                            round,
                            tool_call_id: result.tool_call_id.clone(),
                            name: result.name.clone(),
                            content_len: result.content.len(),
                        },
                    );
                }
                self.emit_tool_result_telemetry(call, result);
            },
            Err(error) => {
                if let Some(round) = round {
                    self.emit(
                        AgentEvent::ToolCallFailed {
                            round,
                            tool_call_id: call.id.clone(),
                            name: call.function.name.clone(),
                            error: error.to_string(),
                        },
                    );
                }
                self.emit_tool_error_telemetry(call, error.to_string());
            },
        }
        let result = report_call(call, outcome);
        self.push(result.duplicate().into_message());
        result
    }

    /// Store the results of tool calls that were made elsewhere.
    pub fn record_results(&mut self, results: &Vec<ToolResult>)
        ensures
            final(self)@ == recorded(old(self)@, views(results@)),
    {
        let ghost all = views(results@);
        let ghost start = self@;
        let mut i: usize = 0;
        while i < results.len()
            invariant
                i <= results@.len(),
                all == views(results@),
                self@ == recorded(start, all.take(i as int)),
            decreases results@.len() - i,
        {
            proof {
                assert(all.take(i + 1).drop_last() =~= all.take(i as int));
                assert(all.take(i + 1).last() == results@[i as int]@);
            }
            self.push(results[i].duplicate().into_message());
            i += 1;
        }
        assert(all.take(i as int) =~= all);
    }
}

/// The session after results are stored.
pub open spec fn recorded(s: SessionView, results: Seq<ResultView>) -> SessionView
    decreases results.len(),
{
    if results.len() == 0 {
        s
    } else {
        pushed(recorded(s, results.drop_last()), result_message(results.last()))
    }
}

fn text_where(shown: bool, content: &MessageContent) -> (r: Option<String>)
    ensures
        view_of(r) == payload_of(shown, content@.text()),
{
    if shown {
        Some(content.text())
    } else {
        None
    }
}

fn text_or_empty(text: &Option<String>) -> (r: String)
    ensures
        r@ == or_empty(view_of(*text)),
{
    match text {
        Some(text) => text.clone(),
        None => {
            let r = String::new();
            assert(r@ =~= seq![]);
            r
        },
    }
}

} // verus!
