//! The model of a session, and what each of its operations does to it.

use vstd::prelude::*;

use crate::chat::{CallView, MessageRole, MessageView, RequestView, ResponseView};
use crate::common::{byte_len, capped};
use crate::content::ContentView;
use crate::error::ErrorView;
use crate::provider::ConfigView;
use crate::session::compaction::CompactionConfig;
use crate::session::edit::{edit_error, id_after, removal, shrinkage, summarization};
use crate::session::event::{wants_event, EventView, NotificationConfig};
use crate::session::telemetry::{wants_telemetry, TelemetryConfig, TelemetryView};
use crate::session::turn::{message_of, turn_of, TurnView};
use crate::text::{blank, decimal};
use crate::tools::compact::{acknowledgement_view, COMPACT_REMOVE_MESSAGES, COMPACT_SUMMARIZE_MESSAGES};
use crate::tools::{error_result, reported, result_message, result_of, ResultView};

verus! {

/// Runtime configuration for a [`crate::session::ChatSession`].
///
/// Event and telemetry channels are bounded. If `notifications` or `telemetry` are enabled, drain
/// the streams while the agent is running.
#[derive(Clone, Copy, Debug, PartialEq, Eq, Structural)]
pub struct SessionConfig {
    /// Maximum normal tool-call rounds before the managed loop stops.
    pub max_tool_rounds: usize,
    /// Optional capacity for the event stream. Defaults to `4 * max_tool_rounds`.
    pub event_channel_capacity: Option<usize>,
    /// Which high-level agent progress events to emit.
    pub notifications: NotificationConfig,
    /// Context compaction behavior.
    pub compaction: CompactionConfig,
    /// Which structured telemetry events to emit.
    pub telemetry: TelemetryConfig,
    /// Optional capacity for the telemetry stream. Defaults to `8 * max_tool_rounds`.
    pub telemetry_channel_capacity: Option<usize>,
}

/// The model of a [`crate::session::ChatSession`].
pub struct SessionView {
    /// The history.
    pub turns: Seq<TurnView>,
    /// The id of the next turn.
    pub next_turn_id: u64,
    pub config: SessionConfig,
    /// Whether there is an event stream.
    pub events_on: bool,
    /// Whether there is a telemetry stream.
    pub telemetry_on: bool,
    /// Events that wait to be sent.
    pub events: Seq<EventView>,
    /// Telemetry that waits to be sent.
    pub telemetry: Seq<TelemetryView>,
}

/// The default configuration.
pub open spec fn default_config() -> SessionConfig {
    SessionConfig {
        max_tool_rounds: 8,
        event_channel_capacity: None,
        notifications: crate::session::event::no_notifications(),
        compaction: CompactionConfig {
            enabled: true,
            trigger_estimated_tokens: 200_000,
            target_estimated_tokens: 160_000,
            max_compaction_rounds: 4,
            always_offer_tools: true,
            protect_recent_turns: 4,
            top_consumers: 30,
        },
        telemetry: crate::session::telemetry::no_telemetry(),
        telemetry_channel_capacity: None,
    }
}

/// A session before its first turn.
pub open spec fn fresh_session(config: SessionConfig, events_on: bool, telemetry_on: bool) -> SessionView {
    SessionView {
        turns: seq![],
        next_turn_id: 1,
        config,
        events_on,
        telemetry_on,
        events: seq![],
        telemetry: seq![],
    }
}

// ---------------------------------------------------------------------------------------------
// Streams
// ---------------------------------------------------------------------------------------------

/// The session after `event`: it waits to be sent where it is wanted and there is a stream.
pub open spec fn emitted(s: SessionView, event: EventView) -> SessionView {
    if s.events_on && wants_event(s.config.notifications, event) {
        SessionView { events: s.events.push(event), ..s }
    } else {
        s
    }
}

/// The session after telemetry: it waits to be sent where it is wanted and there is a stream.
pub open spec fn observed(s: SessionView, event: TelemetryView) -> SessionView {
    if s.telemetry_on && wants_telemetry(s.config.telemetry, event) {
        SessionView { telemetry: s.telemetry.push(event), ..s }
    } else {
        s
    }
}

/// `text`, where it may be shown.
pub open spec fn payload_of(shown: bool, text: Seq<char>) -> Option<Seq<char>> {
    if shown {
        Some(text)
    } else {
        None
    }
}

/// A text, or the empty one.
pub open spec fn or_empty(text: Option<Seq<char>>) -> Seq<char> {
    match text {
        Some(text) => text,
        None => seq![],
    }
}

/// The telemetry for a new turn; none for system prompts.
pub open spec fn turn_telemetry(config: TelemetryConfig, turn: TurnView) -> Option<TelemetryView> {
    let content_len = capped(turn.content.payload() as int);
    let text = turn.content.text();
    match turn.role {
        MessageRole::User => Some(
            TelemetryView::UserMessage {
                turn_id: turn.id,
                content_len,
                content: payload_of(config.messages, text),
            },
        ),
        MessageRole::Assistant => Some(
            TelemetryView::AssistantMessage {
                turn_id: turn.id,
                content_len,
                tool_calls: turn.tool_calls.len() as usize,
                content: payload_of(config.messages, text),
            },
        ),
        MessageRole::Tool => Some(
            TelemetryView::ToolMessage {
                turn_id: turn.id,
                tool_call_id: or_empty(turn.tool_call_id),
                name: or_empty(turn.name),
                content_len,
                content: payload_of(config.tool_payloads, text),
            },
        ),
        MessageRole::System => None,
    }
}

// ---------------------------------------------------------------------------------------------
// History
// ---------------------------------------------------------------------------------------------

/// The session after `turn`, which has its id.
pub open spec fn with_turn(s: SessionView, turn: TurnView) -> SessionView {
    let told = match turn_telemetry(s.config.telemetry, turn) {
        Some(event) => observed(s, event),
        None => s,
    };
    SessionView { turns: s.turns.push(turn), ..told }
}

/// The session after `message`, stored under the next id.
pub open spec fn pushed(s: SessionView, message: MessageView) -> SessionView {
    with_turn(
        SessionView { next_turn_id: id_after(s.next_turn_id), ..s },
        turn_of(s.next_turn_id, message),
    )
}

/// The history as messages.
pub open spec fn history(turns: Seq<TurnView>) -> Seq<MessageView> {
    turns.map_values(|t: TurnView| message_of(t))
}

// ---------------------------------------------------------------------------------------------
// Requests
// ---------------------------------------------------------------------------------------------

/// The telemetry for a request.
pub open spec fn request_telemetry(
    config: TelemetryConfig,
    provider: ConfigView,
    request: RequestView,
) -> TelemetryView {
    TelemetryView::ModelRequest {
        provider: provider.name,
        model: request.model,
        message_count: request.messages.len() as usize,
        tool_count: request.tools.len() as usize,
        request: if config.model_payloads {
            Some(request)
        } else {
            None
        },
    }
}

/// The telemetry for a response.
pub open spec fn response_telemetry(
    config: TelemetryConfig,
    provider: ConfigView,
    response: ResponseView,
) -> TelemetryView {
    TelemetryView::ModelResponse {
        provider: provider.name,
        model: provider.model,
        content_len: capped(response.message.content.payload() as int),
        tool_calls: response.message.tool_calls.len() as usize,
        response: if config.model_payloads {
            Some(response)
        } else {
            None
        },
    }
}

/// The session after it sends `request`.
pub open spec fn requested(s: SessionView, provider: ConfigView, request: RequestView) -> SessionView {
    observed(s, request_telemetry(s.config.telemetry, provider, request))
}

/// The session after it receives `response`.
pub open spec fn answered(s: SessionView, provider: ConfigView, response: ResponseView) -> SessionView {
    observed(s, response_telemetry(s.config.telemetry, provider, response))
}

// ---------------------------------------------------------------------------------------------
// Tool calls
// ---------------------------------------------------------------------------------------------

/// The telemetry for the start of a call.
pub open spec fn call_started_telemetry(config: TelemetryConfig, call: CallView) -> TelemetryView {
    TelemetryView::ToolCallStarted {
        tool_call_id: call.id,
        name: call.name,
        arguments_len: byte_len(call.arguments) as usize,
        arguments: payload_of(config.tool_payloads, call.arguments),
    }
}

/// The telemetry for a failed call.
pub open spec fn call_failed_telemetry(call: CallView, error: Seq<char>) -> TelemetryView {
    TelemetryView::ToolCallFailed { tool_call_id: call.id, name: call.name, error }
}

/// The telemetry for a result.
pub open spec fn result_telemetry(config: TelemetryConfig, result: ResultView) -> TelemetryView {
    TelemetryView::ToolCallFinished {
        tool_call_id: result.tool_call_id,
        name: result.name,
        content_len: capped(result.content.payload() as int),
        content: payload_of(config.tool_payloads, result.content.text()),
    }
}

/// The session after the telemetry for a result; a result that reports an error also counts as a
/// failure.
pub open spec fn result_observed(s: SessionView, call: CallView, result: ResultView) -> SessionView {
    let told = observed(s, result_telemetry(s.config.telemetry, result));
    if "Tool error:"@.is_prefix_of(result.content.text()) {
        observed(
            told,
            call_failed_telemetry(call, ErrorView::Tool(result.content.text()).message()),
        )
    } else {
        told
    }
}

/// The session when a call starts, in a round of a managed run or outside one. The event carries
/// the arguments only where tool payloads may be shown.
pub open spec fn call_started(s: SessionView, call: CallView, round: Option<usize>) -> SessionView {
    let announced = match round {
        Some(round) => emitted(
            s,
            EventView::ToolCallStarted {
                round,
                tool_call_id: call.id,
                name: call.name,
                arguments: payload_of(s.config.telemetry.tool_payloads, call.arguments),
            },
        ),
        None => s,
    };
    observed(announced, call_started_telemetry(s.config.telemetry, call))
}

/// The session after a call ended: its result, or the report of its error, is in the history.
pub open spec fn call_ended(
    s: SessionView,
    call: CallView,
    round: Option<usize>,
    outcome: Result<ResultView, ErrorView>,
) -> SessionView {
    let told = match outcome {
        Ok(result) => {
            let announced = match round {
                Some(round) => emitted(
                    s,
                    EventView::ToolCallFinished {
                        round,
                        tool_call_id: result.tool_call_id,
                        name: result.name,
                        content_len: capped(result.content.payload() as int),
                    },
                ),
                None => s,
            };
            result_observed(announced, call, result)
        },
        Err(error) => {
            let announced = match round {
                Some(round) => emitted(
                    s,
                    EventView::ToolCallFailed {
                        round,
                        tool_call_id: call.id,
                        name: call.name,
                        error: error.message(),
                    },
                ),
                None => s,
            };
            observed(announced, call_failed_telemetry(call, error.message()))
        },
    };
    pushed(told, result_message(reported(call, outcome)))
}

// ---------------------------------------------------------------------------------------------
// Compaction
// ---------------------------------------------------------------------------------------------

/// The model of the decoded arguments of a compaction call.
pub struct DecodedView {
    pub remove: Result<(Seq<u64>, Seq<char>), Seq<char>>,
    pub summarize: Result<(Seq<u64>, Seq<char>, Seq<char>), Seq<char>>,
}

/// A session and the message of an edit, or the error that kept it from being made.
pub struct Edited {
    pub session: SessionView,
    pub outcome: Result<Seq<char>, ErrorView>,
}

/// What removing turns does.
pub open spec fn removing(s: SessionView, ids: Seq<u64>, reason: Seq<char>) -> Edited {
    match edit_error(s.turns, s.config.compaction.protect_recent_turns as nat, ids) {
        Some(error) => Edited { session: s, outcome: Err(error) },
        None => {
            let after = removal(s.turns, ids);
            Edited {
                session: SessionView { turns: after, ..s },
                outcome: Ok(
                    "Removed "@ + decimal(shrinkage(s.turns.len(), after.len()))
                        + " turn(s) from active context. Reason: "@ + reason,
                ),
            }
        },
    }
}

/// What summarizing turns does.
pub open spec fn summarizing(
    s: SessionView,
    ids: Seq<u64>,
    summary: Seq<char>,
    reason: Seq<char>,
) -> Edited {
    if blank(summary) {
        Edited {
            session: s,
            outcome: Err(
                ErrorView::Tool("compact_summarize_messages requires a non-empty summary"@),
            ),
        }
    } else {
        match edit_error(s.turns, s.config.compaction.protect_recent_turns as nat, ids) {
            Some(error) => Edited { session: s, outcome: Err(error) },
            None => {
                let after = summarization(s.turns, ids, s.next_turn_id, summary, reason);
                Edited {
                    session: SessionView {
                        turns: after,
                        next_turn_id: id_after(s.next_turn_id),
                        ..s
                    },
                    outcome: Ok(
                        "Summarized "@ + decimal(shrinkage(s.turns.len(), after.len()))
                            + " turn(s) in active context. Reason: "@ + reason,
                    ),
                }
            },
        }
    }
}

/// What the edit of a compaction call does.
pub open spec fn compacting(s: SessionView, call: CallView, decoded: DecodedView) -> Edited {
    if call.name == COMPACT_REMOVE_MESSAGES@ {
        if blank(call.arguments) {
            Edited {
                session: s,
                outcome: Err(ErrorView::Tool("compact_remove_messages requires arguments"@)),
            }
        } else {
            match decoded.remove {
                Err(message) => Edited { session: s, outcome: Err(ErrorView::Json(message)) },
                Ok((ids, reason)) => removing(s, ids, reason),
            }
        }
    } else if call.name == COMPACT_SUMMARIZE_MESSAGES@ {
        if blank(call.arguments) {
            Edited {
                session: s,
                outcome: Err(ErrorView::Tool("compact_summarize_messages requires arguments"@)),
            }
        } else {
            match decoded.summarize {
                Err(message) => Edited { session: s, outcome: Err(ErrorView::Json(message)) },
                Ok((ids, summary, reason)) => summarizing(s, ids, summary, reason),
            }
        }
    } else {
        Edited { session: s, outcome: Err(ErrorView::UnknownTool(call.name)) }
    }
}

/// The session when a compaction call starts.
pub open spec fn compaction_call_started(s: SessionView, call: CallView) -> SessionView {
    observed(
        emitted(
            s,
            EventView::CompactionToolCallStarted {
                tool_call_id: call.id,
                name: call.name,
                arguments: call.arguments,
            },
        ),
        call_started_telemetry(s.config.telemetry, call),
    )
}

/// The result that a compaction call is answered with: an acknowledgement, or the error.
pub open spec fn compaction_answer(
    call: CallView,
    outcome: Result<Seq<char>, ErrorView>,
) -> ResultView {
    match outcome {
        Ok(detail) => result_of(call, ContentView::Text(acknowledgement_view(call.name, detail))),
        Err(error) => error_result(call, error.message()),
    }
}

/// A session after a compaction call, and the call's result, which is not in the history yet.
pub open spec fn compaction_call_made(s: SessionView, call: CallView, decoded: DecodedView) -> (
    SessionView,
    ResultView,
) {
    let edited = compacting(compaction_call_started(s, call), call, decoded);
    let result = compaction_answer(call, edited.outcome);
    (result_observed(edited.session, call, result), result)
}

/// A session after a compaction call whose result is in the history.
pub open spec fn compaction_call_recorded(
    s: SessionView,
    call: CallView,
    decoded: DecodedView,
) -> SessionView {
    let (after, result) = compaction_call_made(s, call, decoded);
    pushed(after, result_message(result))
}

// ---------------------------------------------------------------------------------------------
// Laws
// ---------------------------------------------------------------------------------------------

/// Appending a message keeps the history before it, and replays the message as it was.
pub proof fn history_only_grows(s: SessionView, message: MessageView)
    ensures
        history(pushed(s, message).turns) == history(s.turns).push(message),
{
    crate::session::turn::replay_gives_back_what_was_stored(s.next_turn_id, message);
    assert(history(pushed(s, message).turns) =~= history(s.turns).push(message));
}

/// Whether every id is below the next one.
pub open spec fn ids_below(turns: Seq<TurnView>, next: u64) -> bool {
    forall|i: int| 0 <= i < turns.len() ==> (#[trigger] turns[i]).id < next
}

/// Ids are unique and rise, as long as there are ids left.
pub proof fn new_turns_get_fresh_ids(s: SessionView, message: MessageView)
    requires
        crate::session::edit::ids_of(s.turns).no_duplicates(),
        ids_below(s.turns, s.next_turn_id),
        s.next_turn_id < u64::MAX,
    ensures
        crate::session::edit::ids_of(pushed(s, message).turns).no_duplicates(),
        ids_below(pushed(s, message).turns, pushed(s, message).next_turn_id),
{
    let after = pushed(s, message);
    let ids = crate::session::edit::ids_of(s.turns);
    let ids_after = crate::session::edit::ids_of(after.turns);
    assert(ids_after =~= ids.push(s.next_turn_id));
    assert forall|i: int| 0 <= i < after.turns.len() implies (#[trigger] after.turns[i]).id
        < after.next_turn_id by {
        if i < s.turns.len() {
            assert(after.turns[i] == s.turns[i]);
        }
    }
    assert forall|i: int, j: int|
        0 <= i < ids_after.len() && 0 <= j < ids_after.len() && i != j implies ids_after[i]
        != ids_after[j] by {
        if i < s.turns.len() {
            assert(s.turns[i].id < s.next_turn_id);
        }
        if j < s.turns.len() {
            assert(s.turns[j].id < s.next_turn_id);
        }
    }
}

/// Tool payloads are opt-in: without the flag, nothing that a call says or gets back is in its
/// telemetry, nor are its arguments in the event that announces it.
pub proof fn tool_payloads_are_opt_in(
    s: SessionView,
    call: CallView,
    round: Option<usize>,
    result: ResultView,
    turn: TurnView,
)
    requires
        !s.config.telemetry.tool_payloads,
        turn.role == MessageRole::Tool,
    ensures
        !crate::session::telemetry::carries_payload(
            call_started_telemetry(s.config.telemetry, call),
        ),
        !crate::session::telemetry::carries_payload(result_telemetry(s.config.telemetry, result)),
        !crate::session::telemetry::carries_payload(turn_telemetry(s.config.telemetry, turn)->0),
        call_started(s, call, round).events.len() > s.events.len() ==> (call_started(
            s,
            call,
            round,
        ).events.last() matches EventView::ToolCallStarted { arguments, .. } && arguments is None),
{
}

/// Model payloads are opt-in too.
pub proof fn model_payloads_are_opt_in(
    config: TelemetryConfig,
    provider: ConfigView,
    request: RequestView,
    response: ResponseView,
)
    requires
        !config.model_payloads,
    ensures
        !crate::session::telemetry::carries_payload(request_telemetry(config, provider, request)),
        !crate::session::telemetry::carries_payload(response_telemetry(config, provider, response)),
{
}

} // verus!
