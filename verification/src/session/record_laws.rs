//! What holds of the record that a session keeps: the turns, the events and the telemetry that
//! each step leaves behind.

use vstd::prelude::*;

use crate::chat::{CallView, MessageRole, MessageView, RequestView, ResponseView};
use crate::common::{byte_len, capped};
use crate::content::ContentView;
use crate::error::ErrorView;
use crate::provider::ConfigView;
use crate::session::compaction::CompactionConfig;
use crate::session::edit::{edit_error, removal, summarization};
use crate::session::event::{wants_event, EventView};
use crate::session::model::{answered, call_ended, call_started, compacting};
use crate::session::model::{compaction_call_made, compaction_call_recorded, default_config};
use crate::session::model::{emitted, fresh_session, history, observed, pushed, removing};
use crate::session::model::{requested, result_observed, summarizing, DecodedView};
use crate::session::model::{SessionConfig, SessionView};
use crate::session::telemetry::{wants_telemetry, TelemetryView};
use crate::session::turn::TurnView;
use crate::session::{configured, event_stream, recorded, telemetry_stream};
use crate::text::{blank, decimal};
use crate::tools::compact::preview_view;
use crate::tools::{result_message, ResultView};

verus! {

// ---------------------------------------------------------------------------------------------
// Streams
// ---------------------------------------------------------------------------------------------

/// An event is told where there is a stream and its kind is switched on, behind the earlier ones,
/// and nothing else changes.
pub proof fn events_are_told_by_their_kind(s: SessionView, event: EventView)
    ensures
        ({
            let n = s.config.notifications;
            let on = s.events_on && match event {
                EventView::ModelRequestStarted { .. } => n.model_requests,
                EventView::ModelResponseReceived { .. } => n.model_responses,
                EventView::ToolRoundStarted { .. } | EventView::MaxToolRoundsReached {
                    ..
                } => n.tool_rounds,
                EventView::ToolCallStarted { .. } => n.tool_calls,
                EventView::ToolCallFinished { .. } => n.tool_results,
                EventView::ToolCallFailed { .. } => n.tool_errors,
                _ => n.compaction,
            };
            emitted(s, event) == (SessionView {
                events: if on {
                    s.events.push(event)
                } else {
                    s.events
                },
                ..s
            })
        }),
{
}

/// Telemetry is told where there is a stream and its kind is switched on, behind the earlier
/// events, and nothing else changes. A switch for payloads is also one for what carries them.
pub proof fn telemetry_is_told_by_its_kind(s: SessionView, event: TelemetryView)
    ensures
        ({
            let t = s.config.telemetry;
            let on = s.telemetry_on && match event {
                TelemetryView::UserMessage { .. } | TelemetryView::AssistantMessage {
                    ..
                } => t.messages,
                TelemetryView::ModelRequest { .. } | TelemetryView::ModelResponse { .. } => {
                    t.model_metadata || t.model_payloads
                },
                _ => t.tool_calls || t.tool_payloads,
            };
            observed(s, event) == (SessionView {
                telemetry: if on {
                    s.telemetry.push(event)
                } else {
                    s.telemetry
                },
                ..s
            })
        }),
{
}

/// A stream is there where anything is switched on. It holds as many events as it was told to, or
/// four for each tool round (eight for telemetry), and at least one such share.
pub proof fn streams_are_there_where_wanted(config: SessionConfig)
    ensures
        event_stream(config) is Some <==> {
            let n = config.notifications;
            n.model_requests || n.model_responses || n.tool_rounds || n.tool_calls || n.tool_results
                || n.tool_errors || n.compaction
        },
        telemetry_stream(config) is Some <==> {
            let t = config.telemetry;
            t.messages || t.tool_calls || t.tool_payloads || t.model_metadata || t.model_payloads
        },
        event_stream(config) matches Some(n) ==> match config.event_channel_capacity {
            Some(capacity) => n == capacity,
            None => if config.max_tool_rounds == 0 {
                n == 1
            } else {
                n == capped(config.max_tool_rounds * 4)
            },
        },
        telemetry_stream(config) matches Some(n) ==> match config.telemetry_channel_capacity {
            Some(capacity) => n == capacity,
            None => if config.max_tool_rounds == 0 {
                n == 8
            } else {
                n == capped(config.max_tool_rounds * 8)
            },
        },
        configured(config) == (SessionView {
            turns: seq![],
            next_turn_id: 1,
            config,
            events_on: event_stream(config) is Some,
            telemetry_on: telemetry_stream(config) is Some,
            events: seq![],
            telemetry: seq![],
        }),
{
}

// ---------------------------------------------------------------------------------------------
// Turns
// ---------------------------------------------------------------------------------------------

/// A message becomes the last turn, under the next id and with all that it holds; the other turns,
/// the events and the configuration stay as they were.
pub proof fn messages_become_the_last_turn(s: SessionView, message: MessageView)
    ensures
        ({
            let after = pushed(s, message);
            &&& after.turns.len() == s.turns.len() + 1
            &&& after.turns.drop_last() == s.turns
            &&& after.turns.last().id == s.next_turn_id
            &&& after.turns.last().role == message.role
            &&& after.turns.last().content == message.content
            &&& after.turns.last().annotations == message.annotations
            &&& after.turns.last().tool_calls == message.tool_calls
            &&& after.turns.last().tool_call_id == message.tool_call_id
            &&& after.turns.last().name == message.name
            &&& match after.turns.last().reasoning {
                Some(reasoning) => reasoning == message.reasoning,
                None => message.reasoning.reasoning is None && message.reasoning.reasoning_content
                    is None && message.reasoning.reasoning_details is None,
            }
            &&& after.next_turn_id == (if s.next_turn_id == u64::MAX {
                u64::MAX
            } else {
                (s.next_turn_id + 1) as u64
            })
            &&& after.config == s.config
            &&& after.events == s.events
            &&& after.events_on == s.events_on
            &&& after.telemetry_on == s.telemetry_on
        }),
{
    assert(pushed(s, message).turns.drop_last() =~= s.turns);
}

/// A new turn is told by its role: a user's or an assistant's where messages are told, a tool's
/// where tool calls are, a system message never. Its text is told where payloads of its kind are.
pub proof fn new_turns_are_told_by_their_role(s: SessionView, message: MessageView)
    ensures
        ({
            let t = s.config.telemetry;
            let after = pushed(s, message).telemetry;
            let content_len = capped(message.content.payload() as int);
            let text = message.content.text();
            match message.role {
                MessageRole::System => after == s.telemetry,
                MessageRole::User => after == if s.telemetry_on && t.messages {
                    s.telemetry.push(
                        TelemetryView::UserMessage {
                            turn_id: s.next_turn_id,
                            content_len,
                            content: Some(text),
                        },
                    )
                } else {
                    s.telemetry
                },
                MessageRole::Assistant => after == if s.telemetry_on && t.messages {
                    s.telemetry.push(
                        TelemetryView::AssistantMessage {
                            turn_id: s.next_turn_id,
                            content_len,
                            tool_calls: message.tool_calls.len() as usize,
                            content: Some(text),
                        },
                    )
                } else {
                    s.telemetry
                },
                MessageRole::Tool => after == if s.telemetry_on && (t.tool_calls
                    || t.tool_payloads) {
                    s.telemetry.push(
                        TelemetryView::ToolMessage {
                            turn_id: s.next_turn_id,
                            tool_call_id: match message.tool_call_id {
                                Some(id) => id,
                                None => seq![],
                            },
                            name: match message.name {
                                Some(name) => name,
                                None => seq![],
                            },
                            content_len,
                            content: if t.tool_payloads {
                                Some(text)
                            } else {
                                None
                            },
                        },
                    )
                } else {
                    s.telemetry
                },
            }
        }),
{
}

/// The history is every turn in order, each with all that it holds but its id.
pub proof fn turns_are_sent_as_they_are(turns: Seq<TurnView>, i: int)
    requires
        0 <= i < turns.len(),
    ensures
        history(turns).len() == turns.len(),
        history(turns)[i] == (MessageView {
            role: turns[i].role,
            content: turns[i].content,
            annotations: turns[i].annotations,
            reasoning: match turns[i].reasoning {
                Some(reasoning) => reasoning,
                None => crate::chat::ReasoningView {
                    reasoning: None,
                    reasoning_content: None,
                    reasoning_details: None,
                },
            },
            tool_calls: turns[i].tool_calls,
            tool_call_id: turns[i].tool_call_id,
            name: turns[i].name,
        }),
{
}

/// Results are recorded one after the other, each as the answer of a tool.
pub proof fn results_are_recorded_in_order(s: SessionView, results: Seq<ResultView>, i: int)
    requires
        0 <= i < results.len(),
    ensures
        ({
            let turns = recorded(s, results).turns;
            &&& turns.len() == s.turns.len() + results.len()
            &&& turns.take(s.turns.len() as int) == s.turns
            &&& turns[s.turns.len() + i].role == MessageRole::Tool
            &&& turns[s.turns.len() + i].tool_call_id == Some(results[i].tool_call_id)
            &&& turns[s.turns.len() + i].name == Some(results[i].name)
            &&& turns[s.turns.len() + i].content == results[i].content
        }),
    decreases results.len(),
{
    let front = results.drop_last();
    let before = recorded(s, front);
    let message = result_message(results.last());
    messages_become_the_last_turn(before, message);
    let turns = recorded(s, results).turns;
    if front.len() == 0 {
        assert(before == s);
        assert(turns.take(s.turns.len() as int) =~= s.turns);
    } else {
        let k: int = if i < front.len() {
            i
        } else {
            0
        };
        results_are_recorded_in_order(s, front, k);
        assert(turns.take(s.turns.len() as int) =~= before.turns.take(s.turns.len() as int));
        if i < front.len() {
            assert(turns[s.turns.len() + i] == before.turns[s.turns.len() + i]);
        }
    }
}

// ---------------------------------------------------------------------------------------------
// Requests and calls
// ---------------------------------------------------------------------------------------------

/// Requests and responses are told with what they hold, whole only where model payloads are, and
/// change nothing else.
pub proof fn requests_and_responses_are_told(
    s: SessionView,
    provider: ConfigView,
    request: RequestView,
    response: ResponseView,
)
    ensures
        ({
            let t = s.config.telemetry;
            let told = |event: TelemetryView|
                SessionView {
                    telemetry: if s.telemetry_on && (t.model_metadata || t.model_payloads) {
                        s.telemetry.push(event)
                    } else {
                        s.telemetry
                    },
                    ..s
                };
            &&& requested(s, provider, request) == told(
                TelemetryView::ModelRequest {
                    provider: provider.name,
                    model: request.model,
                    message_count: request.messages.len() as usize,
                    tool_count: request.tools.len() as usize,
                    request: if t.model_payloads {
                        Some(request)
                    } else {
                        None
                    },
                },
            )
            &&& answered(s, provider, response) == told(
                TelemetryView::ModelResponse {
                    provider: provider.name,
                    model: provider.model,
                    content_len: capped(response.message.content.payload() as int),
                    tool_calls: response.message.tool_calls.len() as usize,
                    response: if t.model_payloads {
                        Some(response)
                    } else {
                        None
                    },
                },
            )
        }),
{
}

/// The beginning of a call is told with its id and its name, and with its arguments where tool
/// payloads are told; outside a round only telemetry tells it.
pub proof fn calls_are_told_when_they_begin(s: SessionView, call: CallView, round: Option<usize>)
    ensures
        ({
            let t = s.config.telemetry;
            let arguments = if t.tool_payloads {
                Some(call.arguments)
            } else {
                None
            };
            call_started(s, call, round) == (SessionView {
                events: match round {
                    Some(round) => if s.events_on && s.config.notifications.tool_calls {
                        s.events.push(
                            EventView::ToolCallStarted {
                                round,
                                tool_call_id: call.id,
                                name: call.name,
                                arguments,
                            },
                        )
                    } else {
                        s.events
                    },
                    None => s.events,
                },
                telemetry: if s.telemetry_on && (t.tool_calls || t.tool_payloads) {
                    s.telemetry.push(
                        TelemetryView::ToolCallStarted {
                            tool_call_id: call.id,
                            name: call.name,
                            arguments_len: byte_len(call.arguments) as usize,
                            arguments,
                        },
                    )
                } else {
                    s.telemetry
                },
                ..s
            })
        }),
{
}

/// A call that ended leaves one turn: the result that it gave, or a report of its error that asks
/// the model to try again. It is told as finished or as failed.
pub proof fn calls_leave_one_answer(
    s: SessionView,
    call: CallView,
    round: Option<usize>,
    outcome: Result<ResultView, ErrorView>,
)
    ensures
        ({
            let after = call_ended(s, call, round, outcome);
            let (id, name, content) = match outcome {
                Ok(result) => (result.tool_call_id, result.name, result.content),
                Err(error) => (
                    call.id,
                    call.name,
                    ContentView::Text(
                        "Tool error: "@ + error.message()
                            + "\nPlease correct the tool call arguments and try again."@,
                    ),
                ),
            };
            &&& after.config == s.config
            &&& after.turns.drop_last() == s.turns
            &&& history(after.turns).last() == (MessageView {
                role: MessageRole::Tool,
                content,
                annotations: seq![],
                reasoning: crate::chat::ReasoningView {
                    reasoning: None,
                    reasoning_content: None,
                    reasoning_details: None,
                },
                tool_calls: seq![],
                tool_call_id: Some(id),
                name: Some(name),
            })
            &&& after.events == (match (round, outcome) {
                (Some(round), Ok(result)) => if s.events_on && s.config.notifications.tool_results {
                    s.events.push(
                        EventView::ToolCallFinished {
                            round,
                            tool_call_id: id,
                            name,
                            content_len: capped(content.payload() as int),
                        },
                    )
                } else {
                    s.events
                },
                (Some(round), Err(error)) => if s.events_on && s.config.notifications.tool_errors {
                    s.events.push(
                        EventView::ToolCallFailed {
                            round,
                            tool_call_id: id,
                            name,
                            error: error.message(),
                        },
                    )
                } else {
                    s.events
                },
                (None, _) => s.events,
            })
        }),
{
    let after = call_ended(s, call, round, outcome);
    assert(after.turns.drop_last() =~= s.turns);
    assert(history(after.turns).last() == crate::session::turn::message_of(after.turns.last()));
}

/// A result is told as finished, with its text where tool payloads are told; a result that reports
/// an error is told as failed too.
pub proof fn results_are_told(s: SessionView, call: CallView, result: ResultView)
    ensures
        ({
            let t = s.config.telemetry;
            let finished = TelemetryView::ToolCallFinished {
                tool_call_id: result.tool_call_id,
                name: result.name,
                content_len: capped(result.content.payload() as int),
                content: if t.tool_payloads {
                    Some(result.content.text())
                } else {
                    None
                },
            };
            let failed = TelemetryView::ToolCallFailed {
                tool_call_id: call.id,
                name: call.name,
                error: ErrorView::Tool(result.content.text()).message(),
            };
            result_observed(s, call, result) == (SessionView {
                telemetry: if !(s.telemetry_on && (t.tool_calls || t.tool_payloads)) {
                    s.telemetry
                } else if "Tool error:"@.is_prefix_of(result.content.text()) {
                    s.telemetry.push(finished).push(failed)
                } else {
                    s.telemetry.push(finished)
                },
                ..s
            })
        }),
{
}

// ---------------------------------------------------------------------------------------------
// Compaction
// ---------------------------------------------------------------------------------------------

/// An edit that is refused changes nothing and gives the reason. One that is accepted changes the
/// turns alone (and takes an id for a summary), and tells how many turns it took away.
pub proof fn edits_change_the_turns_alone(
    s: SessionView,
    ids: Seq<u64>,
    summary: Seq<char>,
    reason: Seq<char>,
)
    ensures
        ({
            let recent = s.config.compaction.protect_recent_turns as nat;
            let removed = removing(s, ids, reason);
            let summarized = summarizing(s, ids, summary, reason);
            let left = removal(s.turns, ids);
            let replaced = summarization(s.turns, ids, s.next_turn_id, summary, reason);
            let fewer = |after: Seq<TurnView>|
                if s.turns.len() >= after.len() {
                    (s.turns.len() - after.len()) as nat
                } else {
                    0
                };
            &&& edit_error(s.turns, recent, ids) matches Some(error) ==> removed.session == s
                && removed.outcome == Err::<Seq<char>, ErrorView>(error) && summarized.session == s
                && summarized.outcome is Err
            &&& edit_error(s.turns, recent, ids) is None ==> removed.session == (SessionView {
                turns: left,
                ..s
            }) && removed.outcome == Ok::<Seq<char>, ErrorView>(
                "Removed "@ + decimal(fewer(left)) + " turn(s) from active context. Reason: "@
                    + reason,
            )
            &&& blank(summary) ==> summarized.session == s && summarized.outcome == Err::<
                Seq<char>,
                ErrorView,
            >(ErrorView::Tool("compact_summarize_messages requires a non-empty summary"@))
            &&& !blank(summary) && edit_error(s.turns, recent, ids) is None ==> summarized.session
                == (SessionView {
                turns: replaced,
                next_turn_id: if s.next_turn_id == u64::MAX {
                    u64::MAX
                } else {
                    (s.next_turn_id + 1) as u64
                },
                ..s
            }) && summarized.outcome == Ok::<Seq<char>, ErrorView>(
                "Summarized "@ + decimal(fewer(replaced))
                    + " turn(s) in active context. Reason: "@ + reason,
            )
        }),
{
}

/// A compaction call does what its tool is for, with the arguments that came; without arguments,
/// with arguments that cannot be read, or by another name it changes nothing.
pub proof fn compaction_calls_do_what_they_name(
    s: SessionView,
    call: CallView,
    decoded: DecodedView,
)
    ensures
        ({
            let edited = compacting(s, call, decoded);
            &&& call.name == "compact_remove_messages"@ && !blank(call.arguments)
                ==> match decoded.remove {
                Ok((ids, reason)) => edited == removing(s, ids, reason),
                Err(message) => edited.session == s && edited.outcome == Err::<
                    Seq<char>,
                    ErrorView,
                >(ErrorView::Json(message)),
            }
            &&& call.name == "compact_summarize_messages"@ && !blank(call.arguments)
                ==> match decoded.summarize {
                Ok((ids, summary, reason)) => edited == summarizing(s, ids, summary, reason),
                Err(message) => edited.session == s && edited.outcome == Err::<
                    Seq<char>,
                    ErrorView,
                >(ErrorView::Json(message)),
            }
            &&& blank(call.arguments) && (call.name == "compact_remove_messages"@ || call.name
                == "compact_summarize_messages"@) ==> edited.session == s && edited.outcome == Err::<
                Seq<char>,
                ErrorView,
            >(ErrorView::Tool(call.name + " requires arguments"@))
            &&& call.name != "compact_remove_messages"@ && call.name
                != "compact_summarize_messages"@ ==> edited.session == s && edited.outcome == Err::<
                Seq<char>,
                ErrorView,
            >(ErrorView::UnknownTool(call.name))
        }),
{
    reveal_strlit("compact_remove_messages");
    reveal_strlit("compact_summarize_messages");
    reveal_strlit(" requires arguments");
    reveal_strlit("compact_remove_messages requires arguments");
    reveal_strlit("compact_summarize_messages requires arguments");
    assert("compact_remove_messages"@.len() == 23 && "compact_summarize_messages"@.len() == 26);
    assert("compact_remove_messages"@ + " requires arguments"@
        =~= "compact_remove_messages requires arguments"@);
    assert("compact_summarize_messages"@ + " requires arguments"@
        =~= "compact_summarize_messages requires arguments"@);
}

/// A compaction call is answered in one turn: with a short acknowledgement of what was done, or
/// with a report of what was wrong.
pub proof fn compaction_calls_are_acknowledged(
    s: SessionView,
    call: CallView,
    decoded: DecodedView,
)
    ensures
        ({
            let (after, result) = compaction_call_made(s, call, decoded);
            let recorded = compaction_call_recorded(s, call, decoded);
            let edited = compacting(s, call, decoded);
            &&& after.turns == edited.session.turns
            &&& after.next_turn_id == edited.session.next_turn_id
            &&& after.config == s.config
            &&& result.tool_call_id == call.id
            &&& result.name == call.name
            &&& match edited.outcome {
                Ok(detail) => result.content == ContentView::Text(
                    "Compaction acknowledged: "@ + (if call.name == "compact_remove_messages"@ {
                        "removed selected context"@
                    } else {
                        "summarized selected context"@
                    }) + ". "@ + preview_view(detail, 160),
                ),
                Err(error) => result.content == ContentView::Text(
                    "Tool error: "@ + error.message()
                        + "\nPlease correct the tool call arguments and try again."@,
                ),
            }
            &&& recorded.turns.drop_last() == after.turns
            &&& recorded.turns.last().role == MessageRole::Tool
            &&& recorded.turns.last().tool_call_id == Some(call.id)
            &&& recorded.turns.last().name == Some(call.name)
            &&& recorded.turns.last().content == result.content
            &&& recorded.next_turn_id == (if after.next_turn_id == u64::MAX {
                u64::MAX
            } else {
                (after.next_turn_id + 1) as u64
            })
            &&& after.events == (if s.events_on && s.config.notifications.compaction {
                s.events.push(
                    EventView::CompactionToolCallStarted {
                        tool_call_id: call.id,
                        name: call.name,
                        arguments: call.arguments,
                    },
                )
            } else {
                s.events
            })
        }),
{
    reveal_strlit("compact_remove_messages");
    reveal_strlit("compact_summarize_messages");
    assert("compact_remove_messages"@.len() == 23 && "compact_summarize_messages"@.len() == 26);
    let recorded = compaction_call_recorded(s, call, decoded);
    let (after, result) = compaction_call_made(s, call, decoded);
    assert(recorded.turns.drop_last() =~= after.turns);
    let begun = crate::session::model::compaction_call_started(s, call);
    assert(begun.turns == s.turns && begun.config == s.config && begun.next_turn_id
        == s.next_turn_id);
}

/// Sessions start out with eight tool rounds, with compaction from two hundred thousand tokens
/// down to a hundred and sixty thousand in at most four rounds, and with no event told.
pub proof fn sessions_start_out_quiet(s: SessionView)
    requires
        s == fresh_session(default_config(), false, false),
    ensures
        s.turns.len() == 0 && s.next_turn_id == 1 && !s.events_on && !s.telemetry_on,
        s.config.max_tool_rounds == 8,
        s.config.compaction == (CompactionConfig {
            enabled: true,
            trigger_estimated_tokens: 200_000,
            target_estimated_tokens: 160_000,
            max_compaction_rounds: 4,
            always_offer_tools: true,
            protect_recent_turns: 4,
            top_consumers: 30,
        }),
        s.config.event_channel_capacity is None,
        s.config.telemetry_channel_capacity is None,
        forall|event: EventView| !(#[trigger] wants_event(s.config.notifications, event)),
        forall|event: TelemetryView| !(#[trigger] wants_telemetry(s.config.telemetry, event)),
{
}

} // verus!
