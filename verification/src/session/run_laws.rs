//! What holds of managed runs as a whole: what is sent, when the context is trimmed, and in which
//! order calls are taken.

use vstd::prelude::*;

use crate::chat::{CallView, MessageRole, ResponseView};
use crate::common::capped;
use crate::content::ContentView;
use crate::error::ErrorView;
use crate::provider::ConfigView;
use crate::session::compaction::{breakdown_of, context_tokens};
use crate::session::edit::cleanup;
use crate::session::event::EventView;
use crate::session::instruction::instruction_view;
use crate::session::model::{history, DecodedView, SessionView};
use crate::session::model::{answered, call_ended, call_started, compaction_call_recorded, pushed};
use crate::session::run::{begin_round, on_arguments_view, on_outcome_view, on_response_view};
use crate::session::run::{ask, ask_to_compact, compaction_started, end_compaction};
use crate::session::run::{new_run, next_call, next_compaction_call};
use crate::session::run::{ActionView, PhaseView, RunView, Step};
use crate::session::telemetry::TelemetryView;
use crate::text::decimal;
use crate::tools::compact::compaction_tool;
use crate::tools::{DefinitionView, ResultView};

verus! {

// ---------------------------------------------------------------------------------------------
// Requests
// ---------------------------------------------------------------------------------------------

/// Whether a step of a run leaves its tools and its configuration alone, does what its phase says,
/// and sends only whole requests: one for an answer holds the whole history and every tool of the
/// run, and the compaction tools behind them where they are always offered; one for compaction
/// holds the history, one system message behind it, and the compaction tools alone.
pub open spec fn sends_whole_requests(
    run: RunView,
    s: SessionView,
    provider: ConfigView,
    step: Step,
) -> bool {
    &&& step.run.tools == run.tools
    &&& step.run.compaction_tools == run.compaction_tools
    &&& step.session.config == s.config
    &&& match step.action {
        ActionView::Send { request } => {
            &&& request.model == provider.model
            &&& request.reasoning == provider.reasoning
            &&& request.tool_choice is None
            &&& request.temperature_bits is None
            &&& request.max_tokens is None
            &&& request.response_format is None
            &&& match step.run.phase {
                PhaseView::Asking => {
                    &&& request.messages == history(step.session.turns)
                    &&& forall|i: int|
                        0 <= i < run.tools.len() ==> request.tools.contains(
                            #[trigger] run.tools[i],
                        )
                    &&& s.config.compaction.enabled && s.config.compaction.always_offer_tools
                        ==> request.tools == run.tools + run.compaction_tools
                    &&& !(s.config.compaction.enabled && s.config.compaction.always_offer_tools)
                        ==> request.tools == run.tools
                },
                PhaseView::Compacting { .. } => {
                    &&& request.messages.len() == step.session.turns.len() + 1
                    &&& request.messages.drop_last() == history(step.session.turns)
                    &&& request.messages.last().role == MessageRole::System
                    &&& request.tools == run.compaction_tools
                },
                _ => false,
            }
        },
        ActionView::Compact { call } => match step.run.phase {
            PhaseView::Calls { calls, next, .. } => 0 <= next < calls.len() && call == calls[next]
                && compaction_tool(call.name),
            PhaseView::CompactionCalls { calls, next, .. } => 0 <= next < calls.len() && call
                == calls[next],
            _ => false,
        },
        ActionView::CallTool { call } => match step.run.phase {
            PhaseView::Calls { calls, next, .. } => 0 <= next < calls.len() && call == calls[next]
                && !compaction_tool(call.name),
            _ => false,
        },
        ActionView::Finish { .. } => step.run.phase is Ended,
        ActionView::Stop { .. } => step.run.phase is Ended,
    }
}

proof fn lemma_ask_is_whole(run: RunView, s: SessionView, provider: ConfigView)
    ensures
        sends_whole_requests(run, s, provider, ask(run, s, provider)),
{
    let step = ask(run, s, provider);
    let request = step.action->Send_request;
    assert forall|i: int| 0 <= i < run.tools.len() implies request.tools.contains(
        #[trigger] run.tools[i],
    ) by {
        assert(request.tools[i] == run.tools[i]);
    }
}

proof fn lemma_ask_to_compact_is_whole(
    run: RunView,
    s: SessionView,
    provider: ConfigView,
    before: usize,
    rounds: usize,
)
    ensures
        sends_whole_requests(
            run,
            s,
            provider,
            ask_to_compact(run, s, provider, before, rounds),
        ),
{
    let step = ask_to_compact(run, s, provider, before, rounds);
    let request = step.action->Send_request;
    assert(request.messages.drop_last() =~= history(s.turns));
}

proof fn lemma_end_is_whole(
    run: RunView,
    s: SessionView,
    provider: ConfigView,
    before: usize,
    rounds: usize,
)
    ensures
        sends_whole_requests(
            run,
            s,
            provider,
            end_compaction(run, s, provider, before, rounds),
        ),
{
    let after = context_tokens(s.turns);
    let told = crate::session::model::emitted(
        s,
        crate::session::event::EventView::CompactionFinished {
            before_estimated_tokens: before,
            after_estimated_tokens: after,
            rounds,
        },
    );
    let ended = RunView {
        deferred: run.deferred || after > s.config.compaction.target_estimated_tokens,
        ..run
    };
    lemma_ask_is_whole(ended, told, provider);
}

proof fn lemma_begin_is_whole(run: RunView, s: SessionView, provider: ConfigView)
    ensures
        sends_whole_requests(run, s, provider, begin_round(run, s, provider)),
{
    lemma_ask_is_whole(run, s, provider);
    let started = compaction_started(s);
    let before = context_tokens(started.turns);
    assert(started.config == s.config);
    lemma_end_is_whole(run, started, provider, before, 0);
    lemma_ask_to_compact_is_whole(run, started, provider, before, 0);
}

proof fn lemma_next_call_is_whole(
    run: RunView,
    s: SessionView,
    provider: ConfigView,
    round: usize,
    calls: Seq<CallView>,
    next: int,
)
    requires
        0 <= next <= calls.len(),
    ensures
        sends_whole_requests(run, s, provider, next_call(run, s, provider, round, calls, next)),
{
    reveal(next_call);
    if next == calls.len() {
        lemma_begin_is_whole(
            RunView { phase: PhaseView::Ready, rounds: round, ..run },
            s,
            provider,
        );
    }
}

proof fn lemma_next_compaction_call_is_whole(
    run: RunView,
    s: SessionView,
    provider: ConfigView,
    before: usize,
    rounds: usize,
    calls: Seq<CallView>,
    next: int,
)
    requires
        0 <= next <= calls.len(),
    ensures
        sends_whole_requests(
            run,
            s,
            provider,
            next_compaction_call(run, s, provider, before, rounds, calls, next),
        ),
{
    reveal(next_compaction_call);
    let done = (rounds + 1) as usize;
    lemma_end_is_whole(run, s, provider, before, done);
    lemma_ask_to_compact_is_whole(run, s, provider, before, done);
}

/// A round of a run begins with a whole request, however many rounds are done.
pub proof fn every_round_begins_with_a_whole_request(
    run: RunView,
    s: SessionView,
    provider: ConfigView,
)
    ensures
        sends_whole_requests(run, s, provider, begin_round(run, s, provider)),
{
    lemma_begin_is_whole(run, s, provider);
}

/// What a run does with a response is in order, and so is what it sends then.
pub proof fn every_request_behind_a_response_is_whole(
    run: RunView,
    s: SessionView,
    provider: ConfigView,
    response: ResponseView,
)
    ensures
        sends_whole_requests(run, s, provider, on_response_view(run, s, provider, response)),
{
    let received = answered(s, provider, response);
    let calls = response.message.tool_calls;
    if let PhaseView::Compacting { before, rounds } = run.phase {
        let skipped = crate::session::model::emitted(
            received,
            crate::session::event::EventView::CompactionSkipped {
                reason: "model did not call a compaction tool"@,
            },
        );
        lemma_end_is_whole(run, skipped, provider, before, rounds);
        lemma_next_compaction_call_is_whole(
            run,
            pushed(received, response.message),
            provider,
            before,
            rounds,
            calls,
            0,
        );
    } else {
        let told = crate::session::model::emitted(
            received,
            crate::session::event::EventView::ModelResponseReceived {
                completed_tool_rounds: run.rounds,
                tool_calls: calls.len() as usize,
                content_len: crate::common::capped(response.message.content.payload() as int),
            },
        );
        let round = (run.rounds + 1) as usize;
        let started = crate::session::model::emitted(
            told,
            crate::session::event::EventView::ToolRoundStarted {
                round,
                tool_calls: calls.len() as usize,
            },
        );
        lemma_next_call_is_whole(run, pushed(started, response.message), provider, round, calls, 0);
    }
}

/// What a run does with the arguments of a compaction call is in order, and so is what it sends
/// then.
pub proof fn every_request_behind_arguments_is_whole(
    run: RunView,
    s: SessionView,
    provider: ConfigView,
    decoded: DecodedView,
)
    requires
        run.wf(),
        run.phase is Calls || run.phase is CompactionCalls,
    ensures
        sends_whole_requests(run, s, provider, on_arguments_view(run, s, provider, decoded)),
{
    let after = compaction_call_recorded(s, run.current_call(), decoded);
    assert(after.config == s.config);
    match run.phase {
        PhaseView::CompactionCalls { before, rounds, calls, next } => {
            lemma_next_compaction_call_is_whole(
                run,
                after,
                provider,
                before,
                rounds,
                calls,
                next + 1,
            );
        },
        PhaseView::Calls { round, calls, next } => {
            lemma_next_call_is_whole(run, after, provider, round, calls, next + 1);
        },
        _ => {},
    }
}

/// What a run does with the outcome of a tool call is in order, and so is what it sends then.
pub proof fn every_request_behind_an_outcome_is_whole(
    run: RunView,
    s: SessionView,
    provider: ConfigView,
    outcome: Result<ResultView, ErrorView>,
)
    requires
        run.wf(),
        run.phase is Calls,
    ensures
        sends_whole_requests(run, s, provider, on_outcome_view(run, s, provider, outcome)),
{
    if let PhaseView::Calls { round, calls, next } = run.phase {
        let after = call_ended(s, calls[next], Some(round), outcome);
        assert(after.config == s.config);
        lemma_next_call_is_whole(run, after, provider, round, calls, next + 1);
    }
}

// ---------------------------------------------------------------------------------------------
// The trigger
// ---------------------------------------------------------------------------------------------

/// Whether the context is over the trigger, and no attempt stands against trimming it.
pub open spec fn over_the_trigger(run: RunView, s: SessionView) -> bool {
    &&& s.config.compaction.enabled
    &&& !run.deferred
    &&& context_tokens(s.turns) >= s.config.compaction.trigger_estimated_tokens
}

/// A round over the trigger begins with a compaction request, whatever rounds were done before it,
/// and any other round with a request for an answer.
pub proof fn every_round_over_the_trigger_compacts(run: RunView, s: SessionView, provider: ConfigView)
    ensures
        over_the_trigger(run, s) && s.config.compaction.max_compaction_rounds > 0 ==> {
            &&& begin_round(run, s, provider).run.phase matches PhaseView::Compacting {
                rounds,
                ..
            } && rounds == 0
            &&& begin_round(run, s, provider).action matches ActionView::Send { request }
                && request.tools == run.compaction_tools
        },
        over_the_trigger(run, s) && s.config.compaction.max_compaction_rounds == 0 ==> begin_round(
            run,
            s,
            provider,
        ).run.phase is Asking,
        !over_the_trigger(run, s) ==> {
            &&& begin_round(run, s, provider).run == (RunView { phase: PhaseView::Asking, ..run })
            &&& begin_round(run, s, provider).session.turns == s.turns
        },
        begin_round(run, s, provider).run.rounds == run.rounds,
{
}

/// The trigger is looked at behind the last call of every round, with the result of that call
/// counted in.
pub proof fn the_trigger_is_looked_at_behind_every_round(
    run: RunView,
    s: SessionView,
    provider: ConfigView,
    decoded: DecodedView,
    outcome: Result<ResultView, ErrorView>,
    round: usize,
    calls: Seq<CallView>,
)
    requires
        calls.len() > 0,
        run.phase == (PhaseView::Calls { round, calls, next: calls.len() - 1 }),
        s.config.compaction.max_compaction_rounds > 0,
    ensures
        ({
            let told = call_ended(s, calls.last(), Some(round), outcome);
            let step = on_outcome_view(run, s, provider, outcome);
            &&& step.run.rounds == round
            &&& (step.run.phase is Compacting) == over_the_trigger(run, told)
            &&& (step.run.phase is Asking) == !over_the_trigger(run, told)
        }),
        ({
            let told = compaction_call_recorded(s, calls.last(), decoded);
            let step = on_arguments_view(run, s, provider, decoded);
            &&& step.run.rounds == round
            &&& (step.run.phase is Compacting) == over_the_trigger(run, told)
            &&& (step.run.phase is Asking) == !over_the_trigger(run, told)
        }),
{
    reveal(next_call);
    let told = call_ended(s, calls.last(), Some(round), outcome);
    assert(told.config == s.config);
    let made = compaction_call_recorded(s, calls.last(), decoded);
    assert(made.config == s.config);
}

/// An attempt at compaction goes on while calls are made, the target is missed and rounds are left;
/// it ends where the model makes no call. It puts off further attempts exactly where it missed the
/// target.
pub proof fn compaction_goes_on_until_the_target(
    run: RunView,
    s: SessionView,
    provider: ConfigView,
    response: ResponseView,
    decoded: DecodedView,
    before: usize,
    rounds: usize,
    calls: Seq<CallView>,
)
    requires
        rounds < usize::MAX,
        calls.len() > 0,
    ensures
        ({
            let asked = RunView { phase: PhaseView::Compacting { before, rounds }, ..run };
            let step = on_response_view(asked, s, provider, response);
            &&& response.message.tool_calls.len() == 0 ==> {
                &&& step.run.phase is Asking
                &&& step.session.turns == s.turns
                &&& step.run.deferred == (run.deferred || context_tokens(s.turns)
                    > s.config.compaction.target_estimated_tokens)
            }
            &&& response.message.tool_calls.len() > 0 ==> {
                &&& step.run.phase == (PhaseView::CompactionCalls {
                    before,
                    rounds,
                    calls: response.message.tool_calls,
                    next: 0,
                })
                &&& step.run.deferred == run.deferred
                &&& history(step.session.turns) == history(s.turns).push(response.message)
            }
        }),
        ({
            let last = RunView {
                phase: PhaseView::CompactionCalls { before, rounds, calls, next: calls.len() - 1 },
                ..run
            };
            let made = compaction_call_recorded(s, calls.last(), decoded);
            let step = on_arguments_view(last, s, provider, decoded);
            let reached = context_tokens(made.turns) <= s.config.compaction.target_estimated_tokens;
            let spent = rounds + 1 >= s.config.compaction.max_compaction_rounds;
            &&& step.session.turns == made.turns
            &&& reached || spent ==> step.run.phase is Asking && step.run.deferred == (run.deferred
                || !reached)
            &&& !reached && !spent ==> step.run.phase == (PhaseView::Compacting {
                before,
                rounds: (rounds + 1) as usize,
            }) && step.run.deferred == run.deferred
        }),
{
    reveal(next_compaction_call);
    let made = compaction_call_recorded(s, calls.last(), decoded);
    assert(made.config == s.config);
    crate::session::model::history_only_grows(
        crate::session::model::answered(s, provider, response),
        response.message,
    );
}

// ---------------------------------------------------------------------------------------------
// Calls
// ---------------------------------------------------------------------------------------------

/// The calls of a response are taken one by one and in order, in one round; the response itself is
/// in the history before them.
pub proof fn calls_are_taken_in_order(
    run: RunView,
    s: SessionView,
    provider: ConfigView,
    response: ResponseView,
    decoded: DecodedView,
    outcome: Result<ResultView, ErrorView>,
    round: usize,
    calls: Seq<CallView>,
    next: int,
)
    requires
        0 <= next < calls.len() - 1,
    ensures
        run.phase is Asking && response.message.tool_calls.len() > 0 && run.rounds
            < s.config.max_tool_rounds ==> {
            let step = on_response_view(run, s, provider, response);
            &&& step.run == (RunView {
                phase: PhaseView::Calls {
                    round: (run.rounds + 1) as usize,
                    calls: response.message.tool_calls,
                    next: 0,
                },
                ..run
            })
            &&& history(step.session.turns) == history(s.turns).push(response.message)
        },
        run.phase == (PhaseView::Calls { round, calls, next }) ==> {
            &&& on_outcome_view(run, s, provider, outcome).run == (RunView {
                phase: PhaseView::Calls { round, calls, next: next + 1 },
                ..run
            })
            &&& on_arguments_view(run, s, provider, decoded).run == (RunView {
                phase: PhaseView::Calls { round, calls, next: next + 1 },
                ..run
            })
        },
{
    reveal(next_call);
    if run.phase is Asking && response.message.tool_calls.len() > 0 && run.rounds
        < s.config.max_tool_rounds {
        lemma_pushed_history(run, s, provider, response);
    }
}

proof fn lemma_pushed_history(
    run: RunView,
    s: SessionView,
    provider: ConfigView,
    response: ResponseView,
)
    requires
        run.phase is Asking,
        response.message.tool_calls.len() > 0,
        run.rounds < s.config.max_tool_rounds,
    ensures
        history(on_response_view(run, s, provider, response).session.turns) == history(
            s.turns,
        ).push(response.message),
{
    reveal(next_call);
    crate::session::turn::replay_gives_back_what_was_stored(s.next_turn_id, response.message);
    assert(history(on_response_view(run, s, provider, response).session.turns) =~= history(
        s.turns,
    ).push(response.message));
}

/// A run that has used up its rounds stops at the next call, and says how many it was allowed; the
/// history stays as it was.
pub proof fn a_run_stops_where_its_rounds_are_used_up(
    run: RunView,
    s: SessionView,
    provider: ConfigView,
    response: ResponseView,
)
    requires
        run.phase is Asking,
        response.message.tool_calls.len() > 0,
    ensures
        ({
            let step = on_response_view(run, s, provider, response);
            &&& (step.action is Stop) == (run.rounds >= s.config.max_tool_rounds)
            &&& step.action is Stop ==> {
                &&& step.action == (ActionView::Stop {
                    error: ErrorView::Tool(
                        "stopped after "@ + decimal(s.config.max_tool_rounds as nat)
                            + " tool rounds without a final answer"@,
                    ),
                })
                &&& step.session.turns == s.turns
            }
        }),
{
    reveal(next_call);
}

// ---------------------------------------------------------------------------------------------
// Events
// ---------------------------------------------------------------------------------------------

/// Earlier events with another behind them, where its kind is told.
pub open spec fn told(s: SessionView, on: bool, events: Seq<EventView>, event: EventView) -> Seq<
    EventView,
> {
    if s.events_on && on {
        events.push(event)
    } else {
        events
    }
}

/// A round that starts without compaction tells that the model is asked, and how many rounds were
/// done. One that compacts first cleans up what earlier compaction left, tells the size and the
/// largest parts of what is left, and instructs the model by them.
pub proof fn rounds_are_told_when_they_begin(run: RunView, s: SessionView, provider: ConfigView)
    ensures
        ({
            let n = s.config.notifications;
            let step = begin_round(run, s, provider);
            let asked = EventView::ModelRequestStarted { completed_tool_rounds: run.rounds };
            let turns = cleanup(s.turns);
            let breakdown = breakdown_of(turns, s.config.compaction.top_consumers as nat);
            let target = s.config.compaction.target_estimated_tokens;
            let tokens = context_tokens(turns);
            let started = told(
                s,
                n.compaction,
                told(
                    s,
                    n.compaction,
                    s.events,
                    EventView::CompactionStarted {
                        estimated_tokens: tokens,
                        target_estimated_tokens: target,
                    },
                ),
                EventView::CompactionBreakdown {
                    total_estimated_tokens: breakdown.total_tokens,
                    largest_turns: breakdown.largest_turns,
                    largest_tool_calls: breakdown.largest_tool_calls,
                },
            );
            &&& !over_the_trigger(run, s) ==> step.session.events == told(
                s,
                n.model_requests,
                s.events,
                asked,
            )
            &&& over_the_trigger(run, s) ==> {
                &&& step.session.turns == turns
                &&& s.config.compaction.max_compaction_rounds > 0 ==> {
                    &&& step.session.events == started
                    &&& step.run.phase == (PhaseView::Compacting { before: tokens, rounds: 0 })
                    &&& step.action matches ActionView::Send { request }
                        && request.messages.last().content == ContentView::Text(
                        instruction_view(target, breakdown),
                    )
                }
                &&& s.config.compaction.max_compaction_rounds == 0 ==> step.session.events == told(
                    s,
                    n.model_requests,
                    told(
                        s,
                        n.compaction,
                        started,
                        EventView::CompactionFinished {
                            before_estimated_tokens: tokens,
                            after_estimated_tokens: tokens,
                            rounds: 0,
                        },
                    ),
                    asked,
                )
            }
        }),
{
}

/// The events behind a response: it is told with the rounds that were done and what it holds.
pub open spec fn response_told(run: RunView, s: SessionView, response: ResponseView) -> Seq<
    EventView,
> {
    told(
        s,
        s.config.notifications.model_responses,
        s.events,
        EventView::ModelResponseReceived {
            completed_tool_rounds: run.rounds,
            tool_calls: response.message.tool_calls.len() as usize,
            content_len: capped(response.message.content.payload() as int),
        },
    )
}

/// A response without calls is told, becomes the last turn, and is the answer.
pub proof fn answers_are_told(
    run: RunView,
    s: SessionView,
    provider: ConfigView,
    response: ResponseView,
)
    requires
        run.phase is Asking,
        response.message.tool_calls.len() == 0,
    ensures
        ({
            let step = on_response_view(run, s, provider, response);
            &&& step.session.events == response_told(run, s, response)
            &&& step.action == (ActionView::Finish { response })
            &&& step.run.phase is Ended
            &&& history(step.session.turns) == history(s.turns).push(response.message)
        }),
{
    let received = answered(s, provider, response);
    let heard = crate::session::model::emitted(
        received,
        EventView::ModelResponseReceived {
            completed_tool_rounds: run.rounds,
            tool_calls: response.message.tool_calls.len() as usize,
            content_len: capped(response.message.content.payload() as int),
        },
    );
    crate::session::model::history_only_grows(heard, response.message);
}

/// A response with calls is told, and behind it that there are no rounds left where there are
/// none.
pub proof fn used_up_rounds_are_told(
    run: RunView,
    s: SessionView,
    provider: ConfigView,
    response: ResponseView,
)
    requires
        run.phase is Asking,
        response.message.tool_calls.len() > 0,
        run.rounds >= s.config.max_tool_rounds,
    ensures
        on_response_view(run, s, provider, response).session.events == told(
            s,
            s.config.notifications.tool_rounds,
            response_told(run, s, response),
            EventView::MaxToolRoundsReached { max_tool_rounds: s.config.max_tool_rounds },
        ),
{
}

/// A response with calls is told, and behind it the round that it starts and its first call.
pub proof fn started_rounds_are_told(
    run: RunView,
    s: SessionView,
    provider: ConfigView,
    response: ResponseView,
)
    requires
        run.phase is Asking,
        response.message.tool_calls.len() > 0,
        run.rounds < s.config.max_tool_rounds,
        !compaction_tool(response.message.tool_calls[0].name),
    ensures
        ({
            let n = s.config.notifications;
            let step = on_response_view(run, s, provider, response);
            let calls = response.message.tool_calls;
            let round = (run.rounds + 1) as usize;
            &&& step.action == (ActionView::CallTool { call: calls[0] })
            &&& step.session.events == told(
                s,
                n.tool_calls,
                told(
                    s,
                    n.tool_rounds,
                    response_told(run, s, response),
                    EventView::ToolRoundStarted { round, tool_calls: calls.len() as usize },
                ),
                EventView::ToolCallStarted {
                    round,
                    tool_call_id: calls[0].id,
                    name: calls[0].name,
                    arguments: if s.config.telemetry.tool_payloads {
                        Some(calls[0].arguments)
                    } else {
                        None
                    },
                },
            )
        }),
{
    reveal(next_call);
}

/// Behind each call the next one is begun and told; a compaction that ends is told with its
/// rounds, from what size it came to which, and the model is asked with what it left.
pub proof fn what_comes_next_is_told(
    run: RunView,
    s: SessionView,
    provider: ConfigView,
    outcome: Result<ResultView, ErrorView>,
    response: ResponseView,
    before: usize,
    rounds: usize,
    round: usize,
    calls: Seq<CallView>,
    next: int,
)
    requires
        0 <= next < calls.len() - 1,
        rounds < usize::MAX,
        response.message.tool_calls.len() == 0,
    ensures
        run.phase == (PhaseView::Calls { round, calls, next }) ==> {
            let step = on_outcome_view(run, s, provider, outcome);
            let ended = call_ended(s, calls[next], Some(round), outcome);
            if compaction_tool(calls[next + 1].name) {
                step.session == ended && step.action == (ActionView::Compact {
                    call: calls[next + 1],
                })
            } else {
                step.session == call_started(ended, calls[next + 1], Some(round)) && step.action
                    == (ActionView::CallTool { call: calls[next + 1] })
            }
        },
        run.phase == (PhaseView::Compacting { before, rounds }) ==> {
            let n = s.config.notifications;
            on_response_view(run, s, provider, response).session.events == told(
                s,
                n.model_requests,
                told(
                    s,
                    n.compaction,
                    told(
                        s,
                        n.compaction,
                        s.events,
                        EventView::CompactionSkipped {
                            reason: "model did not call a compaction tool"@,
                        },
                    ),
                    EventView::CompactionFinished {
                        before_estimated_tokens: before,
                        after_estimated_tokens: context_tokens(s.turns),
                        rounds,
                    },
                ),
                EventView::ModelRequestStarted { completed_tool_rounds: run.rounds },
            )
        },
{
    reveal(next_call);
}

/// A run starts with no round done, with nothing put off, and with the tools that it was given.
pub proof fn runs_start_afresh(tools: Seq<DefinitionView>, compaction_tools: Seq<DefinitionView>)
    ensures
        new_run(tools, compaction_tools) == (RunView {
            phase: PhaseView::Ready,
            rounds: 0,
            deferred: false,
            tools,
            compaction_tools,
        }),
{
}

/// A compaction that ends behind its calls is told with the rounds that it took, and from which
/// size it came to which; then the model is asked.
pub proof fn ended_compactions_are_told(
    run: RunView,
    s: SessionView,
    provider: ConfigView,
    decoded: DecodedView,
    before: usize,
    rounds: usize,
    calls: Seq<CallView>,
)
    requires
        rounds < usize::MAX,
        calls.len() > 0,
        run.phase == (PhaseView::CompactionCalls { before, rounds, calls, next: calls.len() - 1 }),
    ensures
        ({
            let n = s.config.notifications;
            let made = compaction_call_recorded(s, calls.last(), decoded);
            let after = context_tokens(made.turns);
            let step = on_arguments_view(run, s, provider, decoded);
            let ended = after <= s.config.compaction.target_estimated_tokens || rounds + 1
                >= s.config.compaction.max_compaction_rounds;
            &&& ended ==> step.session.events == told(
                s,
                n.model_requests,
                told(
                    s,
                    n.compaction,
                    made.events,
                    EventView::CompactionFinished {
                        before_estimated_tokens: before,
                        after_estimated_tokens: after,
                        rounds: (rounds + 1) as usize,
                    },
                ),
                EventView::ModelRequestStarted { completed_tool_rounds: run.rounds },
            )
            &&& !ended ==> step.session.events == made.events
        }),
{
    reveal(next_compaction_call);
    let made = compaction_call_recorded(s, calls.last(), decoded);
    assert(made.config == s.config && made.events_on == s.events_on);
}

/// Whether a step sends a request and observes it behind what was observed before, where requests
/// are told, and takes no turn id.
pub open spec fn observes_its_request(s: SessionView, provider: ConfigView, step: Step) -> bool {
    let t = s.config.telemetry;
    &&& step.session.next_turn_id == s.next_turn_id
    &&& step.action matches ActionView::Send { request } && step.session.telemetry == (
    if s.telemetry_on && (t.model_metadata || t.model_payloads) {
        s.telemetry.push(
            TelemetryView::ModelRequest {
                provider: provider.name,
                model: request.model,
                message_count: request.messages.len() as usize,
                tool_count: request.tools.len() as usize,
                request: if t.model_payloads {
                    Some(request)
                } else {
                    None
                },
            },
        )
    } else {
        s.telemetry
    })
}

proof fn lemma_ask_observes(run: RunView, s: SessionView, provider: ConfigView)
    ensures
        observes_its_request(s, provider, ask(run, s, provider)),
{
}

proof fn lemma_compaction_observes(
    run: RunView,
    s: SessionView,
    provider: ConfigView,
    before: usize,
    rounds: usize,
)
    ensures
        observes_its_request(s, provider, ask_to_compact(run, s, provider, before, rounds)),
{
}

proof fn lemma_end_observes(
    run: RunView,
    s: SessionView,
    provider: ConfigView,
    before: usize,
    rounds: usize,
)
    ensures
        observes_its_request(s, provider, end_compaction(run, s, provider, before, rounds)),
{
    let after = context_tokens(s.turns);
    let emitted = crate::session::model::emitted(
        s,
        EventView::CompactionFinished {
            before_estimated_tokens: before,
            after_estimated_tokens: after,
            rounds,
        },
    );
    let next = RunView {
        deferred: run.deferred || after > s.config.compaction.target_estimated_tokens,
        ..run
    };
    lemma_ask_observes(next, emitted, provider);
}

/// A request is observed as it is sent, behind what was observed before; beginning a round takes no
/// turn id.
pub proof fn requests_are_observed(run: RunView, s: SessionView, provider: ConfigView)
    ensures
        observes_its_request(s, provider, begin_round(run, s, provider)),
{
    let started = compaction_started(s);
    let before = context_tokens(started.turns);
    assert(started.config == s.config && started.telemetry == s.telemetry && started.telemetry_on
        == s.telemetry_on && started.next_turn_id == s.next_turn_id);
    lemma_ask_observes(run, s, provider);
    lemma_compaction_observes(run, started, provider, before, 0);
    lemma_end_observes(run, started, provider, before, 0);
}

/// A response is observed as it came, before the turn that it becomes.
pub proof fn responses_are_observed(
    run: RunView,
    s: SessionView,
    provider: ConfigView,
    response: ResponseView,
)
    requires
        run.phase is Asking,
        response.message.tool_calls.len() == 0,
        response.message.role == MessageRole::Assistant,
    ensures
        ({
            let t = s.config.telemetry;
            let content_len = capped(response.message.content.payload() as int);
            let seen = if s.telemetry_on && (t.model_metadata || t.model_payloads) {
                s.telemetry.push(
                    TelemetryView::ModelResponse {
                        provider: provider.name,
                        model: provider.model,
                        content_len,
                        tool_calls: 0,
                        response: if t.model_payloads {
                            Some(response)
                        } else {
                            None
                        },
                    },
                )
            } else {
                s.telemetry
            };
            on_response_view(run, s, provider, response).session.telemetry == (if s.telemetry_on
                && t.messages {
                seen.push(
                    TelemetryView::AssistantMessage {
                        turn_id: s.next_turn_id,
                        content_len,
                        tool_calls: 0,
                        content: Some(response.message.content.text()),
                    },
                )
            } else {
                seen
            })
        }),
{
}

} // verus!
