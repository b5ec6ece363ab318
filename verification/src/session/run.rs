//! The managed run: model requests, tool rounds, and automatic compaction, step by step.
//!
//! A run decides; it neither sends requests nor runs tools. Each step takes what the last action
//! gave, and returns the next action.

use vstd::prelude::*;

use crate::chat::{CallView, ChatMessage, ChatRequest, ChatResponse, MessageRole};
use crate::chat::{MessageView, RequestView, ResponseView, ToolCall};
use crate::common::{capped, duplicate_all, lemma_views_push, outcome, views, Duplicate};
use crate::content::ContentView;
use crate::error::{Error, ErrorView};
use crate::provider::{request_for, ChatProvider, ConfigView};
use crate::session::compaction::{breakdown_of, context_tokens};
use crate::session::edit::cleanup;
use crate::session::event::{AgentEvent, EventView};
use crate::session::instruction::{instruction, instruction_view};
use crate::session::model::{answered, call_ended, call_started, compaction_call_recorded};
use crate::session::model::{emitted, history, pushed, requested, DecodedView, SessionConfig, SessionView};
use crate::session::{system_prompt, ChatSession, DecodedArguments};
use crate::text::{decimal, decimal_text};
use crate::tools::compact::{compaction_tool, is_compaction_tool};
use crate::tools::{error_result, reported, result_message, DefinitionView, ResultView, ToolDefinition, ToolResult};

verus! {

broadcast use lemma_views_push;

// ---------------------------------------------------------------------------------------------
// Types
// ---------------------------------------------------------------------------------------------

/// What a run waits for.
pub enum RunPhase {
    /// To begin, or to begin another round.
    Ready,
    /// The response to a compaction request.
    Compacting { before: usize, rounds: usize },
    /// The arguments of a call of a compaction response.
    CompactionCalls { before: usize, rounds: usize, calls: Vec<ToolCall>, next: usize },
    /// The response to a model request.
    Asking,
    /// The arguments or the outcome of a call of a model response.
    Calls { round: usize, calls: Vec<ToolCall>, next: usize },
    /// Nothing: the run has ended.
    Ended,
}

/// A managed run of a session.
pub struct ManagedRun {
    phase: RunPhase,
    rounds: usize,
    deferred: bool,
    tools: Vec<ToolDefinition>,
    compaction_tools: Vec<ToolDefinition>,
}

/// What to do next.
#[derive(Debug, PartialEq, Eq)]
pub enum RunAction {
    /// Send the request, and hand back the response.
    Send { request: ChatRequest },
    /// Decode the arguments of the compaction call, and hand them back.
    Compact { call: ToolCall },
    /// Run the tool, and hand back the outcome.
    CallTool { call: ToolCall },
    /// End with the response.
    Finish { response: ChatResponse },
    /// End with the error.
    Stop { error: Error },
}

// ---------------------------------------------------------------------------------------------
// Models
// ---------------------------------------------------------------------------------------------

/// The model of a [`RunPhase`].
pub enum PhaseView {
    Ready,
    Compacting { before: usize, rounds: usize },
    CompactionCalls { before: usize, rounds: usize, calls: Seq<CallView>, next: int },
    Asking,
    Calls { round: usize, calls: Seq<CallView>, next: int },
    Ended,
}

/// The model of a [`ManagedRun`].
pub struct RunView {
    pub phase: PhaseView,
    /// Completed tool rounds.
    pub rounds: usize,
    /// Whether automatic compaction has to wait for the next run.
    pub deferred: bool,
    pub tools: Seq<DefinitionView>,
    pub compaction_tools: Seq<DefinitionView>,
}

/// The model of a [`RunAction`].
pub enum ActionView {
    Send { request: RequestView },
    Compact { call: CallView },
    CallTool { call: CallView },
    Finish { response: ResponseView },
    Stop { error: ErrorView },
}

/// A run and its session after a step, and what to do next.
pub struct Step {
    pub run: RunView,
    pub session: SessionView,
    pub action: ActionView,
}

impl View for RunPhase {
    type V = PhaseView;

    open spec fn view(&self) -> PhaseView {
        match self {
            RunPhase::Ready => PhaseView::Ready,
            RunPhase::Compacting { before, rounds } => PhaseView::Compacting {
                before: *before,
                rounds: *rounds,
            },
            RunPhase::CompactionCalls { before, rounds, calls, next } =>
            PhaseView::CompactionCalls {
                before: *before,
                rounds: *rounds,
                calls: views(calls@),
                next: *next as int,
            },
            RunPhase::Asking => PhaseView::Asking,
            RunPhase::Calls { round, calls, next } => PhaseView::Calls {
                round: *round,
                calls: views(calls@),
                next: *next as int,
            },
            RunPhase::Ended => PhaseView::Ended,
        }
    }
}

impl View for ManagedRun {
    type V = RunView;

    closed spec fn view(&self) -> RunView {
        RunView {
            phase: self.phase@,
            rounds: self.rounds,
            deferred: self.deferred,
            tools: views(self.tools@),
            compaction_tools: views(self.compaction_tools@),
        }
    }
}

impl View for RunAction {
    type V = ActionView;

    open spec fn view(&self) -> ActionView {
        match self {
            RunAction::Send { request } => ActionView::Send { request: request@ },
            RunAction::Compact { call } => ActionView::Compact { call: call@ },
            RunAction::CallTool { call } => ActionView::CallTool { call: call@ },
            RunAction::Finish { response } => ActionView::Finish { response: response@ },
            RunAction::Stop { error } => ActionView::Stop { error: error@ },
        }
    }
}

impl RunView {
    /// Positions lie within their lists, and there is room for another compaction round.
    pub open spec fn wf(self) -> bool {
        match self.phase {
            PhaseView::Compacting { rounds, .. } => rounds < usize::MAX,
            PhaseView::CompactionCalls { rounds, calls, next, .. } => rounds < usize::MAX && 0
                <= next < calls.len(),
            PhaseView::Calls { calls, next, .. } => 0 <= next < calls.len(),
            _ => true,
        }
    }

    /// The call whose arguments or outcome the run waits for.
    pub open spec fn current_call(self) -> CallView {
        match self.phase {
            PhaseView::CompactionCalls { calls, next, .. } => calls[next],
            PhaseView::Calls { calls, next, .. } => calls[next],
            _ => arbitrary(),
        }
    }
}

/// A run before its first step.
pub open spec fn new_run(tools: Seq<DefinitionView>, compaction_tools: Seq<DefinitionView>) -> RunView {
    RunView { phase: PhaseView::Ready, rounds: 0, deferred: false, tools, compaction_tools }
}

/// The tools that a model request offers.
pub open spec fn offered(run: RunView, config: SessionConfig) -> Seq<DefinitionView> {
    if config.compaction.enabled && config.compaction.always_offer_tools {
        run.tools + run.compaction_tools
    } else {
        run.tools
    }
}

/// Ask the model, with the whole history.
pub open spec fn ask(run: RunView, s: SessionView, provider: ConfigView) -> Step {
    let request = request_for(provider, history(s.turns), offered(run, s.config));
    Step {
        run: RunView { phase: PhaseView::Asking, ..run },
        session: requested(
            emitted(s, EventView::ModelRequestStarted { completed_tool_rounds: run.rounds }),
            provider,
            request,
        ),
        action: ActionView::Send { request },
    }
}

/// The messages of a compaction request: the history as it now is, and a fresh instruction.
pub open spec fn compaction_messages(s: SessionView) -> Seq<MessageView> {
    history(s.turns).push(
        system_prompt(
            instruction_view(
                s.config.compaction.target_estimated_tokens,
                breakdown_of(s.turns, s.config.compaction.top_consumers as nat),
            ),
        ),
    )
}

/// Ask the model to trim the context.
pub open spec fn ask_to_compact(
    run: RunView,
    s: SessionView,
    provider: ConfigView,
    before: usize,
    rounds: usize,
) -> Step {
    let request = request_for(provider, compaction_messages(s), run.compaction_tools);
    Step {
        run: RunView { phase: PhaseView::Compacting { before, rounds }, ..run },
        session: requested(s, provider, request),
        action: ActionView::Send { request },
    }
}

/// End compaction, and go on to the model request. An attempt that misses its target puts
/// further attempts off until the next run.
pub open spec fn end_compaction(
    run: RunView,
    s: SessionView,
    provider: ConfigView,
    before: usize,
    rounds: usize,
) -> Step {
    let after = context_tokens(s.turns);
    ask(
        RunView {
            deferred: run.deferred || after > s.config.compaction.target_estimated_tokens,
            ..run
        },
        emitted(
            s,
            EventView::CompactionFinished {
                before_estimated_tokens: before,
                after_estimated_tokens: after,
                rounds,
            },
        ),
        provider,
    )
}

/// Whether the context has to be trimmed before the next model request.
pub open spec fn needs_compaction(run: RunView, s: SessionView) -> bool {
    s.config.compaction.enabled && !run.deferred && context_tokens(s.turns)
        >= s.config.compaction.trigger_estimated_tokens
}

/// The session when compaction starts: without what earlier compactions left.
pub open spec fn compaction_started(s: SessionView) -> SessionView {
    let cleaned = SessionView { turns: cleanup(s.turns), ..s };
    let breakdown = breakdown_of(cleaned.turns, s.config.compaction.top_consumers as nat);
    emitted(
        emitted(
            cleaned,
            EventView::CompactionStarted {
                estimated_tokens: context_tokens(cleaned.turns),
                target_estimated_tokens: s.config.compaction.target_estimated_tokens,
            },
        ),
        EventView::CompactionBreakdown {
            total_estimated_tokens: breakdown.total_tokens,
            largest_turns: breakdown.largest_turns,
            largest_tool_calls: breakdown.largest_tool_calls,
        },
    )
}

/// Begin a round: trim the context where needed, then ask the model.
pub open spec fn begin_round(run: RunView, s: SessionView, provider: ConfigView) -> Step {
    if needs_compaction(run, s) {
        let started = compaction_started(s);
        let before = context_tokens(started.turns);
        if s.config.compaction.max_compaction_rounds == 0 {
            end_compaction(run, started, provider, before, 0)
        } else {
            ask_to_compact(run, started, provider, before, 0)
        }
    } else {
        ask(run, s, provider)
    }
}

/// Go on with the calls of a compaction response, from `next`.
#[verifier::opaque]
pub open spec fn next_compaction_call(
    run: RunView,
    s: SessionView,
    provider: ConfigView,
    before: usize,
    rounds: usize,
    calls: Seq<CallView>,
    next: int,
) -> Step {
    if next < calls.len() {
        Step {
            run: RunView {
                phase: PhaseView::CompactionCalls { before, rounds, calls, next },
                ..run
            },
            session: s,
            action: ActionView::Compact { call: calls[next] },
        }
    } else {
        let done = (rounds + 1) as usize;
        if context_tokens(s.turns) <= s.config.compaction.target_estimated_tokens || done
            >= s.config.compaction.max_compaction_rounds {
            end_compaction(run, s, provider, before, done)
        } else {
            ask_to_compact(run, s, provider, before, done)
        }
    }
}

/// Go on with the calls of a model response, from `next`.
#[verifier::opaque]
pub open spec fn next_call(
    run: RunView,
    s: SessionView,
    provider: ConfigView,
    round: usize,
    calls: Seq<CallView>,
    next: int,
) -> Step {
    if next < calls.len() {
        let waiting = RunView { phase: PhaseView::Calls { round, calls, next }, ..run };
        if compaction_tool(calls[next].name) {
            Step { run: waiting, session: s, action: ActionView::Compact { call: calls[next] } }
        } else {
            Step {
                run: waiting,
                session: call_started(s, calls[next], Some(round)),
                action: ActionView::CallTool { call: calls[next] },
            }
        }
    } else {
        begin_round(RunView { phase: PhaseView::Ready, rounds: round, ..run }, s, provider)
    }
}

/// What a compaction response does.
pub open spec fn compaction_response(
    run: RunView,
    s: SessionView,
    provider: ConfigView,
    before: usize,
    rounds: usize,
    response: ResponseView,
) -> Step {
    let received = answered(s, provider, response);
    if response.message.tool_calls.len() == 0 {
        end_compaction(
            run,
            emitted(
                received,
                EventView::CompactionSkipped { reason: "model did not call a compaction tool"@ },
            ),
            provider,
            before,
            rounds,
        )
    } else {
        next_compaction_call(
            run,
            pushed(received, response.message),
            provider,
            before,
            rounds,
            response.message.tool_calls,
            0,
        )
    }
}

/// The error of a run that used up its tool rounds.
pub open spec fn out_of_rounds(max_tool_rounds: usize) -> ErrorView {
    ErrorView::Tool(
        "stopped after "@ + decimal(max_tool_rounds as nat)
            + " tool rounds without a final answer"@,
    )
}

/// What a model response does: it is the answer, or it starts a round of tool calls.
pub open spec fn model_response(
    run: RunView,
    s: SessionView,
    provider: ConfigView,
    response: ResponseView,
) -> Step {
    let calls = response.message.tool_calls;
    let received = emitted(
        answered(s, provider, response),
        EventView::ModelResponseReceived {
            completed_tool_rounds: run.rounds,
            tool_calls: calls.len() as usize,
            content_len: capped(response.message.content.payload() as int),
        },
    );
    let ended = RunView { phase: PhaseView::Ended, ..run };
    if calls.len() == 0 {
        Step {
            run: ended,
            session: pushed(received, response.message),
            action: ActionView::Finish { response },
        }
    } else if run.rounds >= s.config.max_tool_rounds {
        Step {
            run: ended,
            session: emitted(
                received,
                EventView::MaxToolRoundsReached { max_tool_rounds: s.config.max_tool_rounds },
            ),
            action: ActionView::Stop { error: out_of_rounds(s.config.max_tool_rounds) },
        }
    } else {
        let round = (run.rounds + 1) as usize;
        let started = emitted(
            received,
            EventView::ToolRoundStarted { round, tool_calls: calls.len() as usize },
        );
        next_call(run, pushed(started, response.message), provider, round, calls, 0)
    }
}

/// What a response does.
pub open spec fn on_response_view(
    run: RunView,
    s: SessionView,
    provider: ConfigView,
    response: ResponseView,
) -> Step {
    match run.phase {
        PhaseView::Compacting { before, rounds } => compaction_response(
            run,
            s,
            provider,
            before,
            rounds,
            response,
        ),
        _ => model_response(run, s, provider, response),
    }
}

/// What the decoded arguments of a compaction call do.
pub open spec fn on_arguments_view(
    run: RunView,
    s: SessionView,
    provider: ConfigView,
    decoded: DecodedView,
) -> Step {
    let after = compaction_call_recorded(s, run.current_call(), decoded);
    match run.phase {
        PhaseView::CompactionCalls { before, rounds, calls, next } => next_compaction_call(
            run,
            after,
            provider,
            before,
            rounds,
            calls,
            next + 1,
        ),
        PhaseView::Calls { round, calls, next } => next_call(
            run,
            after,
            provider,
            round,
            calls,
            next + 1,
        ),
        _ => arbitrary(),
    }
}

/// What the outcome of a tool call does.
pub open spec fn on_outcome_view(
    run: RunView,
    s: SessionView,
    provider: ConfigView,
    outcome: Result<ResultView, ErrorView>,
) -> Step {
    match run.phase {
        PhaseView::Calls { round, calls, next } => next_call(
            run,
            call_ended(s, calls[next], Some(round), outcome),
            provider,
            round,
            calls,
            next + 1,
        ),
        _ => arbitrary(),
    }
}

// ---------------------------------------------------------------------------------------------
// Steps
// ---------------------------------------------------------------------------------------------

impl ManagedRun {
    /// A run with the tools of a registry and the compaction tools.
    pub fn new(tools: Vec<ToolDefinition>, compaction_tools: Vec<ToolDefinition>) -> (run: Self)
        ensures
            run@ == new_run(views(tools@), views(compaction_tools@)),
            run@.wf(),
    {
        ManagedRun {
            phase: RunPhase::Ready,
            rounds: 0,
            deferred: false,
            tools,
            compaction_tools,
        }
    }

    fn ask(&mut self, session: &mut ChatSession, provider: &ChatProvider) -> (action: RunAction)
        ensures
            ask(old(self)@, old(session)@, provider@) == (Step {
                run: final(self)@,
                session: final(session)@,
                action: action@,
            }),
            final(self)@.wf(),
    {
        let mut tools = duplicate_all(&self.tools);
        let config = *session.config();
        if config.compaction.enabled && config.compaction.always_offer_tools {
            let ghost own = views(tools@);
            let mut more = duplicate_all(&self.compaction_tools);
            let ghost added = views(more@);
            tools.append(&mut more);
            assert(views(tools@) =~= own + added);
        }
        session.emit(AgentEvent::ModelRequestStarted { completed_tool_rounds: self.rounds });
        let request = session.begin_completion(provider, tools);
        self.phase = RunPhase::Asking;
        RunAction::Send { request }
    }

    fn ask_to_compact(
        &mut self,
        session: &mut ChatSession,
        provider: &ChatProvider,
        before: usize,
        rounds: usize,
    ) -> (action: RunAction)
        requires
            rounds < usize::MAX,
        ensures
            ask_to_compact(old(self)@, old(session)@, provider@, before, rounds) == (Step {
                run: final(self)@,
                session: final(session)@,
                action: action@,
            }),
            final(self)@.wf(),
    {
        let compaction = session.config().compaction;
        let breakdown = session.context_usage_breakdown_with_limit(compaction.top_consumers);
        let mut messages = session.messages();
        messages.push(ChatMessage::system(instruction(&compaction, &breakdown)));
        let request = session.begin_request(
            provider,
            &messages,
            duplicate_all(&self.compaction_tools),
        );
        self.phase = RunPhase::Compacting { before, rounds };
        RunAction::Send { request }
    }

    fn end_compaction(
        &mut self,
        session: &mut ChatSession,
        provider: &ChatProvider,
        before: usize,
        rounds: usize,
    ) -> (action: RunAction)
        ensures
            end_compaction(old(self)@, old(session)@, provider@, before, rounds) == (Step {
                run: final(self)@,
                session: final(session)@,
                action: action@,
            }),
            final(self)@.wf(),
    {
        let after = session.estimated_context_tokens();
        if after > session.config().compaction.target_estimated_tokens {
            self.deferred = true;
        }
        session.emit(
            AgentEvent::CompactionFinished {
                before_estimated_tokens: before,
                after_estimated_tokens: after,
                rounds,
            },
        );
        self.ask(session, provider)
    }

    fn begin_round(&mut self, session: &mut ChatSession, provider: &ChatProvider) -> (action:
        RunAction)
        ensures
            begin_round(old(self)@, old(session)@, provider@) == (Step {
                run: final(self)@,
                session: final(session)@,
                action: action@,
            }),
            final(self)@.wf(),
    {
        let compaction = session.config().compaction;
        if !compaction.enabled || self.deferred || session.estimated_context_tokens()
            < compaction.trigger_estimated_tokens {
            return self.ask(session, provider);
        }
        session.remove_previous_compaction_tool_messages();
        let before = session.estimated_context_tokens();
        session.emit(
            AgentEvent::CompactionStarted {
                estimated_tokens: before,
                target_estimated_tokens: compaction.target_estimated_tokens,
            },
        );
        let breakdown = session.context_usage_breakdown_with_limit(compaction.top_consumers);
        session.emit(
            AgentEvent::CompactionBreakdown {
                total_estimated_tokens: breakdown.total_estimated_tokens,
                largest_turns: breakdown.largest_turns,
                largest_tool_calls: breakdown.largest_tool_calls,
            },
        );
        if compaction.max_compaction_rounds == 0 {
            self.end_compaction(session, provider, before, 0)
        } else {
            self.ask_to_compact(session, provider, before, 0)
        }
    }

    fn next_compaction_call(
        &mut self,
        session: &mut ChatSession,
        provider: &ChatProvider,
        before: usize,
        rounds: usize,
        calls: Vec<ToolCall>,
        next: usize,
    ) -> (action: RunAction)
        requires
            rounds < usize::MAX,
            next <= calls@.len(),
        ensures
            next_compaction_call(
                old(self)@,
                old(session)@,
                provider@,
                before,
                rounds,
                views(calls@),
                next as int,
            ) == (Step { run: final(self)@, session: final(session)@, action: action@ }),
            final(self)@.wf(),
    {
        proof {
            reveal(next_compaction_call);
        }
        if next < calls.len() {
            let call = calls[next].duplicate();
            self.phase = RunPhase::CompactionCalls { before, rounds, calls, next };
            return RunAction::Compact { call };
        }
        let done: usize = rounds + 1;
        let compaction = session.config().compaction;
        if session.estimated_context_tokens() <= compaction.target_estimated_tokens || done
            >= compaction.max_compaction_rounds {
            self.end_compaction(session, provider, before, done)
        } else {
            self.ask_to_compact(session, provider, before, done)
        }
    }

    fn next_call(
        &mut self,
        session: &mut ChatSession,
        provider: &ChatProvider,
        round: usize,
        calls: Vec<ToolCall>,
        next: usize,
    ) -> (action: RunAction)
        requires
            next <= calls@.len(),
        ensures
            next_call(
                old(self)@,
                old(session)@,
                provider@,
                round,
                views(calls@),
                next as int,
            ) == (Step { run: final(self)@, session: final(session)@, action: action@ }),
            final(self)@.wf(),
    {
        proof {
            reveal(next_call);
        }
        if next < calls.len() {
            let call = calls[next].duplicate();
            self.phase = RunPhase::Calls { round, calls, next };
            if is_compaction_tool(call.function.name.as_str()) {
                return RunAction::Compact { call };
            }
            session.begin_tool_call(&call, Some(round));
            return RunAction::CallTool { call };
        }
        self.rounds = round;
        self.phase = RunPhase::Ready;
        self.begin_round(session, provider)
    }

    /// Begin the run.
    pub fn begin(&mut self, session: &mut ChatSession, provider: &ChatProvider) -> (action:
        RunAction)
        requires
            old(self)@.phase is Ready,
        ensures
            begin_round(old(self)@, old(session)@, provider@) == (Step {
                run: final(self)@,
                session: final(session)@,
                action: action@,
            }),
            final(self)@.wf(),
    {
        self.begin_round(session, provider)
    }

    /// Go on with the response to the request that was sent.
    pub fn on_response(
        &mut self,
        session: &mut ChatSession,
        provider: &ChatProvider,
        response: ChatResponse,
    ) -> (action: RunAction)
        requires
            old(self)@.phase is Asking || old(self)@.phase is Compacting,
            old(self)@.wf(),
        ensures
            on_response_view(old(self)@, old(session)@, provider@, response@) == (Step {
                run: final(self)@,
                session: final(session)@,
                action: action@,
            }),
            final(self)@.wf(),
    {
        if let RunPhase::Compacting { before, rounds } = &self.phase {
            let before = *before;
            let rounds = *rounds;
            session.finish_request(provider, &response);
            if response.message.tool_calls.len() == 0 {
                session.emit(
                    AgentEvent::CompactionSkipped {
                        reason: "model did not call a compaction tool".to_owned(),
                    },
                );
                return self.end_compaction(session, provider, before, rounds);
            }
            let calls = duplicate_all(&response.message.tool_calls);
            session.push(response.message);
            return self.next_compaction_call(session, provider, before, rounds, calls, 0);
        }
        session.finish_request(provider, &response);
        let count = response.message.tool_calls.len();
        session.emit(
            AgentEvent::ModelResponseReceived {
                completed_tool_rounds: self.rounds,
                tool_calls: count,
                content_len: response.message.content.len(),
            },
        );
        if count == 0 {
            session.push(response.message.duplicate());
            self.phase = RunPhase::Ended;
            return RunAction::Finish { response };
        }
        let max_tool_rounds = session.config().max_tool_rounds;
        if self.rounds >= max_tool_rounds {
            session.emit(AgentEvent::MaxToolRoundsReached { max_tool_rounds });
            self.phase = RunPhase::Ended;
            let mut message = "stopped after ".to_owned();
            message.append(decimal_text(max_tool_rounds as u64).as_str());
            message.append(" tool rounds without a final answer");
            return RunAction::Stop { error: Error::Tool(message) };
        }
        let round: usize = self.rounds + 1;
        session.emit(AgentEvent::ToolRoundStarted { round, tool_calls: count });
        let calls = duplicate_all(&response.message.tool_calls);
        session.push(response.message);
        self.next_call(session, provider, round, calls, 0)
    }

    /// Go on with the decoded arguments of the compaction call.
    pub fn on_arguments(
        &mut self,
        session: &mut ChatSession,
        provider: &ChatProvider,
        decoded: DecodedArguments,
    ) -> (action: RunAction)
        requires
            old(self)@.phase is CompactionCalls || old(self)@.phase is Calls,
            old(self)@.wf(),
        ensures
            on_arguments_view(old(self)@, old(session)@, provider@, decoded@) == (Step {
                run: final(self)@,
                session: final(session)@,
                action: action@,
            }),
            final(self)@.wf(),
    {
        let ghost start = self@;
        let mut phase = RunPhase::Ready;
        std::mem::swap(&mut self.phase, &mut phase);
        match phase {
            RunPhase::CompactionCalls { before, rounds, calls, next } => {
                let after: usize = calls.len();
                assert(next < after);
                let call = &calls[next];
                let result = session.execute_compaction_tool_call(call, decoded);
                session.push(result.into_message());
                let action = self.next_compaction_call(
                    session,
                    provider,
                    before,
                    rounds,
                    calls,
                    next + 1,
                );
                proof {
                    lemma_next_compaction_call_ignores_phase(
                        start,
                        PhaseView::Ready,
                        compaction_call_recorded(old(session)@, start.current_call(), decoded@),
                        provider@,
                        before,
                        rounds,
                        views(calls@),
                        next + 1,
                    );
                }
                action
            },
            RunPhase::Calls { round, calls, next } => {
                let after: usize = calls.len();
                assert(next < after);
                let call = &calls[next];
                let result = session.execute_compaction_tool_call(call, decoded);
                session.push(result.into_message());
                let action = self.next_call(session, provider, round, calls, next + 1);
                proof {
                    lemma_next_call_ignores_phase(
                        start,
                        PhaseView::Ready,
                        compaction_call_recorded(old(session)@, start.current_call(), decoded@),
                        provider@,
                        round,
                        views(calls@),
                        next + 1,
                    );
                }
                action
            },
            _ => RunAction::Stop { error: Error::Tool("the run expects no arguments".to_owned()) },
        }
    }

    /// Go on with the outcome of the tool call.
    pub fn on_outcome(
        &mut self,
        session: &mut ChatSession,
        provider: &ChatProvider,
        outcome: Result<ToolResult, Error>,
    ) -> (r: (RunAction, ToolResult))
        requires
            old(self)@.phase is Calls,
            old(self)@.wf(),
        ensures
            on_outcome_view(
                old(self)@,
                old(session)@,
                provider@,
                crate::common::outcome(outcome),
            ) == (Step { run: final(self)@, session: final(session)@, action: r.0@ }),
            r.1@ == reported(old(self)@.current_call(), crate::common::outcome(outcome)),
            final(self)@.wf(),
    {
        let ghost start = self@;
        let mut phase = RunPhase::Ready;
        std::mem::swap(&mut self.phase, &mut phase);
        match phase {
            RunPhase::Calls { round, calls, next } => {
                let after: usize = calls.len();
                assert(next < after);
                let ghost given = crate::common::outcome(outcome);
                let result = session.finish_tool_call(&calls[next], Some(round), outcome);
                let action = self.next_call(session, provider, round, calls, next + 1);
                proof {
                    lemma_next_call_ignores_phase(
                        start,
                        PhaseView::Ready,
                        call_ended(old(session)@, start.current_call(), Some(round), given),
                        provider@,
                        round,
                        views(calls@),
                        next + 1,
                    );
                }
                (action, result)
            },
            _ => {
                let call = ToolCall::default();
                (
                    RunAction::Stop { error: Error::Tool("the run expects no outcome".to_owned()) },
                    crate::tools::report_call(&call, outcome),
                )
            },
        }
    }
}

proof fn lemma_next_compaction_call_ignores_phase(
    run: RunView,
    phase: PhaseView,
    s: SessionView,
    provider: ConfigView,
    before: usize,
    rounds: usize,
    calls: Seq<CallView>,
    next: int,
)
    ensures
        next_compaction_call(run, s, provider, before, rounds, calls, next)
            == next_compaction_call(
            RunView { phase, ..run },
            s,
            provider,
            before,
            rounds,
            calls,
            next,
        ),
{
    reveal(next_compaction_call);
}

proof fn lemma_next_call_ignores_phase(
    run: RunView,
    phase: PhaseView,
    s: SessionView,
    provider: ConfigView,
    round: usize,
    calls: Seq<CallView>,
    next: int,
)
    ensures
        next_call(run, s, provider, round, calls, next) == next_call(
            RunView { phase, ..run },
            s,
            provider,
            round,
            calls,
            next,
        ),
{
    reveal(next_call);
}

// ---------------------------------------------------------------------------------------------
// Laws
// ---------------------------------------------------------------------------------------------

/// A run never enters more tool rounds than it is allowed.
pub proof fn tool_rounds_are_bounded(
    run: RunView,
    s: SessionView,
    provider: ConfigView,
    response: ResponseView,
)
    requires
        run.phase is Asking,
    ensures
        ({
            let step = on_response_view(run, s, provider, response);
            step.run.phase matches PhaseView::Calls { round, .. } ==> round == run.rounds + 1
                && round <= s.config.max_tool_rounds
        }),
{
    reveal(next_call);
}

/// A run ends with an answer exactly where the model calls no tool, and the answer is then the
/// last message of the history.
pub proof fn a_run_ends_with_its_answer(
    run: RunView,
    s: SessionView,
    provider: ConfigView,
    response: ResponseView,
)
    requires
        run.phase is Asking,
    ensures
        ({
            let step = on_response_view(run, s, provider, response);
            &&& (step.action is Finish) == (response.message.tool_calls.len() == 0)
            &&& step.action is Finish ==> step.action == (ActionView::Finish { response })
                && history(step.session.turns) == history(s.turns).push(response.message)
        }),
{
    reveal(next_call);
    if response.message.tool_calls.len() == 0 {
        let received = emitted(
            answered(s, provider, response),
            EventView::ModelResponseReceived {
                completed_tool_rounds: run.rounds,
                tool_calls: response.message.tool_calls.len() as usize,
                content_len: capped(response.message.content.payload() as int),
            },
        );
        crate::session::model::history_only_grows(received, response.message);
    }
}

/// Every request for an answer carries the whole history.
pub proof fn the_model_sees_the_whole_history(run: RunView, s: SessionView, provider: ConfigView)
    requires
        !needs_compaction(run, s),
    ensures
        begin_round(run, s, provider).action matches ActionView::Send { request }
            && request.messages == history(s.turns),
        begin_round(run, s, provider).session.turns == s.turns,
{
}

/// A tool call is answered in the history by a tool message with its id, whatever came of it.
pub proof fn every_tool_call_is_answered(
    s: SessionView,
    call: CallView,
    round: Option<usize>,
    content: ContentView,
    error: ErrorView,
)
    ensures
        ({
            let after = call_ended(s, call, round, Ok(crate::tools::result_of(call, content)));
            &&& history(after.turns) == history(s.turns).push(
                crate::chat::tool_message(call.id, call.name, content),
            )
        }),
        ({
            let after = call_ended(s, call, round, Err(error));
            &&& history(after.turns) == history(s.turns).push(
                crate::chat::tool_message(
                    call.id,
                    call.name,
                    ContentView::Text(crate::tools::error_report(error.message())),
                ),
            )
        }),
{
    let result = crate::tools::result_of(call, content);
    let ok = call_ended(s, call, round, Ok(result));
    let failed = call_ended(s, call, round, Err(error));
    let message = result_message(result);
    let report = result_message(error_result(call, error.message()));
    assert(history(ok.turns) =~= history(s.turns).push(message)) by {
        crate::session::turn::replay_gives_back_what_was_stored(s.next_turn_id, message);
    }
    assert(history(failed.turns) =~= history(s.turns).push(report)) by {
        crate::session::turn::replay_gives_back_what_was_stored(s.next_turn_id, report);
    }
}

/// A compaction call is answered in the history by a tool message with its id, whatever came of
/// it.
pub proof fn every_compaction_call_is_answered(
    s: SessionView,
    call: CallView,
    decoded: DecodedView,
)
    ensures
        ({
            let after = compaction_call_recorded(s, call, decoded);
            &&& after.turns.len() > 0
            &&& after.turns.last().role == MessageRole::Tool
            &&& after.turns.last().tool_call_id == Some(call.id)
        }),
{
}

/// Whether a run will not compact again: it has deferred compaction, and is not in the middle of an
/// attempt.
pub open spec fn compacts_no_more(run: RunView) -> bool {
    run.deferred && !(run.phase is Compacting) && !(run.phase is CompactionCalls)
}

/// What a run can be handed.
pub enum InputView {
    /// A response of the model.
    Response(ResponseView),
    /// The decoded arguments of a compaction call.
    Arguments(DecodedView),
    /// The outcome of a tool call.
    Outcome(Result<ResultView, ErrorView>),
}

/// The run after an input that it waits for; another input leaves it as it is.
pub open spec fn run_after(
    run: RunView,
    s: SessionView,
    provider: ConfigView,
    input: InputView,
) -> RunView {
    match input {
        InputView::Response(response) => if run.phase is Asking || run.phase is Compacting {
            on_response_view(run, s, provider, response).run
        } else {
            run
        },
        InputView::Arguments(decoded) => if run.phase is Calls || run.phase is CompactionCalls {
            on_arguments_view(run, s, provider, decoded).run
        } else {
            run
        },
        InputView::Outcome(outcome) => if run.phase is Calls {
            on_outcome_view(run, s, provider, outcome).run
        } else {
            run
        },
    }
}

/// The run after several inputs, each with the session and the provider at that time.
pub open spec fn run_after_all(
    run: RunView,
    inputs: Seq<(SessionView, ConfigView, InputView)>,
) -> RunView
    decreases inputs.len(),
{
    if inputs.len() == 0 {
        run
    } else {
        let before = run_after_all(run, inputs.drop_last());
        let (s, provider, input) = inputs.last();
        run_after(before, s, provider, input)
    }
}

/// A run that has deferred compaction keeps it deferred, and begins no attempt, whatever it is
/// handed next: a response, and, among the calls of a response, decoded arguments or an outcome.
pub proof fn deferral_lasts_through_each_step(
    run: RunView,
    s: SessionView,
    provider: ConfigView,
    response: ResponseView,
    decoded: DecodedView,
    outcome: Result<ResultView, ErrorView>,
)
    requires
        compacts_no_more(run),
    ensures
        compacts_no_more(begin_round(run, s, provider).run),
        compacts_no_more(on_response_view(run, s, provider, response).run),
        run.phase is Calls ==> compacts_no_more(on_arguments_view(run, s, provider, decoded).run),
        run.phase is Calls ==> compacts_no_more(on_outcome_view(run, s, provider, outcome).run),
{
    reveal(next_call);
}

proof fn lemma_deferral_lasts(run: RunView, inputs: Seq<(SessionView, ConfigView, InputView)>)
    requires
        compacts_no_more(run),
    ensures
        compacts_no_more(run_after_all(run, inputs)),
    decreases inputs.len(),
{
    if inputs.len() > 0 {
        lemma_deferral_lasts(run, inputs.drop_last());
        reveal(next_call);
    }
}

/// After an attempt at compaction that misses its target, no other comes for the rest of the run,
/// whatever the run is handed and however large the session grows.
pub proof fn a_missed_target_ends_compaction_for_the_run(
    run: RunView,
    s: SessionView,
    provider: ConfigView,
    before: usize,
    rounds: usize,
    inputs: Seq<(SessionView, ConfigView, InputView)>,
)
    requires
        context_tokens(s.turns) > s.config.compaction.target_estimated_tokens,
    ensures
        compacts_no_more(
            run_after_all(end_compaction(run, s, provider, before, rounds).run, inputs),
        ),
{
    lemma_deferral_lasts(end_compaction(run, s, provider, before, rounds).run, inputs);
}

/// After an attempt at compaction that misses its target, a round of the run that has just ended it
/// begins by asking for an answer, not by another attempt.
pub proof fn a_missed_target_defers_compaction(
    run: RunView,
    s: SessionView,
    provider: ConfigView,
    before: usize,
    rounds: usize,
)
    requires
        context_tokens(s.turns) > s.config.compaction.target_estimated_tokens,
    ensures
        end_compaction(run, s, provider, before, rounds).run.deferred,
        forall|later: SessionView| #[trigger]
            begin_round(
                end_compaction(run, s, provider, before, rounds).run,
                later,
                provider,
            ) == ask(end_compaction(run, s, provider, before, rounds).run, later, provider),
{
}

/// A new run may compact again.
pub proof fn the_next_run_may_compact(
    tools: Seq<DefinitionView>,
    compaction_tools: Seq<DefinitionView>,
    s: SessionView,
)
    requires
        s.config.compaction.enabled,
        context_tokens(s.turns) >= s.config.compaction.trigger_estimated_tokens,
    ensures
        needs_compaction(new_run(tools, compaction_tools), s),
{
}

/// Compaction that is switched off never happens.
pub proof fn disabled_compaction_never_happens(run: RunView, s: SessionView, provider: ConfigView)
    requires
        !s.config.compaction.enabled,
    ensures
        begin_round(run, s, provider) == ask(run, s, provider),
        begin_round(run, s, provider).run.phase is Asking,
        offered(run, s.config) == run.tools,
{
}

/// Each compaction request is made from the history and the usage as they are at that time.
pub proof fn each_compaction_round_sees_the_edited_history(
    run: RunView,
    s: SessionView,
    provider: ConfigView,
    before: usize,
    rounds: usize,
)
    ensures
        ask_to_compact(run, s, provider, before, rounds).action matches ActionView::Send {
            request,
        } && request.messages == compaction_messages(s) && request.tools == run.compaction_tools,
{
}

} // verus!
