//! High-level progress events.

use vstd::prelude::*;

use crate::common::{duplicate_all, duplicate_option, view_of, views, Duplicate};
use crate::session::compaction::{CallUsageView, ContextUsage, ToolCallUsage, UsageView};

verus! {

/// Selects which [`AgentEvent`] notifications a session emits.
#[derive(Clone, Copy, Debug, PartialEq, Eq, Structural)]
pub struct NotificationConfig {
    /// Emit before a model request is sent.
    pub model_requests: bool,
    /// Emit after a model response is received.
    pub model_responses: bool,
    /// Emit when a managed tool round starts or the round limit is reached.
    pub tool_rounds: bool,
    /// Emit when a normal tool call starts.
    pub tool_calls: bool,
    /// Emit when a normal tool call succeeds.
    pub tool_results: bool,
    /// Emit when a normal tool call fails.
    pub tool_errors: bool,
    /// Emit context compaction progress.
    pub compaction: bool,
}

/// High-level progress events from a managed agent session.
///
/// These are intended for status updates such as "calling tool", "reading file", or "compacting
/// context". For lower-level logging, payload capture, or audit trails, use
/// [`crate::session::telemetry::TelemetryEvent`].
#[derive(Debug, PartialEq, Eq)]
#[allow(inconsistent_fields)]
pub enum AgentEvent {
    /// A model request is about to be sent.
    ModelRequestStarted { completed_tool_rounds: usize },
    /// A model response was received.
    ModelResponseReceived { completed_tool_rounds: usize, tool_calls: usize, content_len: usize },
    /// A managed tool round is starting.
    ToolRoundStarted { round: usize, tool_calls: usize },
    /// A normal registry tool call is starting. Arguments are a payload: they are present only
    /// where the telemetry configuration includes tool payloads.
    ToolCallStarted {
        round: usize,
        tool_call_id: String,
        name: String,
        arguments: Option<String>,
    },
    /// A normal registry tool call succeeded.
    ToolCallFinished { round: usize, tool_call_id: String, name: String, content_len: usize },
    /// A normal registry tool call failed and was reported back to the model.
    ToolCallFailed { round: usize, tool_call_id: String, name: String, error: String },
    /// The managed loop stopped because the round limit was reached.
    MaxToolRoundsReached { max_tool_rounds: usize },
    /// Explicit context compaction has started.
    CompactionStarted { estimated_tokens: usize, target_estimated_tokens: usize },
    /// Token-consumer breakdown emitted at the start of explicit compaction.
    CompactionBreakdown {
        total_estimated_tokens: usize,
        largest_turns: Vec<ContextUsage>,
        largest_tool_calls: Vec<ToolCallUsage>,
    },
    /// A built-in compaction tool call is starting.
    CompactionToolCallStarted { tool_call_id: String, name: String, arguments: String },
    /// Context compaction finished.
    CompactionFinished {
        before_estimated_tokens: usize,
        after_estimated_tokens: usize,
        rounds: usize,
    },
    /// Context compaction did not run or ignored an invalid compaction request.
    CompactionSkipped { reason: String },
}

/// The model of an [`AgentEvent`].
#[allow(inconsistent_fields)]
pub enum EventView {
    ModelRequestStarted { completed_tool_rounds: usize },
    ModelResponseReceived { completed_tool_rounds: usize, tool_calls: usize, content_len: usize },
    ToolRoundStarted { round: usize, tool_calls: usize },
    ToolCallStarted {
        round: usize,
        tool_call_id: Seq<char>,
        name: Seq<char>,
        arguments: Option<Seq<char>>,
    },
    ToolCallFinished {
        round: usize,
        tool_call_id: Seq<char>,
        name: Seq<char>,
        content_len: usize,
    },
    ToolCallFailed { round: usize, tool_call_id: Seq<char>, name: Seq<char>, error: Seq<char> },
    MaxToolRoundsReached { max_tool_rounds: usize },
    CompactionStarted { estimated_tokens: usize, target_estimated_tokens: usize },
    CompactionBreakdown {
        total_estimated_tokens: usize,
        largest_turns: Seq<UsageView>,
        largest_tool_calls: Seq<CallUsageView>,
    },
    CompactionToolCallStarted {
        tool_call_id: Seq<char>,
        name: Seq<char>,
        arguments: Seq<char>,
    },
    CompactionFinished {
        before_estimated_tokens: usize,
        after_estimated_tokens: usize,
        rounds: usize,
    },
    CompactionSkipped { reason: Seq<char> },
}

impl View for AgentEvent {
    type V = EventView;

    open spec fn view(&self) -> EventView {
        match self {
            AgentEvent::ModelRequestStarted { completed_tool_rounds } =>
            EventView::ModelRequestStarted { completed_tool_rounds: *completed_tool_rounds },
            AgentEvent::ModelResponseReceived { completed_tool_rounds, tool_calls, content_len } =>
            EventView::ModelResponseReceived {
                completed_tool_rounds: *completed_tool_rounds,
                tool_calls: *tool_calls,
                content_len: *content_len,
            },
            AgentEvent::ToolRoundStarted { round, tool_calls } => EventView::ToolRoundStarted {
                round: *round,
                tool_calls: *tool_calls,
            },
            AgentEvent::ToolCallStarted { round, tool_call_id, name, arguments } =>
            EventView::ToolCallStarted {
                round: *round,
                tool_call_id: tool_call_id@,
                name: name@,
                arguments: view_of(*arguments),
            },
            AgentEvent::ToolCallFinished { round, tool_call_id, name, content_len } =>
            EventView::ToolCallFinished {
                round: *round,
                tool_call_id: tool_call_id@,
                name: name@,
                content_len: *content_len,
            },
            AgentEvent::ToolCallFailed { round, tool_call_id, name, error } =>
            EventView::ToolCallFailed {
                round: *round,
                tool_call_id: tool_call_id@,
                name: name@,
                error: error@,
            },
            AgentEvent::MaxToolRoundsReached { max_tool_rounds } =>
            EventView::MaxToolRoundsReached { max_tool_rounds: *max_tool_rounds },
            AgentEvent::CompactionStarted { estimated_tokens, target_estimated_tokens } =>
            EventView::CompactionStarted {
                estimated_tokens: *estimated_tokens,
                target_estimated_tokens: *target_estimated_tokens,
            },
            AgentEvent::CompactionBreakdown {
                total_estimated_tokens,
                largest_turns,
                largest_tool_calls,
            } => EventView::CompactionBreakdown {
                total_estimated_tokens: *total_estimated_tokens,
                largest_turns: views(largest_turns@),
                largest_tool_calls: views(largest_tool_calls@),
            },
            AgentEvent::CompactionToolCallStarted { tool_call_id, name, arguments } =>
            EventView::CompactionToolCallStarted {
                tool_call_id: tool_call_id@,
                name: name@,
                arguments: arguments@,
            },
            AgentEvent::CompactionFinished {
                before_estimated_tokens,
                after_estimated_tokens,
                rounds,
            } => EventView::CompactionFinished {
                before_estimated_tokens: *before_estimated_tokens,
                after_estimated_tokens: *after_estimated_tokens,
                rounds: *rounds,
            },
            AgentEvent::CompactionSkipped { reason } => EventView::CompactionSkipped {
                reason: reason@,
            },
        }
    }
}

impl Duplicate for AgentEvent {
    fn duplicate(&self) -> (copy: Self) {
        match self {
            AgentEvent::ModelRequestStarted { completed_tool_rounds } =>
            AgentEvent::ModelRequestStarted { completed_tool_rounds: *completed_tool_rounds },
            AgentEvent::ModelResponseReceived { completed_tool_rounds, tool_calls, content_len } =>
            AgentEvent::ModelResponseReceived {
                completed_tool_rounds: *completed_tool_rounds,
                tool_calls: *tool_calls,
                content_len: *content_len,
            },
            AgentEvent::ToolRoundStarted { round, tool_calls } => AgentEvent::ToolRoundStarted {
                round: *round,
                tool_calls: *tool_calls,
            },
            AgentEvent::ToolCallStarted { round, tool_call_id, name, arguments } =>
            AgentEvent::ToolCallStarted {
                round: *round,
                tool_call_id: tool_call_id.clone(),
                name: name.clone(),
                arguments: duplicate_option(arguments),
            },
            AgentEvent::ToolCallFinished { round, tool_call_id, name, content_len } =>
            AgentEvent::ToolCallFinished {
                round: *round,
                tool_call_id: tool_call_id.clone(),
                name: name.clone(),
                content_len: *content_len,
            },
            AgentEvent::ToolCallFailed { round, tool_call_id, name, error } =>
            AgentEvent::ToolCallFailed {
                round: *round,
                tool_call_id: tool_call_id.clone(),
                name: name.clone(),
                error: error.clone(),
            },
            AgentEvent::MaxToolRoundsReached { max_tool_rounds } =>
            AgentEvent::MaxToolRoundsReached { max_tool_rounds: *max_tool_rounds },
            AgentEvent::CompactionStarted { estimated_tokens, target_estimated_tokens } =>
            AgentEvent::CompactionStarted {
                estimated_tokens: *estimated_tokens,
                target_estimated_tokens: *target_estimated_tokens,
            },
            AgentEvent::CompactionBreakdown {
                total_estimated_tokens,
                largest_turns,
                largest_tool_calls,
            } => AgentEvent::CompactionBreakdown {
                total_estimated_tokens: *total_estimated_tokens,
                largest_turns: duplicate_all(largest_turns),
                largest_tool_calls: duplicate_all(largest_tool_calls),
            },
            AgentEvent::CompactionToolCallStarted { tool_call_id, name, arguments } =>
            AgentEvent::CompactionToolCallStarted {
                tool_call_id: tool_call_id.clone(),
                name: name.clone(),
                arguments: arguments.clone(),
            },
            AgentEvent::CompactionFinished {
                before_estimated_tokens,
                after_estimated_tokens,
                rounds,
            } => AgentEvent::CompactionFinished {
                before_estimated_tokens: *before_estimated_tokens,
                after_estimated_tokens: *after_estimated_tokens,
                rounds: *rounds,
            },
            AgentEvent::CompactionSkipped { reason } => AgentEvent::CompactionSkipped {
                reason: reason.clone(),
            },
        }
    }
}

impl Clone for AgentEvent {
    fn clone(&self) -> (copy: Self)
        ensures
            copy@ == self@,
    {
        self.duplicate()
    }
}

/// Whether `config` asks for `event`.
pub open spec fn wants_event(config: NotificationConfig, event: EventView) -> bool {
    match event {
        EventView::ModelRequestStarted { .. } => config.model_requests,
        EventView::ModelResponseReceived { .. } => config.model_responses,
        EventView::ToolRoundStarted { .. } => config.tool_rounds,
        EventView::ToolCallStarted { .. } => config.tool_calls,
        EventView::ToolCallFinished { .. } => config.tool_results,
        EventView::ToolCallFailed { .. } => config.tool_errors,
        EventView::MaxToolRoundsReached { .. } => config.tool_rounds,
        EventView::CompactionStarted { .. } => config.compaction,
        EventView::CompactionBreakdown { .. } => config.compaction,
        EventView::CompactionToolCallStarted { .. } => config.compaction,
        EventView::CompactionFinished { .. } => config.compaction,
        EventView::CompactionSkipped { .. } => config.compaction,
    }
}

/// No event at all.
pub open spec fn no_notifications() -> NotificationConfig {
    NotificationConfig {
        model_requests: false,
        model_responses: false,
        tool_rounds: false,
        tool_calls: false,
        tool_results: false,
        tool_errors: false,
        compaction: false,
    }
}

impl Default for NotificationConfig {
    fn default() -> (config: Self)
        ensures
            config == no_notifications(),
    {
        NotificationConfig {
            model_requests: false,
            model_responses: false,
            tool_rounds: false,
            tool_calls: false,
            tool_results: false,
            tool_errors: false,
            compaction: false,
        }
    }
}

impl NotificationConfig {
    /// Disable all agent events.
    pub fn none() -> (config: Self)
        ensures
            config == no_notifications(),
    {
        Self::default()
    }

    /// Emit normal tool-loop events, without model or compaction progress.
    pub fn tools() -> (config: Self)
        ensures
            config == (NotificationConfig {
                tool_rounds: true,
                tool_calls: true,
                tool_results: true,
                tool_errors: true,
                ..no_notifications()
            }),
    {
        let mut config = Self::default();
        config.tool_rounds = true;
        config.tool_calls = true;
        config.tool_results = true;
        config.tool_errors = true;
        config
    }

    /// Emit every agent event.
    pub fn all() -> (config: Self)
        ensures
            forall|event: EventView| wants_event(config, event),
            config.model_requests && config.model_responses && config.tool_rounds
                && config.tool_calls && config.tool_results && config.tool_errors
                && config.compaction,
    {
        NotificationConfig {
            model_requests: true,
            model_responses: true,
            tool_rounds: true,
            tool_calls: true,
            tool_results: true,
            tool_errors: true,
            compaction: true,
        }
    }

    /// Whether this configuration enables any event stream.
    pub fn is_enabled(&self) -> (b: bool)
        ensures
            b == (*self != no_notifications()),
    {
        self.model_requests || self.model_responses || self.tool_rounds || self.tool_calls
            || self.tool_results || self.tool_errors || self.compaction
    }

    /// Whether this configuration asks for `event`.
    pub fn should_emit(&self, event: &AgentEvent) -> (b: bool)
        ensures
            b == wants_event(*self, event@),
    {
        match event {
            AgentEvent::ModelRequestStarted { .. } => self.model_requests,
            AgentEvent::ModelResponseReceived { .. } => self.model_responses,
            AgentEvent::ToolRoundStarted { .. } => self.tool_rounds,
            AgentEvent::ToolCallStarted { .. } => self.tool_calls,
            AgentEvent::ToolCallFinished { .. } => self.tool_results,
            AgentEvent::ToolCallFailed { .. } => self.tool_errors,
            AgentEvent::MaxToolRoundsReached { .. } => self.tool_rounds,
            AgentEvent::CompactionStarted { .. } => self.compaction,
            AgentEvent::CompactionBreakdown { .. } => self.compaction,
            AgentEvent::CompactionToolCallStarted { .. } => self.compaction,
            AgentEvent::CompactionFinished { .. } => self.compaction,
            AgentEvent::CompactionSkipped { .. } => self.compaction,
        }
    }
}

/// A stream is enabled exactly where its configuration asks for some event.
pub proof fn enabled_where_some_event_is_wanted(config: NotificationConfig)
    ensures
        (config != no_notifications()) == (exists|event: EventView| wants_event(config, event)),
{
    if config != no_notifications() {
        let event = if config.model_requests {
            EventView::ModelRequestStarted { completed_tool_rounds: 0 }
        } else if config.model_responses {
            EventView::ModelResponseReceived {
                completed_tool_rounds: 0,
                tool_calls: 0,
                content_len: 0,
            }
        } else if config.tool_rounds {
            EventView::ToolRoundStarted { round: 0, tool_calls: 0 }
        } else if config.tool_calls {
            EventView::ToolCallStarted {
                round: 0,
                tool_call_id: seq![],
                name: seq![],
                arguments: None,
            }
        } else if config.tool_results {
            EventView::ToolCallFinished {
                round: 0,
                tool_call_id: seq![],
                name: seq![],
                content_len: 0,
            }
        } else if config.tool_errors {
            EventView::ToolCallFailed {
                round: 0,
                tool_call_id: seq![],
                name: seq![],
                error: seq![],
            }
        } else {
            EventView::CompactionSkipped { reason: seq![] }
        };
        assert(wants_event(config, event));
    }
}

} // verus!
