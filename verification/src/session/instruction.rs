//! The instruction that asks a model to trim its context.

use vstd::prelude::*;

use crate::chat::MessageRole;
use crate::common::{lemma_take_push, lemma_views_push, views};
use crate::session::compaction::{BreakdownView, CallUsageView, UsageView};
use crate::session::compaction::{CompactionConfig, ContextUsage, ContextUsageBreakdown, ToolCallUsage};
use crate::text::{decimal, joined};
use crate::text::{decimal_text, join_texts};

verus! {

broadcast use lemma_views_push;

// ---------------------------------------------------------------------------------------------
// Models
// ---------------------------------------------------------------------------------------------

/// The name of a role.
pub open spec fn role_name(role: MessageRole) -> Seq<char> {
    match role {
        MessageRole::System => "System"@,
        MessageRole::User => "User"@,
        MessageRole::Assistant => "Assistant"@,
        MessageRole::Tool => "Tool"@,
    }
}

/// The name of a turn, or a dash.
pub open spec fn name_or_dash(name: Option<Seq<char>>) -> Seq<char> {
    match name {
        Some(name) => name,
        None => "-"@,
    }
}

/// One line on a turn.
pub open spec fn turn_line(usage: UsageView) -> Seq<char> {
    "- turn_id="@ + decimal(usage.turn_id as nat) + " role="@ + role_name(usage.role) + " name="@
        + name_or_dash(usage.name) + " estimated_tokens="@ + decimal(usage.tokens as nat)
        + " bytes="@ + decimal(usage.bytes as nat) + " summary="@ + usage.summary
}

/// A list of ids in square brackets.
pub open spec fn id_list(ids: Seq<u64>) -> Seq<char> {
    "["@ + joined(ids.map_values(|id: u64| decimal(id as nat)), ", "@) + "]"@
}

/// One line on a tool call.
pub open spec fn call_line(usage: CallUsageView) -> Seq<char> {
    "- tool_call_id="@ + usage.tool_call_id + " name="@ + usage.name + " request_turn_id="@
        + decimal(usage.request_turn_id as nat) + " result_turn_ids="@ + id_list(
        usage.result_turn_ids,
    ) + " estimated_tokens="@ + decimal(usage.tokens as nat) + " bytes="@ + decimal(
        usage.bytes as nat,
    ) + " args="@ + usage.arguments_preview
}

/// The lines, or a note that there are none.
pub open spec fn lines_or_none(lines: Seq<Seq<char>>) -> Seq<char> {
    if lines.len() == 0 {
        "- none"@
    } else {
        joined(lines, "\n"@)
    }
}

/// The instruction for a target and a breakdown.
pub open spec fn instruction_view(target: usize, breakdown: BreakdownView) -> Seq<char> {
    "Context compaction is required before answering the user.\nReuse this existing conversation and system message; do not create a separate context.\nUse only the built-in compaction tools to reduce the active context toward about "@
        + decimal(target as nat)
        + " estimated tokens.\nPrefer trimming old read/ripgrep tool results, stale searches, and obsolete file dumps.\nSummarize message sets when their conclusions are still useful, and remove them entirely when irrelevant.\nNever remove the root system prompt or recent conversation.\n\nCurrent estimated context: "@
        + decimal(breakdown.total_tokens as nat) + " tokens, "@ + decimal(
        breakdown.total_bytes as nat,
    ) + " bytes.\n\nLargest turns:\n"@ + lines_or_none(
        breakdown.largest_turns.map_values(|u: UsageView| turn_line(u)),
    ) + "\n\nLargest tool calls:\n"@ + lines_or_none(
        breakdown.largest_tool_calls.map_values(|u: CallUsageView| call_line(u)),
    )
}

// ---------------------------------------------------------------------------------------------
// Functions
// ---------------------------------------------------------------------------------------------

/// The name of a role.
pub fn role_text(role: MessageRole) -> (text: &'static str)
    ensures
        text@ == role_name(role),
{
    match role {
        MessageRole::System => "System",
        MessageRole::User => "User",
        MessageRole::Assistant => "Assistant",
        MessageRole::Tool => "Tool",
    }
}

fn describe_turn(usage: &ContextUsage) -> (line: String)
    ensures
        line@ == turn_line(usage@),
{
    let mut line = "- turn_id=".to_owned();
    line.append(decimal_text(usage.turn_id).as_str());
    line.append(" role=");
    line.append(role_text(usage.role));
    line.append(" name=");
    match &usage.name {
        Some(name) => line.append(name.as_str()),
        None => line.append("-"),
    }
    line.append(" estimated_tokens=");
    line.append(decimal_text(usage.estimated_tokens as u64).as_str());
    line.append(" bytes=");
    line.append(decimal_text(usage.bytes as u64).as_str());
    line.append(" summary=");
    line.append(usage.summary.as_str());
    line
}

fn describe_ids(ids: &Vec<u64>) -> (text: String)
    ensures
        text@ == id_list(ids@),
{
    let ghost all = ids@.map_values(|id: u64| decimal(id as nat));
    let mut parts: Vec<String> = Vec::new();
    let mut i: usize = 0;
    while i < ids.len()
        invariant
            i <= ids@.len(),
            all == ids@.map_values(|id: u64| decimal(id as nat)),
            views(parts@) =~= all.take(i as int),
        decreases ids@.len() - i,
    {
        parts.push(decimal_text(ids[i]));
        proof {
            lemma_take_push(all, i as int);
        }
        i += 1;
    }
    assert(all.take(i as int) =~= all);
    let mut text = "[".to_owned();
    text.append(join_texts(&parts, ", ").as_str());
    text.append("]");
    text
}

fn describe_call(usage: &ToolCallUsage) -> (line: String)
    ensures
        line@ == call_line(usage@),
{
    let mut line = "- tool_call_id=".to_owned();
    line.append(usage.tool_call_id.as_str());
    line.append(" name=");
    line.append(usage.name.as_str());
    line.append(" request_turn_id=");
    line.append(decimal_text(usage.request_turn_id).as_str());
    line.append(" result_turn_ids=");
    line.append(describe_ids(&usage.result_turn_ids).as_str());
    line.append(" estimated_tokens=");
    line.append(decimal_text(usage.estimated_tokens as u64).as_str());
    line.append(" bytes=");
    line.append(decimal_text(usage.bytes as u64).as_str());
    line.append(" args=");
    line.append(usage.arguments_preview.as_str());
    line
}

fn joined_or_none(lines: &Vec<String>) -> (text: String)
    ensures
        text@ == lines_or_none(views(lines@)),
{
    if lines.len() == 0 {
        "- none".to_owned()
    } else {
        join_texts(lines, "\n")
    }
}

fn format_turn_breakdown(turns: &Vec<ContextUsage>) -> (text: String)
    ensures
        text@ == lines_or_none(views(turns@).map_values(|u: UsageView| turn_line(u))),
{
    let ghost all = views(turns@).map_values(|u: UsageView| turn_line(u));
    let mut lines: Vec<String> = Vec::new();
    let mut i: usize = 0;
    while i < turns.len()
        invariant
            i <= turns@.len(),
            all == views(turns@).map_values(|u: UsageView| turn_line(u)),
            views(lines@) =~= all.take(i as int),
        decreases turns@.len() - i,
    {
        lines.push(describe_turn(&turns[i]));
        proof {
            lemma_take_push(all, i as int);
        }
        i += 1;
    }
    assert(all.take(i as int) =~= all);
    joined_or_none(&lines)
}

fn format_tool_breakdown(calls: &Vec<ToolCallUsage>) -> (text: String)
    ensures
        text@ == lines_or_none(views(calls@).map_values(|u: CallUsageView| call_line(u))),
{
    let ghost all = views(calls@).map_values(|u: CallUsageView| call_line(u));
    let mut lines: Vec<String> = Vec::new();
    let mut i: usize = 0;
    while i < calls.len()
        invariant
            i <= calls@.len(),
            all == views(calls@).map_values(|u: CallUsageView| call_line(u)),
            views(lines@) =~= all.take(i as int),
        decreases calls@.len() - i,
    {
        lines.push(describe_call(&calls[i]));
        proof {
            lemma_take_push(all, i as int);
        }
        i += 1;
    }
    assert(all.take(i as int) =~= all);
    joined_or_none(&lines)
}

/// The instruction that asks a model to trim its context.
pub fn instruction(config: &CompactionConfig, breakdown: &ContextUsageBreakdown) -> (text: String)
    ensures
        text@ == instruction_view(config.target_estimated_tokens, breakdown@),
{
    let mut text =
        "Context compaction is required before answering the user.\nReuse this existing conversation and system message; do not create a separate context.\nUse only the built-in compaction tools to reduce the active context toward about ".to_owned();
    text.append(decimal_text(config.target_estimated_tokens as u64).as_str());
    text.append(
        " estimated tokens.\nPrefer trimming old read/ripgrep tool results, stale searches, and obsolete file dumps.\nSummarize message sets when their conclusions are still useful, and remove them entirely when irrelevant.\nNever remove the root system prompt or recent conversation.\n\nCurrent estimated context: ",
    );
    text.append(decimal_text(breakdown.total_estimated_tokens as u64).as_str());
    text.append(" tokens, ");
    text.append(decimal_text(breakdown.total_bytes as u64).as_str());
    text.append(" bytes.\n\nLargest turns:\n");
    text.append(format_turn_breakdown(&breakdown.largest_turns).as_str());
    text.append("\n\nLargest tool calls:\n");
    text.append(format_tool_breakdown(&breakdown.largest_tool_calls).as_str());
    text
}

} // verus!
