//! What holds of what is told in words: errors, refusals, and the instruction to trim the context.

use vstd::prelude::*;

use crate::chat::MessageRole;
use crate::error::ErrorView;
use crate::json_value::{flag_of, missing_message, not_a_list, not_a_map, text_of};
use crate::path::without_verbatim_prefix;
use crate::session::compaction::{BreakdownView, CallUsageView, UsageView};
use crate::session::instruction::{call_line, instruction_view, lines_or_none, turn_line};
use crate::text::{decimal, joined};
use crate::tools::file::{read_refused, write_refused};
use crate::value::Tree;

verus! {

/// An error is told as what failed, and behind that what it holds.
pub proof fn errors_tell_what_they_hold(text: Seq<char>, access: Seq<char>, n: usize, status: u16)
    ensures
        ErrorView::Keyring(text).message() == "keyring error: "@ + text,
        ErrorView::Http(text).message() == "http error: "@ + text,
        ErrorView::Url(text).message() == "url error: "@ + text,
        ErrorView::Json(text).message() == "json error: "@ + text,
        ErrorView::Io(text).message() == "io error: "@ + text,
        ErrorView::InvalidHeaderName(text).message() == "invalid http header name: "@ + text,
        ErrorView::InvalidHeaderValue(text).message() == "invalid http header value: "@ + text,
        ErrorView::Tool(text).message() == "tool failed: "@ + text,
        ErrorView::Stream(text).message() == "stream error: "@ + text,
        ErrorView::MissingAssistantMessage.message() == "provider returned no assistant message"@,
        ErrorView::MissingApiKey(text).message() == "api key is not configured for provider '"@
            + text + "'"@,
        ErrorView::UnknownTool(text).message() == "unknown tool '"@ + text + "'"@,
        ErrorView::UnsupportedNativeKeyring(text).message()
            == "no native keyring store is configured for target OS '"@ + text + "'"@,
        (ErrorView::Provider { status, body: text }).message() == "provider returned HTTP "@
            + decimal(status as nat) + ": "@ + text,
        (ErrorView::ProviderResponseTooLarge { limit: n }).message()
            == "provider response exceeded the "@ + decimal(n as nat) + " byte limit"@,
        (ErrorView::PathNotAllowed { path: text, access }).message() == "path '"@ + text
            + "' is outside the allowed "@ + access + " roots"@,
{
}

/// A path that may not be used is told as it was given, without what makes it verbatim, and with
/// what it was for.
pub proof fn refusals_tell_the_path(given: Seq<char>)
    ensures
        read_refused(given).message() == "path '"@ + without_verbatim_prefix(given)
            + "' is outside the allowed "@ + "read"@ + " roots"@,
        write_refused(given).message() == "path '"@ + without_verbatim_prefix(given)
            + "' is outside the allowed "@ + "write"@ + " roots"@,
{
}

/// A turn is listed on one line, field by field.
pub proof fn turns_are_listed_field_by_field(usage: UsageView)
    ensures
        ({
            let role = match usage.role {
                MessageRole::System => "System"@,
                MessageRole::User => "User"@,
                MessageRole::Assistant => "Assistant"@,
                MessageRole::Tool => "Tool"@,
            };
            let name = match usage.name {
                Some(name) => name,
                None => "-"@,
            };
            turn_line(usage) == "- turn_id="@ + decimal(usage.turn_id as nat) + (" role="@ + role)
                + (" name="@ + name) + (" estimated_tokens="@ + decimal(usage.tokens as nat)) + (
            " bytes="@ + decimal(usage.bytes as nat)) + (" summary="@ + usage.summary)
        }),
{
}

/// A call is listed on one line, field by field, the turns that answer it in brackets.
pub proof fn calls_are_listed_field_by_field(usage: CallUsageView)
    ensures
        call_line(usage) == "- tool_call_id="@ + usage.tool_call_id + (" name="@ + usage.name) + (
        " request_turn_id="@ + decimal(usage.request_turn_id as nat)) + (" result_turn_ids=["@
            + joined(usage.result_turn_ids.map_values(|id: u64| decimal(id as nat)), ", "@)
            + "]"@) + (" estimated_tokens="@ + decimal(usage.tokens as nat)) + (" bytes="@ + decimal(
            usage.bytes as nat,
        )) + (" args="@ + usage.arguments_preview),
{
    reveal_strlit(" result_turn_ids=");
    reveal_strlit(" result_turn_ids=[");
    reveal_strlit("[");
    assert(" result_turn_ids=["@ =~= " result_turn_ids="@ + "["@);
    let ids = joined(usage.result_turn_ids.map_values(|id: u64| decimal(id as nat)), ", "@);
    assert(call_line(usage) =~= "- tool_call_id="@ + usage.tool_call_id + (" name="@ + usage.name)
        + (" request_turn_id="@ + decimal(usage.request_turn_id as nat)) + (" result_turn_ids=["@
        + ids + "]"@) + (" estimated_tokens="@ + decimal(usage.tokens as nat)) + (" bytes="@
        + decimal(usage.bytes as nat)) + (" args="@ + usage.arguments_preview));
}

/// The instruction ends with the largest turns and the largest calls, one line each and in order,
/// or with a line that says that there are none; before them it tells the target and the size of
/// the context.
pub proof fn instructions_list_the_largest(target: usize, breakdown: BreakdownView)
    ensures
        ({
            let turns = breakdown.largest_turns;
            let calls = breakdown.largest_tool_calls;
            let listing = "\n\nLargest turns:\n"@ + (if turns.len() == 0 {
                "- none"@
            } else {
                joined(Seq::new(turns.len(), |i: int| turn_line(turns[i])), "\n"@)
            }) + "\n\nLargest tool calls:\n"@ + (if calls.len() == 0 {
                "- none"@
            } else {
                joined(Seq::new(calls.len(), |i: int| call_line(calls[i])), "\n"@)
            });
            exists|head: Seq<char>, middle: Seq<char>|
                instruction_view(target, breakdown) == #[trigger] (head + decimal(target as nat)
                    + middle) + ("Current estimated context: "@ + decimal(
                    breakdown.total_tokens as nat,
                ) + " tokens, "@ + decimal(breakdown.total_bytes as nat) + " bytes."@) + listing
        }),
{
    let turns = breakdown.largest_turns;
    let calls = breakdown.largest_tool_calls;
    let a = turns.map_values(|u: UsageView| turn_line(u));
    let b = calls.map_values(|u: CallUsageView| call_line(u));
    assert(a =~= Seq::new(turns.len(), |i: int| turn_line(turns[i])));
    assert(b =~= Seq::new(calls.len(), |i: int| call_line(calls[i])));
    let head =
        "Context compaction is required before answering the user.\nReuse this existing conversation and system message; do not create a separate context.\nUse only the built-in compaction tools to reduce the active context toward about "@;
    let long =
        " estimated tokens.\nPrefer trimming old read/ripgrep tool results, stale searches, and obsolete file dumps.\nSummarize message sets when their conclusions are still useful, and remove them entirely when irrelevant.\nNever remove the root system prompt or recent conversation.\n\nCurrent estimated context: "@;
    reveal_strlit("Current estimated context: ");
    reveal_strlit(" estimated tokens.\nPrefer trimming old read/ripgrep tool results, stale searches, and obsolete file dumps.\nSummarize message sets when their conclusions are still useful, and remove them entirely when irrelevant.\nNever remove the root system prompt or recent conversation.\n\nCurrent estimated context: ");
    reveal_strlit(" bytes.");
    reveal_strlit("\n\nLargest turns:\n");
    reveal_strlit(" bytes.\n\nLargest turns:\n");
    assert(" bytes.\n\nLargest turns:\n"@ =~= " bytes."@ + "\n\nLargest turns:\n"@);
    let label = "Current estimated context: "@;
    let middle = long.take(long.len() - label.len());
    assert(long =~= middle + label);
    let x = decimal(breakdown.total_tokens as nat);
    let y = decimal(breakdown.total_bytes as nat);
    let listing = "\n\nLargest turns:\n"@ + lines_or_none(a) + "\n\nLargest tool calls:\n"@
        + lines_or_none(b);
    assert(instruction_view(target, breakdown) =~= (head + decimal(target as nat) + middle) + (label
        + x + " tokens, "@ + y + " bytes."@) + listing);
}

/// A value is read as the kind that is asked for, and refused as JSON where it is of another.
pub proof fn values_are_read_as_they_are(value: Tree, field: Seq<char>)
    ensures
        match value {
            Tree::Str(text) => text_of(value) == Ok::<Seq<char>, ErrorView>(text),
            _ => text_of(value) matches Err(ErrorView::Json(_)),
        },
        match value {
            Tree::Bool(b) => flag_of(value) == Ok::<bool, ErrorView>(b),
            _ => flag_of(value) matches Err(ErrorView::Json(_)),
        },
        not_a_list(value) is Json,
        not_a_map(value) is Json,
        missing_message(field) == "missing field `"@ + field + "`"@,
{
}

} // verus!
