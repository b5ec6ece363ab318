//! The built-in tools by which a model trims its own context.

use vstd::prelude::*;

use crate::error::{tool_error, Error, ErrorView};
use crate::text::{is_blank, is_control_code, replace_text, same_text, to_chars};
use crate::text::{blank, control_code, replaced};
use crate::common::views;
use crate::json::{JsonText, JsonView};
use crate::tools::{DefinitionView, ToolDefinition};

verus! {

/// Name of the tool that removes messages.
pub const COMPACT_REMOVE_MESSAGES: &'static str = "compact_remove_messages";

/// Name of the tool that replaces messages by a summary.
pub const COMPACT_SUMMARIZE_MESSAGES: &'static str = "compact_summarize_messages";

/// Description of the tool that removes messages.
pub const REMOVE_MESSAGES_DESCRIPTION: &'static str = "Remove old or irrelevant messages from the active context. Use this mainly for stale read/ripgrep tool results. When removing tool results, the matching assistant tool request is also removed or edited so the transcript stays valid. Do not remove the root system prompt or recent conversation.";

/// Description of the tool that replaces messages by a summary.
pub const SUMMARIZE_MESSAGES_DESCRIPTION: &'static str = "Replace old messages with one concise context summary. Use this for older discussion whose conclusions still matter. When summarizing tool results, include the useful facts and paths, not raw file dumps.";

/// Arguments of the removing tool.
#[derive(Debug, PartialEq, Eq)]
pub struct RemoveMessagesArgs {
    /// Stable turn IDs to remove from the active context.
    pub turn_ids: Vec<u64>,
    /// Brief reason these turns are safe to remove.
    pub reason: String,
}

/// Arguments of the summarizing tool.
#[derive(Debug, PartialEq, Eq)]
pub struct SummarizeMessagesArgs {
    /// Stable turn IDs to summarize and remove from the active context.
    pub turn_ids: Vec<u64>,
    /// Concise replacement summary preserving facts still needed later.
    pub summary: String,
    /// Brief reason summarization is appropriate.
    pub reason: String,
}

// ---------------------------------------------------------------------------------------------
// Models
// ---------------------------------------------------------------------------------------------

/// Whether `name` names a compaction tool.
pub open spec fn compaction_tool(name: Seq<char>) -> bool {
    name == COMPACT_REMOVE_MESSAGES@ || name == COMPACT_SUMMARIZE_MESSAGES@
}

/// Whether a preview shows `c`.
pub open spec fn previewed(c: char) -> bool {
    !control_code(c) || c == '\n' || c == '\t'
}

/// The first `limit` characters of `text` without control codes, marked where more follows, on
/// one line.
pub open spec fn preview_view(text: Seq<char>, limit: nat) -> Seq<char> {
    let shown = text.take(
        if limit <= text.len() {
            limit as int
        } else {
            text.len() as int
        },
    ).filter(|c: char| previewed(c));
    replaced(
        if text.len() > limit {
            shown + "..."@
        } else {
            shown
        },
        "\n"@,
        "\\n"@,
    )
}

/// What a compaction tool did.
pub open spec fn compaction_action(name: Seq<char>) -> Seq<char> {
    if name == COMPACT_REMOVE_MESSAGES@ {
        "removed selected context"@
    } else if name == COMPACT_SUMMARIZE_MESSAGES@ {
        "summarized selected context"@
    } else {
        "updated context"@
    }
}

/// The acknowledgement that a successful compaction call leaves in the history.
pub open spec fn acknowledgement_view(name: Seq<char>, detail: Seq<char>) -> Seq<char> {
    "Compaction acknowledged: "@ + compaction_action(name) + ". "@ + preview_view(detail, 160)
}

// ---------------------------------------------------------------------------------------------
// Functions
// ---------------------------------------------------------------------------------------------

/// Arguments of the removing tool, from its argument text and what decoding that text gave.
pub fn parse_remove_args(
    arguments: &str,
    decoded: Result<RemoveMessagesArgs, String>,
) -> (r: Result<RemoveMessagesArgs, Error>)
    ensures
        match r {
            Ok(args) => !blank(arguments@) && decoded == Ok::<RemoveMessagesArgs, String>(args),
            Err(e) => if blank(arguments@) {
                e@ == ErrorView::Tool("compact_remove_messages requires arguments"@)
            } else {
                decoded matches Err(message) && e@ == ErrorView::Json(message@)
            },
        },
{
    if is_blank(arguments) {
        return Err(tool_error("compact_remove_messages requires arguments"));
    }
    match decoded {
        Ok(args) => Ok(args),
        Err(message) => Err(Error::Json(message)),
    }
}

/// Arguments of the summarizing tool, from its argument text and what decoding that text gave.
pub fn parse_summarize_args(
    arguments: &str,
    decoded: Result<SummarizeMessagesArgs, String>,
) -> (r: Result<SummarizeMessagesArgs, Error>)
    ensures
        match r {
            Ok(args) => !blank(arguments@) && decoded == Ok::<SummarizeMessagesArgs, String>(args),
            Err(e) => if blank(arguments@) {
                e@ == ErrorView::Tool("compact_summarize_messages requires arguments"@)
            } else {
                decoded matches Err(message) && e@ == ErrorView::Json(message@)
            },
        },
{
    if is_blank(arguments) {
        return Err(tool_error("compact_summarize_messages requires arguments"));
    }
    match decoded {
        Ok(args) => Ok(args),
        Err(message) => Err(Error::Json(message)),
    }
}

/// Whether `name` names a compaction tool.
pub fn is_compaction_tool(name: &str) -> (b: bool)
    ensures
        b == compaction_tool(name@),
{
    same_text(name, COMPACT_REMOVE_MESSAGES) || same_text(name, COMPACT_SUMMARIZE_MESSAGES)
}

/// The acknowledgement that a successful compaction call leaves in the history.
pub fn acknowledgement(name: &str, detail: &str) -> (text: String)
    ensures
        text@ == acknowledgement_view(name@, detail@),
{
    let action: &str = if same_text(name, COMPACT_REMOVE_MESSAGES) {
        "removed selected context"
    } else if same_text(name, COMPACT_SUMMARIZE_MESSAGES) {
        "summarized selected context"
    } else {
        "updated context"
    };
    let mut text = "Compaction acknowledged: ".to_owned();
    text.append(action);
    text.append(". ");
    text.append(preview(detail, 160).as_str());
    text
}

/// A one-line preview of `text`.
pub fn preview(text: &str, limit: usize) -> (r: String)
    ensures
        r@ == preview_view(text@, limit as nat),
{
    let chars = to_chars(text);
    let end: usize = if limit <= chars.len() {
        limit
    } else {
        chars.len()
    };
    let mut shown = String::new();
    let mut i: usize = 0;
    let ghost keep = |c: char| previewed(c);
    proof {
        reveal(Seq::filter);
        assert(shown@ =~= chars@.take(0).filter(keep));
    }
    while i < end
        invariant
            i <= end <= chars@.len(),
            keep == (|c: char| previewed(c)),
            shown@ == chars@.take(i as int).filter(keep),
        decreases end - i,
    {
        let c = chars[i];
        proof {
            reveal(Seq::filter);
            assert(chars@.take(i + 1).drop_last() =~= chars@.take(i as int));
        }
        if !is_control_code(c) || c == '\n' || c == '\t' {
            shown.push(c);
        }
        i += 1;
    }
    if chars.len() > limit {
        shown.append("...");
    }
    replace_text(shown.as_str(), "\n", "\\n")
}

/// The definitions of the compaction tools.
pub open spec fn definition_list(remove: JsonView, summarize: JsonView) -> Seq<DefinitionView> {
    seq![
        DefinitionView {
            kind: "function"@,
            name: COMPACT_REMOVE_MESSAGES@,
            description: REMOVE_MESSAGES_DESCRIPTION@,
            parameters: remove,
        },
        DefinitionView {
            kind: "function"@,
            name: COMPACT_SUMMARIZE_MESSAGES@,
            description: SUMMARIZE_MESSAGES_DESCRIPTION@,
            parameters: summarize,
        },
    ]
}

/// The definitions of the compaction tools, whose arguments have the given schemas.
pub fn definitions(remove: JsonText, summarize: JsonText) -> (definitions: Vec<ToolDefinition>)
    ensures
        views(definitions@) == definition_list(remove@, summarize@),
{
    let mut definitions: Vec<ToolDefinition> = Vec::new();
    definitions.push(
        ToolDefinition::new(COMPACT_REMOVE_MESSAGES, REMOVE_MESSAGES_DESCRIPTION, remove),
    );
    definitions.push(
        ToolDefinition::new(COMPACT_SUMMARIZE_MESSAGES, SUMMARIZE_MESSAGES_DESCRIPTION, summarize),
    );
    assert(views(definitions@) =~= definition_list(remove@, summarize@));
    definitions
}

} // verus!
