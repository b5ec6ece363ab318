//! What holds of tools: how calls are read and answered, and what a registry holds.

use vstd::prelude::*;

use crate::chat::{CallView, MessageRole, MessageView, ReasoningView};
use crate::content::ContentView;
use crate::error::ErrorView;
use crate::json::{parsed_json, plain_text, JsonView, ShapeView};
use crate::state::RootsView;
use crate::text::{blank, joined, lemma_first_position};
use crate::tools::builtin::{builtin_definition, is_builtin_tail, is_media_reader};
use crate::tools::builtin::{BuiltinKind, BuiltinSchemas, BuiltinTool};
use crate::tools::compact::{acknowledgement_view, compaction_tool, definition_list};
use crate::tools::compact::preview_view;
use crate::tools::file::READ_DESCRIPTION;
use crate::tools::media::{format_lists, MediaReaderView};
use crate::tools::{arguments_of, definition_views, output_content, reported, result_message};
use crate::tools::{tool_named, tool_names, with_tool, OutputView, ResultView, Tool};

verus! {

/// A blank text of arguments is an empty object; any other is read as JSON.
pub proof fn blank_arguments_are_an_empty_object(text: Seq<char>)
    ensures
        blank(text) ==> arguments_of(text) == Ok::<JsonView, Seq<char>>(
            JsonView { text: "{}"@, shape: ShapeView::Object },
        ),
        !blank(text) ==> arguments_of(text) == parsed_json(text),
{
}

/// A call is answered under its id and its name: with the result that it gave, or with a report of
/// its error that asks for another try. The answer is a tool message.
pub proof fn calls_are_answered(
    call: CallView,
    result: ResultView,
    error: ErrorView,
)
    ensures
        reported(call, Ok(result)) == result,
        reported(call, Err(error)) == (ResultView {
            tool_call_id: call.id,
            name: call.name,
            content: ContentView::Text(
                "Tool error: "@ + error.message()
                    + "\nPlease correct the tool call arguments and try again."@,
            ),
        }),
        result_message(result) == (MessageView {
            role: MessageRole::Tool,
            content: result.content,
            annotations: seq![],
            reasoning: ReasoningView {
                reasoning: None,
                reasoning_content: None,
                reasoning_details: None,
            },
            tool_calls: seq![],
            tool_call_id: Some(result.tool_call_id),
            name: Some(result.name),
        }),
{
}

/// Output is handed on as it is; a JSON value as its text, a string without its quotes.
pub proof fn output_is_handed_on(json: JsonView, content: ContentView)
    ensures
        output_content(OutputView::Content(content)) == content,
        output_content(OutputView::Json(json)) == ContentView::Text(plain_text(json)),
        plain_text(json) == (match json.shape {
            ShapeView::Text(text) => text,
            _ => json.text,
        }),
{
}

/// A tool that is added replaces the one of its name, in its place; otherwise it stands behind the
/// others. The others stay as they were.
pub proof fn tools_are_added_in_their_place<H>(tools: Seq<Tool<H>>, tool: Tool<H>, i: int)
    requires
        0 <= i < tools.len(),
    ensures
        ({
            let after = with_tool(tools, tool);
            let known = tool_names(tools).contains(tool.definition_view().name);
            &&& known ==> after.len() == tools.len()
            &&& !known ==> after == tools.push(tool)
            &&& tools[i].definition_view().name != tool.definition_view().name ==> after[i]
                == tools[i]
            &&& after.contains(tool)
            &&& definition_views(after).len() == after.len()
            &&& definition_views(after)[i] == after[i].definition_view()
        }),
{
    let name = tool.definition_view().name;
    let names = tool_names(tools);
    lemma_first_position(names, name);
    let k = crate::text::first_position(names, name);
    if names.contains(name) {
        let j = choose|j: int| 0 <= j < names.len() && names[j] == name;
        assert(k < names.len());
        assert(with_tool(tools, tool)[k] == tool);
        assert(names[k] == tools[k].definition_view().name);
    } else {
        if k < names.len() {
            assert(names[k] == name);
        }
        assert(with_tool(tools, tool)[tools.len() as int] == tool);
    }
}

/// A tool is found by its name where there is one of that name, and none other is found.
pub proof fn tools_are_found_by_their_name<H>(tools: Seq<Tool<H>>, name: Seq<char>)
    ensures
        tool_named(tools, name) is Some <==> exists|i: int|
            0 <= i < tools.len() && (#[trigger] tools[i]).definition_view().name == name,
        tool_named(tools, name) matches Some(tool) ==> tool.definition_view().name == name
            && tools.contains(tool),
{
    let names = tool_names(tools);
    lemma_first_position(names, name);
    let k = crate::text::first_position(names, name);
    if k < tools.len() {
        assert(names[k] == tools[k].definition_view().name);
    }
    if exists|i: int| 0 <= i < tools.len() && (#[trigger] tools[i]).definition_view().name == name {
        let i = choose|i: int|
            0 <= i < tools.len() && (#[trigger] tools[i]).definition_view().name == name;
        assert(names[i] == name);
    }
}

/// Compaction has two tools, one that removes and one that summarizes; each is defined as a
/// function with its own parameters, and acknowledged by what it did.
pub proof fn compaction_has_two_tools(
    name: Seq<char>,
    detail: Seq<char>,
    remove: JsonView,
    summarize: JsonView,
)
    ensures
        compaction_tool(name) <==> name == "compact_remove_messages"@ || name
            == "compact_summarize_messages"@,
        ({
            let list = definition_list(remove, summarize);
            &&& list.len() == 2
            &&& list[0].kind == "function"@ && list[1].kind == "function"@
            &&& list[0].name == "compact_remove_messages"@
            &&& list[1].name == "compact_summarize_messages"@
            &&& list[0].parameters == remove
            &&& list[1].parameters == summarize
        }),
        acknowledgement_view("compact_remove_messages"@, detail)
            == "Compaction acknowledged: "@ + "removed selected context"@ + ". "@ + preview_view(
            detail,
            160,
        ),
        acknowledgement_view("compact_summarize_messages"@, detail)
            == "Compaction acknowledged: "@ + "summarized selected context"@ + ". "@ + preview_view(
            detail,
            160,
        ),
{
    reveal_strlit("compact_remove_messages");
    reveal_strlit("compact_summarize_messages");
    assert("compact_remove_messages"@.len() == 23 && "compact_summarize_messages"@.len() == 26);
}

/// A built-in tool is defined as a function under its own name, with the parameters that it is
/// given.
pub proof fn builtins_are_defined_by_their_names(kind: BuiltinKind, parameters: JsonView)
    ensures
        ({
            let definition = builtin_definition(kind, parameters);
            &&& definition.kind == "function"@
            &&& definition.parameters == parameters
            &&& definition.name == (match kind {
                BuiltinKind::Read => "read"@,
                BuiltinKind::CreateFile => "create_file"@,
                BuiltinKind::DeleteFile => "delete_file"@,
                BuiltinKind::ApplyPatch => "apply_patch"@,
                BuiltinKind::Ripgrep => "ripgrep"@,
            })
        }),
{
}

/// The built-in tools are, behind the reader, those that create, delete and patch files and the
/// one that searches, each with its own parameters and under the same roots.
pub proof fn builtins_stand_in_their_order(
    tools: Seq<Tool<BuiltinTool>>,
    roots: RootsView,
    schemas: BuiltinSchemas,
)
    requires
        is_builtin_tail(tools, roots, schemas),
    ensures
        tools.len() == 5,
        tools[1].definition_view().name == "create_file"@,
        tools[1].definition_view().parameters == schemas.create_file@,
        tools[1].handler_view()@.kind == BuiltinKind::CreateFile,
        tools[2].definition_view().name == "delete_file"@,
        tools[2].definition_view().parameters == schemas.delete_file@,
        tools[2].handler_view()@.kind == BuiltinKind::DeleteFile,
        tools[3].definition_view().name == "apply_patch"@,
        tools[3].definition_view().parameters == schemas.apply_patch@,
        tools[3].handler_view()@.kind == BuiltinKind::ApplyPatch,
        tools[4].definition_view().name == "ripgrep"@,
        tools[4].definition_view().parameters == schemas.ripgrep@,
        tools[4].handler_view()@.kind == BuiltinKind::Ripgrep,
        forall|i: int|
            1 <= i < 5 ==> (#[trigger] tools[i]).handler_view()@.roots == roots
                && tools[i].handler_view()@.media is None,
{
    assert forall|i: int| 1 <= i < 5 implies (#[trigger] tools[i]).handler_view()@.roots == roots
        && tools[i].handler_view()@.media is None by {
        assert(i == 1 || i == 2 || i == 3 || i == 4);
    }
}

/// A reader of media tells which formats it takes, and takes them; where the model advertises
/// none, it is the plain reader.
pub proof fn media_readers_tell_their_formats(
    tool: Tool<BuiltinTool>,
    reader: MediaReaderView,
    roots: RootsView,
    parameters: JsonView,
)
    requires
        is_media_reader(tool, reader, roots, parameters),
    ensures
        tool.definition_view().name == "read"@,
        tool.definition_view().kind == "function"@,
        tool.definition_view().parameters == parameters,
        tool.handler_view()@.kind == BuiltinKind::Read,
        tool.handler_view()@.roots == roots,
        format_lists(reader).len() == 0 ==> tool.handler_view()@.media is None
            && tool.definition_view().description == READ_DESCRIPTION@,
        format_lists(reader).len() > 0 ==> tool.handler_view()@.media == Some(reader) && exists|
            more: Seq<char>,
        |
            tool.definition_view().description == #[trigger] (READ_DESCRIPTION@
                + "\n\nThis model can also read these local media formats: "@ + joined(
                format_lists(reader),
                "; "@,
            ) + more),
{
    if format_lists(reader).len() > 0 {
        let lists = joined(format_lists(reader), "; "@);
        let start = "\n\nThis model can also read these local media formats: "@;
        let more =
            ". The path's extension selects the format. Media is attached directly for analysis, rather than converted to text. Media reads accept only path, return the complete file, and are capped at 20 MiB before encoding. Do not supply text offsets/counts for media. Upstream format limits may be narrower."@;
        assert(READ_DESCRIPTION@ + (start + lists + more) =~= READ_DESCRIPTION@ + start + lists
            + more);
    }
}

} // verus!
