//! The built-in registry of file tools.

use vstd::prelude::*;

use crate::common::{view_of, Duplicate};
use crate::json::{JsonText, JsonView};
use crate::provider::{ChatProvider, ModelCapabilities, ProviderKind};
use crate::state::{AgentState, RootsView};
use crate::text::lemma_first_position;
use crate::tools::file::{
    APPLY_PATCH_DESCRIPTION, CREATE_FILE_DESCRIPTION, DELETE_FILE_DESCRIPTION, READ_DESCRIPTION,
    RIPGREP_DESCRIPTION,
};
use crate::tools::media::{FormatSet, MediaReader, MediaReaderView};
use crate::tools::media::{format_lists, media_description};
use crate::tools::{DefinitionView, Tool, ToolDefinition, ToolRegistry};
use crate::tools::{tool_names, with_tool};

verus! {

/// What a built-in tool does.
#[derive(Clone, Copy, Debug, PartialEq, Eq, Structural)]
pub enum BuiltinKind {
    Read,
    CreateFile,
    DeleteFile,
    ApplyPatch,
    Ripgrep,
}

/// The handler of a built-in tool.
#[derive(Debug, PartialEq, Eq)]
pub struct BuiltinTool {
    /// What it does.
    pub kind: BuiltinKind,
    /// Where it may do it.
    pub state: AgentState,
    /// What a reader reads beside text.
    pub media: Option<MediaReader>,
}

/// The model of a [`BuiltinTool`].
pub struct BuiltinView {
    pub kind: BuiltinKind,
    pub roots: RootsView,
    pub media: Option<MediaReaderView>,
}

/// The JSON schemas of the arguments of the built-in tools.
#[derive(Debug, PartialEq, Eq)]
pub struct BuiltinSchemas {
    pub read: JsonText,
    pub create_file: JsonText,
    pub delete_file: JsonText,
    pub apply_patch: JsonText,
    pub ripgrep: JsonText,
}

impl View for BuiltinTool {
    type V = BuiltinView;

    open spec fn view(&self) -> BuiltinView {
        BuiltinView { kind: self.kind, roots: self.state@, media: view_of(self.media) }
    }
}

impl Duplicate for BuiltinTool {
    fn duplicate(&self) -> (copy: Self) {
        BuiltinTool {
            kind: self.kind,
            state: self.state.duplicate(),
            media: crate::common::duplicate_option(&self.media),
        }
    }
}

/// The name of a built-in tool.
pub open spec fn builtin_name(kind: BuiltinKind) -> Seq<char> {
    match kind {
        BuiltinKind::Read => "read"@,
        BuiltinKind::CreateFile => "create_file"@,
        BuiltinKind::DeleteFile => "delete_file"@,
        BuiltinKind::ApplyPatch => "apply_patch"@,
        BuiltinKind::Ripgrep => "ripgrep"@,
    }
}

/// The description of a built-in tool.
pub open spec fn builtin_description(kind: BuiltinKind) -> Seq<char> {
    match kind {
        BuiltinKind::Read => READ_DESCRIPTION@,
        BuiltinKind::CreateFile => CREATE_FILE_DESCRIPTION@,
        BuiltinKind::DeleteFile => DELETE_FILE_DESCRIPTION@,
        BuiltinKind::ApplyPatch => APPLY_PATCH_DESCRIPTION@,
        BuiltinKind::Ripgrep => RIPGREP_DESCRIPTION@,
    }
}

/// The definition of a built-in tool.
pub open spec fn builtin_definition(kind: BuiltinKind, parameters: JsonView) -> DefinitionView {
    DefinitionView {
        kind: "function"@,
        name: builtin_name(kind),
        description: builtin_description(kind),
        parameters,
    }
}

/// Whether `tool` is the built-in one.
pub open spec fn is_builtin(
    tool: Tool<BuiltinTool>,
    kind: BuiltinKind,
    roots: RootsView,
    parameters: JsonView,
) -> bool {
    &&& tool.definition_view() == builtin_definition(kind, parameters)
    &&& tool.handler_view()@ == (BuiltinView { kind, roots, media: None })
}

/// The definition of a reader of text and of the media that the model takes.
pub open spec fn media_read_definition(reader: MediaReaderView, parameters: JsonView) -> DefinitionView {
    DefinitionView {
        description: READ_DESCRIPTION@ + media_description(format_lists(reader)),
        ..builtin_definition(BuiltinKind::Read, parameters)
    }
}

/// Whether `tool` reads text, and the media of `reader` where the model takes any.
pub open spec fn is_media_reader(
    tool: Tool<BuiltinTool>,
    reader: MediaReaderView,
    roots: RootsView,
    parameters: JsonView,
) -> bool {
    if format_lists(reader).len() == 0 {
        is_builtin(tool, BuiltinKind::Read, roots, parameters)
    } else {
        &&& tool.definition_view() == media_read_definition(reader, parameters)
        &&& tool.handler_view()@ == (BuiltinView {
            kind: BuiltinKind::Read,
            roots,
            media: Some(reader),
        })
    }
}

/// The formats that a provider takes.
pub open spec fn provider_formats(kind: ProviderKind) -> FormatSet {
    match kind {
        ProviderKind::LlamaCpp => FormatSet::LlamaCpp,
        _ => FormatSet::OpenRouter,
    }
}

/// Create the built-in `read` tool.
pub fn read_tool(state: AgentState, parameters: JsonText) -> (tool: Tool<BuiltinTool>)
    ensures
        is_builtin(tool, BuiltinKind::Read, state@, parameters@),
{
    Tool::new(
        ToolDefinition::new("read", READ_DESCRIPTION, parameters),
        BuiltinTool { kind: BuiltinKind::Read, state, media: None },
    )
}

/// Create the built-in `create_file` tool.
pub fn create_file_tool(state: AgentState, parameters: JsonText) -> (tool: Tool<BuiltinTool>)
    ensures
        is_builtin(tool, BuiltinKind::CreateFile, state@, parameters@),
{
    Tool::new(
        ToolDefinition::new("create_file", CREATE_FILE_DESCRIPTION, parameters),
        BuiltinTool { kind: BuiltinKind::CreateFile, state, media: None },
    )
}

/// Create the built-in `delete_file` tool.
pub fn delete_file_tool(state: AgentState, parameters: JsonText) -> (tool: Tool<BuiltinTool>)
    ensures
        is_builtin(tool, BuiltinKind::DeleteFile, state@, parameters@),
{
    Tool::new(
        ToolDefinition::new("delete_file", DELETE_FILE_DESCRIPTION, parameters),
        BuiltinTool { kind: BuiltinKind::DeleteFile, state, media: None },
    )
}

/// Create the built-in `apply_patch` tool.
pub fn apply_patch_tool(state: AgentState, parameters: JsonText) -> (tool: Tool<BuiltinTool>)
    ensures
        is_builtin(tool, BuiltinKind::ApplyPatch, state@, parameters@),
{
    Tool::new(
        ToolDefinition::new("apply_patch", APPLY_PATCH_DESCRIPTION, parameters),
        BuiltinTool { kind: BuiltinKind::ApplyPatch, state, media: None },
    )
}

/// Create the built-in `ripgrep` search tool.
pub fn ripgrep_tool(state: AgentState, parameters: JsonText) -> (tool: Tool<BuiltinTool>)
    ensures
        is_builtin(tool, BuiltinKind::Ripgrep, state@, parameters@),
{
    Tool::new(
        ToolDefinition::new("ripgrep", RIPGREP_DESCRIPTION, parameters),
        BuiltinTool { kind: BuiltinKind::Ripgrep, state, media: None },
    )
}

/// Create a `read` tool that also reads the media of `reader`, where the model takes any.
pub fn media_read_tool(state: AgentState, parameters: JsonText, reader: MediaReader) -> (tool: Tool<
    BuiltinTool,
>)
    ensures
        is_media_reader(tool, reader@, state@, parameters@),
{
    match reader.describe(READ_DESCRIPTION) {
        None => read_tool(state, parameters),
        Some(description) => Tool::new(
            ToolDefinition::new("read", description, parameters),
            BuiltinTool { kind: BuiltinKind::Read, state, media: Some(reader) },
        ),
    }
}

/// Extend `read` with the media types advertised by a model, in the formats that OpenRouter takes.
///
/// Common media formats are recognized by filename extension. Text retains its existing
/// pagination and limits. Media is returned whole, as content parts, and cannot be paginated.
/// Root permissions and the media size limit apply before any content is returned.
pub fn read_tool_with_capabilities(
    state: AgentState,
    parameters: JsonText,
    capabilities: ModelCapabilities,
) -> (tool: Tool<BuiltinTool>)
    ensures
        is_media_reader(
            tool,
            MediaReaderView { formats: FormatSet::OpenRouter, capabilities: capabilities@ },
            state@,
            parameters@,
        ),
{
    media_read_tool(
        state,
        parameters,
        MediaReader { formats: FormatSet::OpenRouter, capabilities },
    )
}

pub proof fn lemma_builtin_names()
    ensures
        forall|a: BuiltinKind, b: BuiltinKind| #[trigger]
            builtin_name(a) == #[trigger] builtin_name(b) ==> a == b,
{
    reveal_strlit("read");
    reveal_strlit("create_file");
    reveal_strlit("delete_file");
    reveal_strlit("apply_patch");
    reveal_strlit("ripgrep");
    assert("create_file"@[0] == 'c');
    assert("delete_file"@[0] == 'd');
    assert("apply_patch"@[0] == 'a');
    assert("read"@.len() == 4 && "ripgrep"@.len() == 7);
}

pub proof fn lemma_new_tool<H>(tools: Seq<Tool<H>>, tool: Tool<H>)
    requires
        forall|i: int|
            0 <= i < tools.len() ==> (#[trigger] tools[i]).definition_view().name
                != tool.definition_view().name,
    ensures
        with_tool(tools, tool) == tools.push(tool),
{
    let names = tool_names(tools);
    let name = tool.definition_view().name;
    lemma_first_position(names, name);
    let k = crate::text::first_position(names, name);
    if k < tools.len() {
        assert(names[k] == tools[k].definition_view().name);
    }
}

/// Whether `tools` are the built-in tools behind the reader, in order.
pub open spec fn is_builtin_tail(
    tools: Seq<Tool<BuiltinTool>>,
    roots: RootsView,
    schemas: BuiltinSchemas,
) -> bool {
    &&& tools.len() == 5
    &&& is_builtin(tools[1], BuiltinKind::CreateFile, roots, schemas.create_file@)
    &&& is_builtin(tools[2], BuiltinKind::DeleteFile, roots, schemas.delete_file@)
    &&& is_builtin(tools[3], BuiltinKind::ApplyPatch, roots, schemas.apply_patch@)
    &&& is_builtin(tools[4], BuiltinKind::Ripgrep, roots, schemas.ripgrep@)
}

/// Default built-in registry for filesystem-oriented agents.
///
/// Includes read/search tools for readable roots and create/delete/patch tools for writable roots.
pub fn builtin_registry(state: AgentState, schemas: &BuiltinSchemas) -> (registry: ToolRegistry<
    BuiltinTool,
>)
    ensures
        registry.wf(),
        is_builtin_tail(registry@, state@, *schemas),
        is_builtin(registry@[0], BuiltinKind::Read, state@, schemas.read@),
{
    let read = read_tool(state.duplicate(), schemas.read.duplicate());
    let create = create_file_tool(state.duplicate(), schemas.create_file.duplicate());
    let delete = delete_file_tool(state.duplicate(), schemas.delete_file.duplicate());
    let patch = apply_patch_tool(state.duplicate(), schemas.apply_patch.duplicate());
    let search = ripgrep_tool(state, schemas.ripgrep.duplicate());
    proof {
        lemma_builtin_names();
        let none = Seq::<Tool<BuiltinTool>>::empty();
        lemma_new_tool(none, read);
        let one = none.push(read);
        lemma_new_tool(one, create);
        let two = one.push(create);
        lemma_new_tool(two, delete);
        let three = two.push(delete);
        lemma_new_tool(three, patch);
        let four = three.push(patch);
        lemma_new_tool(four, search);
    }
    ToolRegistry::new().with_tool(read).with_tool(create).with_tool(delete).with_tool(
        patch,
    ).with_tool(search)
}

/// The built-in registry for a provider whose model was found to have `capabilities`.
///
/// Unknown models and providers without discovery retain the text reader. This captures one
/// capability snapshot for the registry: call it again when switching models.
pub fn builtin_registry_for_provider(
    state: AgentState,
    schemas: &BuiltinSchemas,
    provider: &ChatProvider,
    capabilities: Option<ModelCapabilities>,
) -> (registry: ToolRegistry<BuiltinTool>)
    ensures
        registry.wf(),
        is_builtin_tail(registry@, state@, *schemas),
        match capabilities {
            None => is_builtin(registry@[0], BuiltinKind::Read, state@, schemas.read@),
            Some(capabilities) => is_media_reader(
                registry@[0],
                MediaReaderView {
                    formats: provider_formats(provider@.kind),
                    capabilities: capabilities@,
                },
                state@,
                schemas.read@,
            ),
        },
{
    let mut registry = builtin_registry(state.duplicate(), schemas);
    if let Some(capabilities) = capabilities {
        let formats = match provider.config().kind {
            ProviderKind::LlamaCpp => FormatSet::LlamaCpp,
            _ => FormatSet::OpenRouter,
        };
        let tool = media_read_tool(
            state,
            schemas.read.duplicate(),
            MediaReader { formats, capabilities },
        );
        proof {
            let names = tool_names(registry@);
            assert(names[0] == registry@[0].definition_view().name);
            assert(tool.definition_view().name == "read"@);
            crate::text::lemma_first_position_unique(names, "read"@, 0);
        }
        let _ = registry.insert(tool);
    }
    registry
}

} // verus!
