//! Tool definitions, registries, built-ins, and compaction tool schemas.

pub mod builtin;
pub mod compact;
pub mod file;
pub mod laws;
pub mod media;
pub mod media_laws;
pub mod read;

use vstd::prelude::*;

use crate::chat::{tool_message, CallView, ChatMessage, MessageRole, MessageView, ToolCall};
use crate::common::{lemma_take_push, lemma_views_push, views, Duplicate, TextSource};
use crate::content::{ContentView, MessageContent};
use crate::error::{Error, ErrorView};
use crate::json::{parsed_json, plain_text, JsonText, JsonView, ShapeView};
use crate::text::{blank, first_position, is_blank, lemma_first_position, lemma_first_position_unique, same_text};

verus! {

broadcast use lemma_views_push;

/// OpenAI-compatible function tool definition.
#[derive(Debug, PartialEq, Eq)]
pub struct ToolDefinition {
    /// Tool type, normally `function`.
    pub kind: String,
    /// Function metadata exposed to the model.
    pub function: FunctionToolDefinition,
}

/// Function metadata exposed in a [`ToolDefinition`].
#[derive(Debug, PartialEq, Eq)]
pub struct FunctionToolDefinition {
    /// Function name the model must call.
    pub name: String,
    /// Human-readable tool description.
    pub description: String,
    /// JSON schema for tool arguments.
    pub parameters: JsonText,
}

/// The model of a [`ToolDefinition`].
pub struct DefinitionView {
    pub kind: Seq<char>,
    pub name: Seq<char>,
    pub description: Seq<char>,
    pub parameters: JsonView,
}

impl View for ToolDefinition {
    type V = DefinitionView;

    open spec fn view(&self) -> DefinitionView {
        DefinitionView {
            kind: self.kind@,
            name: self.function.name@,
            description: self.function.description@,
            parameters: self.function.parameters@,
        }
    }
}

impl Duplicate for ToolDefinition {
    fn duplicate(&self) -> (copy: Self) {
        ToolDefinition {
            kind: self.kind.clone(),
            function: FunctionToolDefinition {
                name: self.function.name.clone(),
                description: self.function.description.clone(),
                parameters: self.function.parameters.duplicate(),
            },
        }
    }
}

impl Clone for ToolDefinition {
    fn clone(&self) -> (copy: Self)
        ensures
            copy@ == self@,
    {
        self.duplicate()
    }
}

impl ToolDefinition {
    /// Create a function tool definition from a name, description, and JSON schema parameters.
    pub fn new(
        name: impl TextSource,
        description: impl TextSource,
        parameters: JsonText,
    ) -> (definition: Self)
        ensures
            definition@ == (DefinitionView {
                kind: "function"@,
                name: name.text_view(),
                description: description.text_view(),
                parameters: parameters@,
            }),
    {
        ToolDefinition {
            kind: "function".to_owned(),
            function: FunctionToolDefinition {
                name: name.into_text(),
                description: description.into_text(),
                parameters,
            },
        }
    }

    /// Tool function name.
    pub fn name(&self) -> (name: &str)
        ensures
            name@ == self@.name,
    {
        self.function.name.as_str()
    }
}

// ---------------------------------------------------------------------------------------------
// Results
// ---------------------------------------------------------------------------------------------

/// Result of executing a tool call.
#[derive(Debug, PartialEq, Eq)]
pub struct ToolResult {
    /// Provider tool-call id this result answers.
    pub tool_call_id: String,
    /// Tool name.
    pub name: String,
    /// Tool output sent back to the model, including media parts from multimodal tools.
    pub content: MessageContent,
}

/// The model of a [`ToolResult`].
pub struct ResultView {
    pub tool_call_id: Seq<char>,
    pub name: Seq<char>,
    pub content: ContentView,
}

impl View for ToolResult {
    type V = ResultView;

    open spec fn view(&self) -> ResultView {
        ResultView {
            tool_call_id: self.tool_call_id@,
            name: self.name@,
            content: self.content@,
        }
    }
}

/// The text that tells a model what went wrong with its call.
pub open spec fn error_report(error: Seq<char>) -> Seq<char> {
    "Tool error: "@ + error + "\nPlease correct the tool call arguments and try again."@
}

/// The result that reports an error to the model.
pub open spec fn error_result(call: CallView, error: Seq<char>) -> ResultView {
    ResultView {
        tool_call_id: call.id,
        name: call.name,
        content: ContentView::Text(error_report(error)),
    }
}

/// The result of a call, from its output.
pub open spec fn result_of(call: CallView, content: ContentView) -> ResultView {
    ResultView { tool_call_id: call.id, name: call.name, content }
}

/// The message that hands a result to the model.
pub open spec fn result_message(result: ResultView) -> MessageView {
    tool_message(result.tool_call_id, result.name, result.content)
}

impl Duplicate for ToolResult {
    fn duplicate(&self) -> (copy: Self) {
        ToolResult {
            tool_call_id: self.tool_call_id.clone(),
            name: self.name.clone(),
            content: self.content.duplicate(),
        }
    }
}

impl Clone for ToolResult {
    fn clone(&self) -> (copy: Self)
        ensures
            copy@ == self@,
    {
        self.duplicate()
    }
}

impl ToolResult {
    /// The result of a call, from its output.
    pub fn new(call: &ToolCall, content: MessageContent) -> (result: Self)
        ensures
            result@ == result_of(call@, content@),
    {
        ToolResult { tool_call_id: call.id.clone(), name: call.function.name.clone(), content }
    }

    /// Convert an execution error into a tool result the model can correct.
    pub fn error(call: &ToolCall, error: impl TextSource) -> (result: Self)
        ensures
            result@ == error_result(call@, error.text_view()),
    {
        let mut text = "Tool error: ".to_owned();
        text.append(error.into_text().as_str());
        text.append("\nPlease correct the tool call arguments and try again.");
        ToolResult {
            tool_call_id: call.id.clone(),
            name: call.function.name.clone(),
            content: MessageContent::Text(text),
        }
    }

    /// Convert this result into a chat message with role `tool`.
    pub fn into_message(self) -> (message: ChatMessage)
        ensures
            message@ == result_message(self@),
    {
        let message = ChatMessage {
            role: MessageRole::Tool,
            content: self.content,
            annotations: Vec::new(),
            reasoning: None,
            reasoning_content: None,
            reasoning_details: None,
            tool_calls: Vec::new(),
            tool_call_id: Some(self.tool_call_id),
            name: Some(self.name),
        };
        assert(message@.annotations =~= seq![]);
        assert(message@.tool_calls =~= seq![]);
        message
    }
}

/// What a tool hands back.
#[derive(Debug, PartialEq, Eq)]
pub enum ToolOutput {
    /// A JSON value, which the model reads as text.
    Json(JsonText),
    /// Text or media, which the model gets as it is.
    Content(MessageContent),
}

/// The model of a [`ToolOutput`].
pub enum OutputView {
    Json(JsonView),
    Content(ContentView),
}

impl View for ToolOutput {
    type V = OutputView;

    open spec fn view(&self) -> OutputView {
        match self {
            ToolOutput::Json(json) => OutputView::Json(json@),
            ToolOutput::Content(content) => OutputView::Content(content@),
        }
    }
}

/// The content that an output stands for.
pub open spec fn output_content(output: OutputView) -> ContentView {
    match output {
        OutputView::Json(json) => ContentView::Text(plain_text(json)),
        OutputView::Content(content) => content,
    }
}

/// The text that a model reads for a tool's JSON output.
pub fn stringify_tool_output(output: JsonText) -> (text: String)
    ensures
        text@ == plain_text(output@),
{
    output.into_plain_text()
}

impl ToolOutput {
    /// The content for replay to the model. JSON, arrays of it included, always becomes text.
    pub fn into_content(self) -> (content: MessageContent)
        ensures
            content@ == output_content(self@),
    {
        match self {
            ToolOutput::Json(json) => MessageContent::Text(stringify_tool_output(json)),
            ToolOutput::Content(content) => content,
        }
    }
}

/// Ordinary JSON output is never taken for media.
pub proof fn json_output_is_text(json: JsonView)
    ensures
        output_content(OutputView::Json(json)) is Text,
        !output_content(OutputView::Json(json)).has_media(),
{
}

/// The arguments of a call: nothing at all stands for no arguments.
pub open spec fn arguments_of(text: Seq<char>) -> Result<JsonView, Seq<char>> {
    if blank(text) {
        Ok(JsonView { text: "{}"@, shape: ShapeView::Object })
    } else {
        parsed_json(text)
    }
}

/// Decode the arguments of a tool call.
pub fn parse_tool_arguments(arguments: &str) -> (r: Result<JsonText, Error>)
    ensures
        match arguments_of(arguments@) {
            Ok(json) => r matches Ok(value) && value@ == json,
            Err(message) => r matches Err(e) && e@ == ErrorView::Json(message),
        },
{
    if is_blank(arguments) {
        Ok(JsonText::empty_object())
    } else {
        JsonText::parse(arguments)
    }
}

// ---------------------------------------------------------------------------------------------
// Tools and registries
// ---------------------------------------------------------------------------------------------

/// A callable tool with its model-facing definition. How it runs is up to the handler.
pub struct Tool<H> {
    definition: ToolDefinition,
    handler: H,
}

impl<H> Tool<H> {
    /// The definition's model.
    pub closed spec fn definition_view(&self) -> DefinitionView {
        self.definition@
    }

    /// The handler.
    pub closed spec fn handler_view(&self) -> H {
        self.handler
    }

    /// Create a tool from a definition and a handler.
    pub fn new(definition: ToolDefinition, handler: H) -> (tool: Self)
        ensures
            tool.definition_view() == definition@,
            tool.handler_view() == handler,
    {
        Tool { definition, handler }
    }

    /// Model-facing definition.
    pub fn definition(&self) -> (definition: &ToolDefinition)
        ensures
            definition@ == self.definition_view(),
    {
        &self.definition
    }

    /// How the tool runs.
    pub fn handler(&self) -> (handler: &H)
        ensures
            *handler == self.handler_view(),
    {
        &self.handler
    }

    /// Tool function name.
    pub fn name(&self) -> (name: &str)
        ensures
            name@ == self.definition_view().name,
    {
        self.definition.name()
    }
}

/// Storage and dispatcher for tools available to an agent. Each name stands for one tool.
pub struct ToolRegistry<H> {
    tools: Vec<Tool<H>>,
}

/// The names of tools.
pub open spec fn tool_names<H>(tools: Seq<Tool<H>>) -> Seq<Seq<char>> {
    tools.map_values(|t: Tool<H>| t.definition_view().name)
}

/// The position of the tool with the name, or the end.
pub open spec fn tool_position<H>(tools: Seq<Tool<H>>, name: Seq<char>) -> int {
    first_position(tool_names(tools), name)
}

/// The tool with the name.
pub open spec fn tool_named<H>(tools: Seq<Tool<H>>, name: Seq<char>) -> Option<Tool<H>> {
    let k = tool_position(tools, name);
    if k < tools.len() {
        Some(tools[k])
    } else {
        None
    }
}

/// The tools with `tool` among them: in the place of the one with its name, or at the end.
pub open spec fn with_tool<H>(tools: Seq<Tool<H>>, tool: Tool<H>) -> Seq<Tool<H>> {
    let k = tool_position(tools, tool.definition_view().name);
    if k < tools.len() {
        tools.update(k, tool)
    } else {
        tools.push(tool)
    }
}

impl<H> View for ToolRegistry<H> {
    type V = Seq<Tool<H>>;

    closed spec fn view(&self) -> Seq<Tool<H>> {
        self.tools@
    }
}

impl<H> ToolRegistry<H> {
    /// No two tools have the same name.
    pub open spec fn wf(&self) -> bool {
        tool_names(self@).no_duplicates()
    }

    fn find(&self, name: &str) -> (r: Option<usize>)
        ensures
            match r {
                Some(k) => k < self@.len() && k == tool_position(self@, name@),
                None => tool_position(self@, name@) == self@.len(),
            },
    {
        let ghost names = tool_names(self@);
        let mut k: usize = 0;
        while k < self.tools.len()
            invariant
                k <= self.tools@.len(),
                self@ == self.tools@,
                names == tool_names(self@),
                forall|i: int| 0 <= i < k ==> names[i] != name@,
            decreases self.tools@.len() - k,
        {
            if same_text(self.tools[k].name(), name) {
                proof {
                    assert(names[k as int] == name@);
                    lemma_first_position_unique(names, name@, k as int);
                }
                return Some(k);
            }
            k += 1;
        }
        proof {
            lemma_first_position_unique(names, name@, k as int);
        }
        None
    }

    /// Create an empty registry.
    pub fn new() -> (registry: Self)
        ensures
            registry@ == Seq::<Tool<H>>::empty(),
            registry.wf(),
    {
        ToolRegistry { tools: Vec::new() }
    }

    /// Insert or replace a tool by name, and return the tool it replaces.
    pub fn insert(&mut self, tool: Tool<H>) -> (r: Option<Tool<H>>)
        requires
            old(self).wf(),
        ensures
            final(self)@ == with_tool(old(self)@, tool),
            r == tool_named(old(self)@, tool.definition_view().name),
            final(self).wf(),
    {
        let ghost before = self@;
        proof {
            inserting_keeps_names_unique(before, tool);
            lemma_first_position(tool_names(before), tool.definition_view().name);
        }
        match self.find(tool.name()) {
            Some(k) => {
                self.tools.push(tool);
                let replaced = self.tools.swap_remove(k);
                proof {
                    assert(self.tools@ =~= before.update(k as int, tool));
                }
                Some(replaced)
            },
            None => {
                self.tools.push(tool);
                None
            },
        }
    }

    /// Builder-style insertion.
    pub fn with_tool(self, tool: Tool<H>) -> (registry: Self)
        requires
            self.wf(),
        ensures
            registry@ == with_tool(self@, tool),
            registry.wf(),
    {
        let mut registry = self;
        let _ = registry.insert(tool);
        registry
    }

    /// Look up a tool by name.
    pub fn get(&self, name: &str) -> (r: Option<&Tool<H>>)
        ensures
            match r {
                Some(tool) => tool_named(self@, name@) == Some(*tool),
                None => tool_named(self@, name@) is None,
            },
    {
        match self.find(name) {
            Some(k) => Some(&self.tools[k]),
            None => None,
        }
    }

    /// Definitions to send to a model.
    pub fn definitions(&self) -> (definitions: Vec<ToolDefinition>)
        ensures
            views(definitions@) == definition_views(self@),
    {
        let ghost all = definition_views(self@);
        let mut definitions: Vec<ToolDefinition> = Vec::new();
        let mut i: usize = 0;
        while i < self.tools.len()
            invariant
                i <= self.tools@.len(),
                self@ == self.tools@,
                all == definition_views(self@),
                views(definitions@) =~= all.take(i as int),
            decreases self.tools@.len() - i,
        {
            definitions.push(self.tools[i].definition().duplicate());
            proof {
                lemma_take_push(all, i as int);
            }
            i += 1;
        }
        assert(all.take(i as int) =~= all);
        definitions
    }

    /// The tool and the decoded arguments of a call, or why it cannot be made.
    pub fn prepare_call(&self, call: &ToolCall) -> (r: Result<(&Tool<H>, JsonText), Error>)
        ensures
            match tool_named(self@, call@.name) {
                None => r matches Err(e) && e@ == ErrorView::UnknownTool(call@.name),
                Some(tool) => match arguments_of(call@.arguments) {
                    Err(message) => r matches Err(e) && e@ == ErrorView::Json(message),
                    Ok(json) => r matches Ok((t, arguments)) && *t == tool && arguments@ == json,
                },
            },
    {
        let tool = match self.get(call.function.name.as_str()) {
            Some(tool) => tool,
            None => return Err(Error::UnknownTool(call.function.name.clone())),
        };
        match parse_tool_arguments(call.function.arguments.as_str()) {
            Ok(arguments) => Ok((tool, arguments)),
            Err(error) => Err(error),
        }
    }
}

/// The definitions of tools.
pub open spec fn definition_views<H>(tools: Seq<Tool<H>>) -> Seq<DefinitionView> {
    tools.map_values(|t: Tool<H>| t.definition_view())
}

/// The outcome of a call, from what its tool handed back.
pub fn finish_call(call: &ToolCall, output: Result<ToolOutput, Error>) -> (r: Result<
    ToolResult,
    Error,
>)
    ensures
        match output {
            Ok(output) => r matches Ok(result) && result@ == result_of(
                call@,
                output_content(output@),
            ),
            Err(error) => r matches Err(e) && e@ == error@,
        },
{
    match output {
        Ok(output) => Ok(ToolResult::new(call, output.into_content())),
        Err(error) => Err(error),
    }
}

/// What a model is told of a call: its result, or its error.
pub open spec fn reported(call: CallView, outcome: Result<ResultView, ErrorView>) -> ResultView {
    match outcome {
        Ok(result) => result,
        Err(error) => error_result(call, error.message()),
    }
}

/// Report a call to the model: its result, or its error.
pub fn report_call(call: &ToolCall, outcome: Result<ToolResult, Error>) -> (result: ToolResult)
    ensures
        result@ == reported(call@, crate::common::outcome(outcome)),
{
    match outcome {
        Ok(result) => result,
        Err(error) => ToolResult::error(call, error.to_string()),
    }
}

// ---------------------------------------------------------------------------------------------
// Laws
// ---------------------------------------------------------------------------------------------

/// A registry gives back the tool that was last inserted under a name, and inserting one tool
/// touches no other.
pub proof fn lookup_finds_the_last_insertion<H>(
    tools: Seq<Tool<H>>,
    tool: Tool<H>,
    name: Seq<char>,
)
    ensures
        tool_named(with_tool(tools, tool), tool.definition_view().name) == Some(tool),
        name != tool.definition_view().name ==> tool_named(with_tool(tools, tool), name)
            == tool_named(tools, name),
{
    let own = tool.definition_view().name;
    let names = tool_names(tools);
    let after = with_tool(tools, tool);
    let names_after = tool_names(after);
    lemma_first_position(names, own);
    let k = tool_position(tools, own);
    if k < tools.len() {
        assert(names_after =~= names);
        assert(names_after[k] == own);
        lemma_first_position_unique(names_after, own, k);
        if name != own {
            lemma_first_position(names, name);
        }
    } else {
        assert(names_after =~= names.push(own));
        lemma_first_position_unique(names_after, own, k);
        if name != own {
            lemma_first_position(names, name);
            let m = first_position(names, name);
            if m < names.len() {
                lemma_first_position_unique(names_after, name, m);
            } else {
                lemma_first_position_unique(names_after, name, m + 1);
            }
        }
    }
}

/// Inserting never gives two tools one name.
pub proof fn inserting_keeps_names_unique<H>(tools: Seq<Tool<H>>, tool: Tool<H>)
    requires
        tool_names(tools).no_duplicates(),
    ensures
        tool_names(with_tool(tools, tool)).no_duplicates(),
{
    let own = tool.definition_view().name;
    let names = tool_names(tools);
    lemma_first_position(names, own);
    let k = tool_position(tools, own);
    let after = tool_names(with_tool(tools, tool));
    if k < tools.len() {
        assert(after =~= names);
    } else {
        assert(after =~= names.push(own));
    }
}

} // verus!
