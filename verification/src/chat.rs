//! Chat-completions request, response, message, reasoning, and tool-call types.

use vstd::prelude::*;

use crate::common::{duplicate_all, duplicate_option, view_of, views, Duplicate, TextSource};
use crate::content::{ContentPart, ContentView, MessageContent, PartView};
use crate::error::{Error, ErrorView};
use crate::json::{JsonText, JsonView};
use crate::text::{contains_text, occurs};
use crate::tools::{DefinitionView, ToolDefinition};

verus! {

// ---------------------------------------------------------------------------------------------
// Types
// ---------------------------------------------------------------------------------------------

/// Who a message is from.
#[derive(Clone, Copy, Debug, PartialEq, Eq, Structural)]
pub enum MessageRole {
    System,
    User,
    Assistant,
    Tool,
}

/// What a provider returned of a model's reasoning, kept for replay.
#[derive(Debug, PartialEq, Eq)]
pub struct ReasoningPayload {
    pub reasoning: Option<JsonText>,
    pub reasoning_content: Option<String>,
    pub reasoning_details: Option<JsonText>,
}

/// One message of a conversation.
#[derive(Debug, PartialEq, Eq)]
pub struct ChatMessage {
    pub role: MessageRole,
    pub content: MessageContent,
    /// Provider annotations, including parsed PDF content reused on subsequent requests.
    pub annotations: Vec<JsonText>,
    pub reasoning: Option<JsonText>,
    pub reasoning_content: Option<String>,
    pub reasoning_details: Option<JsonText>,
    pub tool_calls: Vec<ToolCall>,
    pub tool_call_id: Option<String>,
    pub name: Option<String>,
}

/// A model's request to run a tool.
#[derive(Debug, PartialEq, Eq)]
pub struct ToolCall {
    pub id: String,
    pub kind: String,
    pub function: ToolCallFunction,
}

/// The function of a [`ToolCall`], with its arguments as JSON text.
#[derive(Debug, PartialEq, Eq)]
pub struct ToolCallFunction {
    pub name: String,
    pub arguments: String,
}

/// Provider-specific reasoning configuration.
#[derive(Debug, PartialEq, Eq)]
pub struct ReasoningConfig {
    pub enabled: Option<bool>,
    pub exclude: Option<bool>,
    pub effort: Option<String>,
    pub max_tokens: Option<u32>,
}

/// A chat-completions request.
#[derive(Debug, PartialEq, Eq)]
pub struct ChatRequest {
    pub model: String,
    pub messages: Vec<ChatMessage>,
    pub tools: Vec<ToolDefinition>,
    pub tool_choice: Option<JsonText>,
    /// The bits of the sampling temperature, a single-precision float.
    pub temperature_bits: Option<u32>,
    pub max_tokens: Option<u32>,
    pub reasoning: Option<ReasoningConfig>,
    pub response_format: Option<JsonText>,
}

/// A parsed chat-completions response.
#[derive(Debug, PartialEq, Eq)]
pub struct ChatResponse {
    pub message: ChatMessage,
    pub reasoning: Option<ReasoningPayload>,
    pub raw: JsonText,
}

/// The choices of a response body.
#[derive(Debug, PartialEq, Eq)]
pub struct ChatCompletionEnvelope {
    pub choices: Vec<ChatCompletionChoice>,
}

/// One choice of a response body.
#[derive(Debug, PartialEq, Eq)]
pub struct ChatCompletionChoice {
    pub message: AssistantWireMessage,
}

/// An assistant message as a provider sends it.
#[derive(Debug, PartialEq, Eq)]
pub struct AssistantWireMessage {
    pub content: Option<MessageContent>,
    pub annotations: Vec<JsonText>,
    pub reasoning: Option<JsonText>,
    pub reasoning_content: Option<String>,
    pub reasoning_details: Option<JsonText>,
    pub tool_calls: Vec<ToolCall>,
}

// ---------------------------------------------------------------------------------------------
// Models
// ---------------------------------------------------------------------------------------------

/// The model of a [`ToolCall`].
pub struct CallView {
    pub id: Seq<char>,
    pub kind: Seq<char>,
    pub name: Seq<char>,
    pub arguments: Seq<char>,
}

/// The model of a [`ReasoningPayload`].
pub struct ReasoningView {
    pub reasoning: Option<JsonView>,
    pub reasoning_content: Option<Seq<char>>,
    pub reasoning_details: Option<JsonView>,
}

/// The model of a [`ChatMessage`].
pub struct MessageView {
    pub role: MessageRole,
    pub content: ContentView,
    pub annotations: Seq<JsonView>,
    pub reasoning: ReasoningView,
    pub tool_calls: Seq<CallView>,
    pub tool_call_id: Option<Seq<char>>,
    pub name: Option<Seq<char>>,
}

/// The model of a [`ReasoningConfig`].
pub struct ReasoningConfigView {
    pub enabled: Option<bool>,
    pub exclude: Option<bool>,
    pub effort: Option<Seq<char>>,
    pub max_tokens: Option<u32>,
}

/// The model of a [`ChatRequest`].
pub struct RequestView {
    pub model: Seq<char>,
    pub messages: Seq<MessageView>,
    pub tools: Seq<DefinitionView>,
    pub tool_choice: Option<JsonView>,
    pub temperature_bits: Option<u32>,
    pub max_tokens: Option<u32>,
    pub reasoning: Option<ReasoningConfigView>,
    pub response_format: Option<JsonView>,
}

/// The model of a [`ChatResponse`].
pub struct ResponseView {
    pub message: MessageView,
    pub reasoning: Option<ReasoningView>,
    pub raw: JsonView,
}

/// The model of an [`AssistantWireMessage`].
pub struct WireView {
    pub content: Option<ContentView>,
    pub annotations: Seq<JsonView>,
    pub reasoning: ReasoningView,
    pub tool_calls: Seq<CallView>,
}

impl View for ToolCall {
    type V = CallView;

    open spec fn view(&self) -> CallView {
        CallView {
            id: self.id@,
            kind: self.kind@,
            name: self.function.name@,
            arguments: self.function.arguments@,
        }
    }
}

impl View for ReasoningPayload {
    type V = ReasoningView;

    open spec fn view(&self) -> ReasoningView {
        ReasoningView {
            reasoning: view_of(self.reasoning),
            reasoning_content: view_of(self.reasoning_content),
            reasoning_details: view_of(self.reasoning_details),
        }
    }
}

impl View for ChatMessage {
    type V = MessageView;

    open spec fn view(&self) -> MessageView {
        MessageView {
            role: self.role,
            content: self.content@,
            annotations: views(self.annotations@),
            reasoning: ReasoningView {
                reasoning: view_of(self.reasoning),
                reasoning_content: view_of(self.reasoning_content),
                reasoning_details: view_of(self.reasoning_details),
            },
            tool_calls: views(self.tool_calls@),
            tool_call_id: view_of(self.tool_call_id),
            name: view_of(self.name),
        }
    }
}

impl View for ReasoningConfig {
    type V = ReasoningConfigView;

    open spec fn view(&self) -> ReasoningConfigView {
        ReasoningConfigView {
            enabled: self.enabled,
            exclude: self.exclude,
            effort: view_of(self.effort),
            max_tokens: self.max_tokens,
        }
    }
}

impl View for ChatRequest {
    type V = RequestView;

    open spec fn view(&self) -> RequestView {
        RequestView {
            model: self.model@,
            messages: views(self.messages@),
            tools: views(self.tools@),
            tool_choice: view_of(self.tool_choice),
            temperature_bits: self.temperature_bits,
            max_tokens: self.max_tokens,
            reasoning: view_of(self.reasoning),
            response_format: view_of(self.response_format),
        }
    }
}

impl View for ChatResponse {
    type V = ResponseView;

    open spec fn view(&self) -> ResponseView {
        ResponseView {
            message: self.message@,
            reasoning: view_of(self.reasoning),
            raw: self.raw@,
        }
    }
}

impl View for AssistantWireMessage {
    type V = WireView;

    open spec fn view(&self) -> WireView {
        WireView {
            content: view_of(self.content),
            annotations: views(self.annotations@),
            reasoning: ReasoningView {
                reasoning: view_of(self.reasoning),
                reasoning_content: view_of(self.reasoning_content),
                reasoning_details: view_of(self.reasoning_details),
            },
            tool_calls: views(self.tool_calls@),
        }
    }
}

impl View for ChatCompletionChoice {
    type V = WireView;

    open spec fn view(&self) -> WireView {
        self.message@
    }
}

/// No reasoning at all.
pub open spec fn no_reasoning() -> ReasoningView {
    ReasoningView { reasoning: None, reasoning_content: None, reasoning_details: None }
}

/// `reasoning`, or `None` where it holds nothing.
pub open spec fn some_reasoning(reasoning: ReasoningView) -> Option<ReasoningView> {
    if reasoning == no_reasoning() {
        None
    } else {
        Some(reasoning)
    }
}

/// A message with a role and content and nothing else.
pub open spec fn plain_message(role: MessageRole, content: ContentView) -> MessageView {
    MessageView {
        role,
        content,
        annotations: seq![],
        reasoning: no_reasoning(),
        tool_calls: seq![],
        tool_call_id: None,
        name: None,
    }
}

/// A tool's answer to the call `tool_call_id`.
pub open spec fn tool_message(
    tool_call_id: Seq<char>,
    name: Seq<char>,
    content: ContentView,
) -> MessageView {
    MessageView {
        tool_call_id: Some(tool_call_id),
        name: Some(name),
        ..plain_message(MessageRole::Tool, content)
    }
}

/// Whether `text` holds tool-call markup that a model wrote out as ordinary text.
pub open spec fn leaked_markup(text: Seq<char>) -> bool {
    occurs(text, "DSML"@) && (occurs(text, "tool_calls"@) || occurs(text, "invoke"@))
}

/// `content` without leaked tool-call markup.
pub open spec fn without_markup(content: ContentView) -> ContentView {
    match content {
        ContentView::Text(_) => ContentView::Text(seq![]),
        ContentView::Parts(parts) => ContentView::Parts(
            parts.filter(|p: PartView| !(p is Text && leaked_markup(p->Text_0))),
        ),
    }
}

/// The content of a wire message: none stands for the empty text.
pub open spec fn wire_content(wire: WireView) -> ContentView {
    match wire.content {
        Some(content) => content,
        None => ContentView::Text(seq![]),
    }
}

/// The message that a wire message stands for: structured tool calls take precedence over the
/// same calls leaked into the text.
pub open spec fn received(wire: WireView) -> MessageView {
    let content = wire_content(wire);
    MessageView {
        role: MessageRole::Assistant,
        content: if wire.tool_calls.len() > 0 && leaked_markup(content.text()) {
            without_markup(content)
        } else {
            content
        },
        annotations: wire.annotations,
        reasoning: wire.reasoning,
        tool_calls: wire.tool_calls,
        tool_call_id: None,
        name: None,
    }
}

/// The response that a message and its raw body make.
pub open spec fn response_of(message: MessageView, raw: JsonView) -> ResponseView {
    ResponseView { message, reasoning: some_reasoning(message.reasoning), raw }
}

// ---------------------------------------------------------------------------------------------
// Copies and defaults
// ---------------------------------------------------------------------------------------------

impl Duplicate for ToolCall {
    fn duplicate(&self) -> (copy: Self) {
        ToolCall {
            id: self.id.clone(),
            kind: self.kind.clone(),
            function: ToolCallFunction {
                name: self.function.name.clone(),
                arguments: self.function.arguments.clone(),
            },
        }
    }
}

impl Clone for ToolCall {
    fn clone(&self) -> (copy: Self)
        ensures
            copy@ == self@,
    {
        self.duplicate()
    }
}

impl Default for ToolCall {
    fn default() -> (call: Self)
        ensures
            call@ == (CallView { id: seq![], kind: seq![], name: seq![], arguments: seq![] }),
    {
        let call = ToolCall {
            id: String::new(),
            kind: String::new(),
            function: ToolCallFunction { name: String::new(), arguments: String::new() },
        };
        assert(call@.id =~= seq![] && call@.kind =~= seq![] && call@.name =~= seq![]
            && call@.arguments =~= seq![]);
        call
    }
}

impl Duplicate for ReasoningPayload {
    fn duplicate(&self) -> (copy: Self) {
        ReasoningPayload {
            reasoning: duplicate_option(&self.reasoning),
            reasoning_content: duplicate_option(&self.reasoning_content),
            reasoning_details: duplicate_option(&self.reasoning_details),
        }
    }
}

impl Clone for ReasoningPayload {
    fn clone(&self) -> (copy: Self)
        ensures
            copy@ == self@,
    {
        self.duplicate()
    }
}

impl Default for ReasoningPayload {
    fn default() -> (payload: Self)
        ensures
            payload@ == no_reasoning(),
    {
        ReasoningPayload { reasoning: None, reasoning_content: None, reasoning_details: None }
    }
}

impl Duplicate for ChatMessage {
    fn duplicate(&self) -> (copy: Self) {
        ChatMessage {
            role: self.role,
            content: self.content.duplicate(),
            annotations: duplicate_all(&self.annotations),
            reasoning: duplicate_option(&self.reasoning),
            reasoning_content: duplicate_option(&self.reasoning_content),
            reasoning_details: duplicate_option(&self.reasoning_details),
            tool_calls: duplicate_all(&self.tool_calls),
            tool_call_id: duplicate_option(&self.tool_call_id),
            name: duplicate_option(&self.name),
        }
    }
}

impl Clone for ChatMessage {
    fn clone(&self) -> (copy: Self)
        ensures
            copy@ == self@,
    {
        self.duplicate()
    }
}

impl Duplicate for ReasoningConfig {
    fn duplicate(&self) -> (copy: Self) {
        ReasoningConfig {
            enabled: self.enabled,
            exclude: self.exclude,
            effort: duplicate_option(&self.effort),
            max_tokens: self.max_tokens,
        }
    }
}

impl Clone for ReasoningConfig {
    fn clone(&self) -> (copy: Self)
        ensures
            copy@ == self@,
    {
        self.duplicate()
    }
}

impl Default for ReasoningConfig {
    fn default() -> (config: Self)
        ensures
            config@ == (ReasoningConfigView {
                enabled: None,
                exclude: None,
                effort: None,
                max_tokens: None,
            }),
    {
        ReasoningConfig { enabled: None, exclude: None, effort: None, max_tokens: None }
    }
}

impl Duplicate for ChatRequest {
    fn duplicate(&self) -> (copy: Self) {
        ChatRequest {
            model: self.model.clone(),
            messages: duplicate_all(&self.messages),
            tools: duplicate_all(&self.tools),
            tool_choice: duplicate_option(&self.tool_choice),
            temperature_bits: self.temperature_bits,
            max_tokens: self.max_tokens,
            reasoning: duplicate_option(&self.reasoning),
            response_format: duplicate_option(&self.response_format),
        }
    }
}

impl Clone for ChatRequest {
    fn clone(&self) -> (copy: Self)
        ensures
            copy@ == self@,
    {
        self.duplicate()
    }
}

impl Duplicate for ChatResponse {
    fn duplicate(&self) -> (copy: Self) {
        ChatResponse {
            message: self.message.duplicate(),
            reasoning: duplicate_option(&self.reasoning),
            raw: self.raw.duplicate(),
        }
    }
}

impl Clone for ChatResponse {
    fn clone(&self) -> (copy: Self)
        ensures
            copy@ == self@,
    {
        self.duplicate()
    }
}

// ---------------------------------------------------------------------------------------------
// Reasoning
// ---------------------------------------------------------------------------------------------

impl ReasoningPayload {
    /// Whether the payload holds nothing.
    pub fn is_empty(&self) -> (b: bool)
        ensures
            b == (self@ == no_reasoning()),
    {
        self.reasoning.is_none() && self.reasoning_content.is_none()
            && self.reasoning_details.is_none()
    }

    /// The payload, or `None` where it holds nothing.
    pub fn into_option(self) -> (r: Option<Self>)
        ensures
            view_of(r) == some_reasoning(self@),
    {
        if self.is_empty() {
            None
        } else {
            Some(self)
        }
    }
}

impl ReasoningConfig {
    /// Ask OpenRouter to reason and to return what it reasoned.
    pub fn openrouter_enabled() -> (config: Self)
        ensures
            config@ == (ReasoningConfigView {
                enabled: Some(true),
                exclude: Some(false),
                effort: None,
                max_tokens: None,
            }),
    {
        ReasoningConfig { enabled: Some(true), exclude: Some(false), effort: None, max_tokens: None }
    }
}

// ---------------------------------------------------------------------------------------------
// Messages
// ---------------------------------------------------------------------------------------------

fn message_with(role: MessageRole, content: MessageContent) -> (message: ChatMessage)
    ensures
        message@ == plain_message(role, content@),
        message.content == content,
{
    let message = ChatMessage {
        role,
        content,
        annotations: Vec::new(),
        reasoning: None,
        reasoning_content: None,
        reasoning_details: None,
        tool_calls: Vec::new(),
        tool_call_id: None,
        name: None,
    };
    assert(message@.annotations =~= seq![]);
    assert(message@.tool_calls =~= seq![]);
    message
}

impl ChatMessage {
    /// A message with a role and content.
    pub fn new<C: Into<MessageContent>>(role: MessageRole, content: C) -> (message: Self)
        ensures
            call_ensures(C::into, (content,), message.content),
            message@ == plain_message(role, message.content@),
    {
        message_with(role, content.into())
    }

    /// A system message.
    pub fn system(content: impl TextSource) -> (message: Self)
        ensures
            message@ == plain_message(
                MessageRole::System,
                ContentView::Text(content.text_view()),
            ),
    {
        message_with(MessageRole::System, MessageContent::Text(content.into_text()))
    }

    /// A user message.
    pub fn user<C: Into<MessageContent>>(content: C) -> (message: Self)
        ensures
            call_ensures(C::into, (content,), message.content),
            message@ == plain_message(MessageRole::User, message.content@),
    {
        message_with(MessageRole::User, content.into())
    }

    /// An assistant message.
    pub fn assistant<C: Into<MessageContent>>(content: C) -> (message: Self)
        ensures
            call_ensures(C::into, (content,), message.content),
            message@ == plain_message(MessageRole::Assistant, message.content@),
    {
        message_with(MessageRole::Assistant, content.into())
    }

    /// This message with the given reasoning in place of its own.
    pub fn with_reasoning(self, reasoning: ReasoningPayload) -> (message: Self)
        ensures
            message@ == (MessageView { reasoning: reasoning@, ..self@ }),
    {
        let mut message = self;
        message.reasoning = reasoning.reasoning;
        message.reasoning_content = reasoning.reasoning_content;
        message.reasoning_details = reasoning.reasoning_details;
        message
    }

    /// The reasoning of this message, where it holds any.
    pub fn reasoning_payload(&self) -> (r: Option<ReasoningPayload>)
        ensures
            view_of(r) == some_reasoning(self@.reasoning),
    {
        let payload = ReasoningPayload {
            reasoning: duplicate_option(&self.reasoning),
            reasoning_content: duplicate_option(&self.reasoning_content),
            reasoning_details: duplicate_option(&self.reasoning_details),
        };
        payload.into_option()
    }

    /// A copy of this message without reasoning.
    pub fn without_reasoning(&self) -> (message: Self)
        ensures
            message@ == (MessageView { reasoning: no_reasoning(), ..self@ }),
    {
        let mut message = self.duplicate();
        message.reasoning = None;
        message.reasoning_content = None;
        message.reasoning_details = None;
        message
    }

    /// This message with the given tool calls in place of its own.
    pub fn with_tool_calls(self, tool_calls: Vec<ToolCall>) -> (message: Self)
        ensures
            message@ == (MessageView { tool_calls: views(tool_calls@), ..self@ }),
    {
        let mut message = self;
        message.tool_calls = tool_calls;
        message
    }

    /// A tool's answer to a tool call.
    pub fn tool_result<C: Into<MessageContent>>(
        tool_call_id: impl TextSource,
        name: impl TextSource,
        content: C,
    ) -> (message: Self)
        ensures
            call_ensures(C::into, (content,), message.content),
            message@ == tool_message(
                tool_call_id.text_view(),
                name.text_view(),
                message.content@,
            ),
    {
        let mut message = message_with(MessageRole::Tool, content.into());
        message.tool_call_id = Some(tool_call_id.into_text());
        message.name = Some(name.into_text());
        message
    }
}

/// Whether `content` holds tool-call markup that a model wrote out as ordinary text.
fn contains_leaked_tool_markup(content: &str) -> (b: bool)
    ensures
        b == leaked_markup(content@),
{
    contains_text(content, "DSML") && (contains_text(content, "tool_calls") || contains_text(
        content,
        "invoke",
    ))
}

fn drop_markup(content: MessageContent) -> (r: MessageContent)
    ensures
        r@ == without_markup(content@),
{
    match content {
        MessageContent::Text(_) => {
            let r = MessageContent::Text(String::new());
            assert(r@->Text_0 =~= seq![]);
            r
        },
        MessageContent::Parts(parts) => {
            let ghost keep = |p: PartView| !(p is Text && leaked_markup(p->Text_0));
            let mut kept: Vec<ContentPart> = Vec::new();
            let mut i: usize = 0;
            proof {
                reveal(Seq::filter);
                assert(views(kept@) =~= views(parts@).take(0).filter(keep));
            }
            while i < parts.len()
                invariant
                    i <= parts@.len(),
                    keep == (|p: PartView| !(p is Text && leaked_markup(p->Text_0))),
                    views(kept@) == views(parts@).take(i as int).filter(keep),
                decreases parts@.len() - i,
            {
                let leaked = match &parts[i] {
                    ContentPart::Text { text } => contains_leaked_tool_markup(text.as_str()),
                    _ => false,
                };
                let ghost before = views(kept@);
                let part = parts[i].duplicate();
                proof {
                    reveal(Seq::filter);
                    let now = views(parts@).take(i + 1);
                    assert(now.drop_last() =~= views(parts@).take(i as int));
                    assert(now.last() == part@);
                }
                if !leaked {
                    kept.push(part);
                    assert(views(kept@) =~= before.push(part@));
                }
                i += 1;
            }
            assert(views(parts@).take(i as int) =~= views(parts@));
            MessageContent::Parts(kept)
        },
    }
}

impl AssistantWireMessage {
    /// The message that this wire message stands for.
    pub fn into_chat_message(self) -> (message: ChatMessage)
        ensures
            message@ == received(self@),
    {
        let mut content = match self.content {
            Some(content) => content,
            None => {
                let content = MessageContent::Text(String::new());
                assert(content@->Text_0 =~= seq![]);
                content
            },
        };
        if self.tool_calls.len() > 0 && contains_leaked_tool_markup(content.text().as_str()) {
            content = drop_markup(content);
        }
        ChatMessage {
            role: MessageRole::Assistant,
            content,
            annotations: self.annotations,
            reasoning: self.reasoning,
            reasoning_content: self.reasoning_content,
            reasoning_details: self.reasoning_details,
            tool_calls: self.tool_calls,
            tool_call_id: None,
            name: None,
        }
    }
}

impl ChatCompletionEnvelope {
    /// The response that this body stands for: its first choice.
    pub fn into_response(self, raw: JsonText) -> (r: Result<ChatResponse, Error>)
        ensures
            match r {
                Ok(response) => self.choices@.len() > 0 && response@ == response_of(
                    received(self.choices@[0]@),
                    raw@,
                ),
                Err(e) => self.choices@.len() == 0 && e@ == ErrorView::MissingAssistantMessage,
            },
    {
        let mut choices = self.choices;
        if choices.len() == 0 {
            return Err(Error::MissingAssistantMessage);
        }
        let choice = choices.swap_remove(0);
        let message = choice.message.into_chat_message();
        let reasoning = message.reasoning_payload();
        Ok(ChatResponse { message, reasoning, raw })
    }
}

// ---------------------------------------------------------------------------------------------
// Laws
// ---------------------------------------------------------------------------------------------

/// Content is kept unless a message has structured tool calls: text alone is never taken for
/// leaked markup.
pub proof fn content_without_tool_calls_is_kept(wire: WireView)
    requires
        wire.tool_calls.len() == 0,
    ensures
        received(wire).content == wire_content(wire),
{
}

/// Structured tool calls, reasoning and annotations always survive receipt.
pub proof fn receipt_keeps_structure(wire: WireView)
    ensures
        received(wire).tool_calls == wire.tool_calls,
        received(wire).reasoning == wire.reasoning,
        received(wire).annotations == wire.annotations,
{
}

} // verus!
