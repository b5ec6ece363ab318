//! Setting up an agent from plain settings, and guarding its history.

use vstd::prelude::*;

use crate::chat::{ChatMessage, ReasoningConfig, ReasoningConfigView};
use crate::common::{outcome, view_of, views, Duplicate};
use crate::error::ErrorView;
use crate::json::JsonView;
use crate::provider::{ApiKeyRef, ConfigView, KeyView, ProviderConfig, ProviderKind};
use crate::provider::{deepseek_segments, llama_segments, openrouter_reasoning, preset};
use crate::session::model::{default_config, history, pushed, SessionConfig, SessionView};
use crate::session::{configured, system_prompt};
use crate::session::ChatSession;
use crate::state::{AgentState, RootsView};
use crate::text::{concat2, same_text};
use crate::tools::builtin::{
    apply_patch_tool, create_file_tool, delete_file_tool, read_tool, ripgrep_tool, BuiltinKind,
    BuiltinSchemas, BuiltinTool, BuiltinView,
};
use crate::tools::builtin::builtin_definition;
use crate::tools::compact::{compaction_tool, is_compaction_tool};
use crate::tools::{Tool, ToolDefinition, ToolRegistry};
use crate::tools::{tool_named, with_tool};
use crate::url_text::{below, parsed_url, scheme_of_url};
use crate::url_text::{parse_url, scheme};

verus! {

/// The settings of an agent.
#[derive(Debug, PartialEq, Eq)]
pub struct AgentSettings {
    /// `openrouter`, `deepseek`, `llama_cpp`, or `compatible`.
    pub provider: String,
    /// Model ID sent with each request.
    pub model: String,
    /// Server root of llama.cpp or DeepSeek, or chat-completions URL of a compatible provider.
    pub endpoint: Option<String>,
    /// Whether DeepSeek thinks, unless its API decides.
    pub thinking: Option<bool>,
    /// How hard DeepSeek thinks, unless its API decides: `low`, `high`, `max`, or `none`, which
    /// disables thinking.
    pub reasoning_effort: Option<String>,
    /// API key, unless one is stored.
    pub api_key: Option<String>,
    /// Under which id an API key is stored.
    pub keyring_id: Option<String>,
    /// System prompt.
    pub system_prompt: String,
    /// Maximum tool-call rounds of a run.
    pub max_tool_rounds: usize,
    /// Whether the context is compacted.
    pub compaction: bool,
}

/// The model of [`AgentSettings`].
pub struct SettingsView {
    pub provider: Seq<char>,
    pub model: Seq<char>,
    pub endpoint: Option<Seq<char>>,
    pub thinking: Option<bool>,
    pub reasoning_effort: Option<Seq<char>>,
    pub api_key: Option<Seq<char>>,
    pub keyring_id: Option<Seq<char>>,
    pub system_prompt: Seq<char>,
    pub max_tool_rounds: usize,
    pub compaction: bool,
}

impl View for AgentSettings {
    type V = SettingsView;

    open spec fn view(&self) -> SettingsView {
        SettingsView {
            provider: self.provider@,
            model: self.model@,
            endpoint: view_of(self.endpoint),
            thinking: self.thinking,
            reasoning_effort: view_of(self.reasoning_effort),
            api_key: view_of(self.api_key),
            keyring_id: view_of(self.keyring_id),
            system_prompt: self.system_prompt@,
            max_tool_rounds: self.max_tool_rounds,
            compaction: self.compaction,
        }
    }
}

/// Why an agent refuses a request.
#[derive(Debug, PartialEq, Eq)]
pub enum AgentError {
    /// A value that it was given is wrong.
    Value(String),
    /// An operation failed, or another one is under way.
    Runtime(String),
}

/// The model of an [`AgentError`].
pub enum AgentErrorView {
    Value(Seq<char>),
    Runtime(Seq<char>),
}

impl View for AgentError {
    type V = AgentErrorView;

    open spec fn view(&self) -> AgentErrorView {
        match self {
            AgentError::Value(message) => AgentErrorView::Value(message@),
            AgentError::Runtime(message) => AgentErrorView::Runtime(message@),
        }
    }
}

fn value_error<T>(message: &str) -> (r: Result<T, AgentError>)
    ensures
        r is Err,
        r->Err_0@ == AgentErrorView::Value(message@),
{
    Err(AgentError::Value(message.to_owned()))
}

// ---------------------------------------------------------------------------------------------
// The provider
// ---------------------------------------------------------------------------------------------

/// A preset, or the failure of its URL.
pub open spec fn preset_or_failure(r: Result<ConfigView, ErrorView>) -> Result<
    ConfigView,
    AgentErrorView,
> {
    match r {
        Ok(config) => Ok(config),
        Err(e) => Err(AgentErrorView::Runtime(e.message())),
    }
}

/// The OpenRouter preset.
pub open spec fn openrouter_preset(model: Seq<char>) -> Result<ConfigView, ErrorView> {
    match parsed_url("https://openrouter.ai/api/v1/chat/completions"@) {
        Ok(url) => Ok(
            preset(
                "openrouter"@,
                ProviderKind::OpenRouter,
                url,
                KeyView::Keyring("openrouter"@),
                model,
                Some(openrouter_reasoning()),
            ),
        ),
        Err(message) => Err(ErrorView::Url(message)),
    }
}

/// The llama.cpp preset.
pub open spec fn llama_preset(base_url: Seq<char>, model: Seq<char>) -> Result<
    ConfigView,
    ErrorView,
> {
    match below(base_url, llama_segments()) {
        Ok(url) => Ok(
            preset("llama-cpp"@, ProviderKind::LlamaCpp, url, KeyView::NoKey, model, None),
        ),
        Err(error) => Err(error),
    }
}

/// Whether DeepSeek knows an effort that enables thinking.
pub open spec fn known_effort(effort: Seq<char>) -> bool {
    effort == "low"@ || effort == "high"@ || effort == "max"@
}

/// Reasoning that is switched on or off, or left to the API, with an effort or the API's.
pub open spec fn reasoning_with(enabled: Option<bool>, effort: Option<Seq<char>>) -> Option<
    ReasoningConfigView,
> {
    Some(ReasoningConfigView { enabled, exclude: None, effort, max_tokens: None })
}

/// What thinking options ask for, or why they are refused. Without options the API decides; the
/// effort `none` disables thinking.
pub open spec fn thinking_options(thinking: Option<bool>, effort: Option<Seq<char>>) -> Result<
    Option<ReasoningConfigView>,
    AgentErrorView,
> {
    match effort {
        None => match thinking {
            None => Ok(None),
            Some(enabled) => Ok(reasoning_with(Some(enabled), None)),
        },
        Some(effort) => if effort == "none"@ {
            if thinking == Some(true) {
                Err(AgentErrorView::Value("thinking and reasoning_effort contradict each other"@))
            } else {
                Ok(reasoning_with(Some(false), None))
            }
        } else if !known_effort(effort) {
            Err(AgentErrorView::Value("reasoning_effort must be low, high, max, or none"@))
        } else if thinking == Some(false) {
            Err(AgentErrorView::Value("thinking and reasoning_effort contradict each other"@))
        } else {
            Ok(reasoning_with(thinking, Some(effort)))
        },
    }
}

/// The root of DeepSeek's server.
pub open spec fn deepseek_root(endpoint: Option<Seq<char>>) -> Seq<char> {
    match endpoint {
        Some(endpoint) => endpoint,
        None => "https://api.deepseek.com"@,
    }
}

/// The DeepSeek preset below the root of a server, with the reasoning that was asked for.
pub open spec fn deepseek_preset(
    root: Seq<char>,
    model: Seq<char>,
    reasoning: Option<ReasoningConfigView>,
) -> Result<ConfigView, ErrorView> {
    match below(root, deepseek_segments()) {
        Ok(url) => Ok(
            preset(
                "deepseek"@,
                ProviderKind::OpenAiCompatible,
                url,
                KeyView::Keyring("deepseek"@),
                model,
                reasoning,
            ),
        ),
        Err(error) => Err(error),
    }
}

/// The provider that settings name, before its URL and key are looked at.
pub open spec fn base_provider(settings: SettingsView) -> Result<ConfigView, AgentErrorView> {
    if settings.provider == "openrouter"@ {
        preset_or_failure(openrouter_preset(settings.model))
    } else if settings.provider == "llama_cpp"@ {
        preset_or_failure(
            llama_preset(
                match settings.endpoint {
                    Some(endpoint) => endpoint,
                    None => "http://127.0.0.1:8080"@,
                },
                settings.model,
            ),
        )
    } else if settings.provider == "deepseek"@ {
        match thinking_options(settings.thinking, settings.reasoning_effort) {
            Err(e) => Err(e),
            Ok(reasoning) => preset_or_failure(
                deepseek_preset(deepseek_root(settings.endpoint), settings.model, reasoning),
            ),
        }
    } else if settings.provider == "compatible"@ {
        match openrouter_preset(settings.model) {
            Err(e) => Err(AgentErrorView::Runtime(e.message())),
            Ok(config) => match settings.endpoint {
                None => Err(AgentErrorView::Value("chat_completions_url is required"@)),
                Some(endpoint) => match parsed_url(endpoint) {
                    Err(_) => Err(AgentErrorView::Value("invalid chat_completions_url"@)),
                    Ok(url) => Ok(
                        ConfigView {
                            name: "compatible"@,
                            kind: ProviderKind::OpenAiCompatible,
                            reasoning: None,
                            url,
                            ..config
                        },
                    ),
                },
            },
        }
    } else {
        Err(AgentErrorView::Value("unknown provider"@))
    }
}

/// A provider whose URL has the scheme, with the key that settings give.
pub open spec fn keyed_provider(
    settings: SettingsView,
    config: ConfigView,
    scheme: Option<Seq<char>>,
) -> Result<ConfigView, AgentErrorView> {
    if scheme != Some("http"@) && scheme != Some("https"@) {
        Err(AgentErrorView::Value("provider URL must use http or https"@))
    } else {
        match (settings.api_key, settings.keyring_id) {
            (Some(_), Some(_)) => Err(AgentErrorView::Value("choose api_key or keyring_id"@)),
            (Some(key), None) => Ok(ConfigView { api_key: KeyView::Literal(key), ..config }),
            (None, Some(id)) => Ok(ConfigView { api_key: KeyView::Keyring(id), ..config }),
            (None, None) => Ok(ConfigView { api_key: KeyView::NoKey, ..config }),
        }
    }
}

/// The provider of an agent.
pub open spec fn agent_provider(settings: SettingsView) -> Result<ConfigView, AgentErrorView> {
    match base_provider(settings) {
        Err(e) => Err(e),
        Ok(config) => keyed_provider(settings, config, scheme_of_url(config.url)),
    }
}

impl AgentSettings {
    fn base_config(&self) -> (r: Result<ProviderConfig, AgentError>)
        ensures
            outcome(r) == base_provider(self@),
    {
        let provider = self.provider.as_str();
        if same_text(provider, "openrouter") {
            match ProviderConfig::openrouter(&self.model) {
                Ok(config) => Ok(config),
                Err(e) => Err(AgentError::Runtime(e.to_string())),
            }
        } else if same_text(provider, "llama_cpp") {
            let base = match &self.endpoint {
                Some(endpoint) => endpoint.clone(),
                None => "http://127.0.0.1:8080".to_owned(),
            };
            match ProviderConfig::llama_cpp(base, &self.model) {
                Ok(config) => Ok(config),
                Err(e) => Err(AgentError::Runtime(e.to_string())),
            }
        } else if same_text(provider, "deepseek") {
            self.deepseek_config()
        } else if same_text(provider, "compatible") {
            let mut config = match ProviderConfig::openrouter(&self.model) {
                Ok(config) => config,
                Err(e) => {
                    return Err(AgentError::Runtime(e.to_string()));
                },
            };
            let endpoint = match &self.endpoint {
                Some(endpoint) => endpoint,
                None => {
                    return value_error("chat_completions_url is required");
                },
            };
            match parse_url(endpoint.as_str()) {
                Ok(url) => {
                    config.name = "compatible".to_owned();
                    config.kind = ProviderKind::OpenAiCompatible;
                    config.reasoning = None;
                    config.chat_completions_url = url;
                    Ok(config)
                },
                Err(_) => value_error("invalid chat_completions_url"),
            }
        } else {
            value_error("unknown provider")
        }
    }

    fn thinking(&self) -> (r: Result<Option<ReasoningConfig>, AgentError>)
        ensures
            match thinking_options(self@.thinking, self@.reasoning_effort) {
                Ok(reasoning) => r matches Ok(config) && view_of(config) == reasoning,
                Err(error) => r matches Err(e) && e@ == error,
            },
    {
        let (enabled, effort): (Option<bool>, Option<String>) = match &self.reasoning_effort {
            None => match self.thinking {
                None => return Ok(None),
                Some(enabled) => (Some(enabled), None),
            },
            Some(effort) => if same_text(effort.as_str(), "none") {
                if let Some(true) = self.thinking {
                    return value_error("thinking and reasoning_effort contradict each other");
                }
                (Some(false), None)
            } else if !same_text(effort.as_str(), "low") && !same_text(effort.as_str(), "high")
                && !same_text(effort.as_str(), "max") {
                return value_error("reasoning_effort must be low, high, max, or none");
            } else {
                if let Some(false) = self.thinking {
                    return value_error("thinking and reasoning_effort contradict each other");
                }
                (self.thinking, Some(effort.clone()))
            },
        };
        Ok(Some(ReasoningConfig { enabled, exclude: None, effort, max_tokens: None }))
    }

    fn deepseek_config(&self) -> (r: Result<ProviderConfig, AgentError>)
        ensures
            match thinking_options(self@.thinking, self@.reasoning_effort) {
                Err(error) => r matches Err(e) && e@ == error,
                Ok(reasoning) => outcome(r) == preset_or_failure(
                    deepseek_preset(deepseek_root(self@.endpoint), self@.model, reasoning),
                ),
            },
    {
        let reasoning = match self.thinking() {
            Ok(reasoning) => reasoning,
            Err(e) => return Err(e),
        };
        let root = match &self.endpoint {
            Some(endpoint) => endpoint.clone(),
            None => "https://api.deepseek.com".to_owned(),
        };
        match ProviderConfig::deepseek_at(root, &self.model, reasoning) {
            Ok(config) => Ok(config),
            Err(e) => Err(AgentError::Runtime(e.to_string())),
        }
    }

    /// A provider whose URL has the scheme, with the key that the settings give.
    pub fn with_key(&self, config: ProviderConfig, scheme: Option<&str>) -> (r: Result<
        ProviderConfig,
        AgentError,
    >)
        ensures
            outcome(r) == keyed_provider(self@, config@, view_of(scheme)),
    {
        let mut config = config;
        let web = match scheme {
            Some(scheme) => same_text(scheme, "http") || same_text(scheme, "https"),
            None => false,
        };
        if !web {
            return value_error("provider URL must use http or https");
        }
        config.api_key = match (&self.api_key, &self.keyring_id) {
            (Some(_), Some(_)) => {
                return value_error("choose api_key or keyring_id");
            },
            (Some(key), None) => ApiKeyRef::Literal(key.clone()),
            (None, Some(id)) => ApiKeyRef::Keyring(id.clone()),
            (None, None) => ApiKeyRef::NoKey,
        };
        Ok(config)
    }

    /// The provider of the agent.
    pub fn provider_config(&self) -> (r: Result<ProviderConfig, AgentError>)
        ensures
            outcome(r) == agent_provider(self@),
    {
        let config = match self.base_config() {
            Ok(config) => config,
            Err(e) => {
                return Err(e);
            },
        };
        match scheme(config.chat_completions_url.as_str()) {
            Some(scheme) => self.with_key(config, Some(scheme.as_str())),
            None => self.with_key(config, None),
        }
    }

    /// The session that an agent starts with. It emits no events.
    pub fn session(&self) -> (session: ChatSession)
        ensures
            session@ == first_session(self@),
    {
        let mut config = SessionConfig::default();
        config.max_tool_rounds = self.max_tool_rounds;
        config.compaction.enabled = self.compaction;
        let (session, _) = ChatSession::with_system_prompt_and_config(&self.system_prompt, config);
        session
    }
}

/// The configuration of an agent's session.
pub open spec fn agent_session_config(settings: SettingsView) -> SessionConfig {
    let base = default_config();
    SessionConfig {
        max_tool_rounds: settings.max_tool_rounds,
        compaction: crate::session::compaction::CompactionConfig {
            enabled: settings.compaction,
            ..base.compaction
        },
        ..base
    }
}

/// The session that an agent starts with.
pub open spec fn first_session(settings: SettingsView) -> SessionView {
    pushed(configured(agent_session_config(settings)), system_prompt(settings.system_prompt))
}

// ---------------------------------------------------------------------------------------------
// Tools
// ---------------------------------------------------------------------------------------------

/// The handler of an agent's tool.
pub enum AgentTool<P> {
    /// A built-in tool.
    Builtin(BuiltinTool),
    /// A tool of the application.
    Custom(P),
}

/// Whether `tool` is a built-in one of an agent.
pub open spec fn is_agent_builtin<P>(
    tool: Tool<AgentTool<P>>,
    kind: BuiltinKind,
    roots: RootsView,
    parameters: JsonView,
) -> bool {
    &&& tool.definition_view() == builtin_definition(kind, parameters)
    &&& tool.handler_view() matches AgentTool::Builtin(handler) && handler@ == (BuiltinView {
        kind,
        roots,
        media: None,
    })
}

/// The built-in tools that an agent has: those that read where it may read, and those that write
/// where it may write.
pub open spec fn agent_kinds(roots: RootsView) -> Seq<BuiltinKind> {
    (if roots.read.len() > 0 {
        seq![BuiltinKind::Read, BuiltinKind::Ripgrep]
    } else {
        seq![]
    }) + (if roots.write.len() > 0 {
        seq![BuiltinKind::CreateFile, BuiltinKind::DeleteFile, BuiltinKind::ApplyPatch]
    } else {
        seq![]
    })
}

/// The schema of a built-in tool.
pub open spec fn schema_of(schemas: BuiltinSchemas, kind: BuiltinKind) -> JsonView {
    match kind {
        BuiltinKind::Read => schemas.read@,
        BuiltinKind::CreateFile => schemas.create_file@,
        BuiltinKind::DeleteFile => schemas.delete_file@,
        BuiltinKind::ApplyPatch => schemas.apply_patch@,
        BuiltinKind::Ripgrep => schemas.ripgrep@,
    }
}

/// Whether `tools` are an agent's built-in tools.
pub open spec fn are_agent_builtins<P>(
    tools: Seq<Tool<AgentTool<P>>>,
    roots: RootsView,
    schemas: BuiltinSchemas,
) -> bool {
    &&& tools.len() == agent_kinds(roots).len()
    &&& forall|i: int|
        0 <= i < tools.len() ==> is_agent_builtin(
            #[trigger] tools[i],
            agent_kinds(roots)[i],
            roots,
            schema_of(schemas, agent_kinds(roots)[i]),
        )
}

fn builtin<P>(kind: BuiltinKind, state: &AgentState, schemas: &BuiltinSchemas) -> (tool: Tool<
    AgentTool<P>,
>)
    ensures
        is_agent_builtin(tool, kind, state@, schema_of(*schemas, kind)),
{
    let tool = match kind {
        BuiltinKind::Read => read_tool(state.duplicate(), schemas.read.duplicate()),
        BuiltinKind::CreateFile => create_file_tool(
            state.duplicate(),
            schemas.create_file.duplicate(),
        ),
        BuiltinKind::DeleteFile => delete_file_tool(
            state.duplicate(),
            schemas.delete_file.duplicate(),
        ),
        BuiltinKind::ApplyPatch => apply_patch_tool(
            state.duplicate(),
            schemas.apply_patch.duplicate(),
        ),
        BuiltinKind::Ripgrep => ripgrep_tool(state.duplicate(), schemas.ripgrep.duplicate()),
    };
    let definition = tool.definition().duplicate();
    let handler = tool.handler().duplicate();
    Tool::new(definition, AgentTool::Builtin(handler))
}

fn add_builtin<P>(
    registry: ToolRegistry<AgentTool<P>>,
    kind: BuiltinKind,
    state: &AgentState,
    schemas: &BuiltinSchemas,
) -> (r: ToolRegistry<AgentTool<P>>)
    requires
        registry.wf(),
        forall|i: int|
            0 <= i < registry@.len() ==> (#[trigger] registry@[i]).definition_view().name
                != crate::tools::builtin::builtin_name(kind),
    ensures
        r.wf(),
        r@.len() == registry@.len() + 1,
        r@.take(registry@.len() as int) == registry@,
        is_agent_builtin(r@.last(), kind, state@, schema_of(*schemas, kind)),
{
    let tool = builtin(kind, state, schemas);
    proof {
        crate::tools::builtin::lemma_new_tool(registry@, tool);
        assert(registry@.push(tool).take(registry@.len() as int) =~= registry@);
    }
    registry.with_tool(tool)
}

/// The built-in tools of an agent.
pub fn agent_builtins<P>(state: &AgentState, schemas: &BuiltinSchemas) -> (registry: ToolRegistry<
    AgentTool<P>,
>)
    ensures
        registry.wf(),
        are_agent_builtins(registry@, state@, *schemas),
{
    let mut registry: ToolRegistry<AgentTool<P>> = ToolRegistry::new();
    proof {
        crate::tools::builtin::lemma_builtin_names();
    }
    if state.read_roots().len() > 0 {
        registry = add_builtin(registry, BuiltinKind::Read, state, schemas);
        let ghost one = registry@;
        registry = add_builtin(registry, BuiltinKind::Ripgrep, state, schemas);
        assert(registry@.take(1)[0] == registry@[0]);
    }
    let ghost readers = registry@;
    if state.write_roots().len() > 0 {
        registry = add_builtin(registry, BuiltinKind::CreateFile, state, schemas);
        let ghost one = registry@;
        registry = add_builtin(registry, BuiltinKind::DeleteFile, state, schemas);
        let ghost two = registry@;
        registry = add_builtin(registry, BuiltinKind::ApplyPatch, state, schemas);
        proof {
            let n = readers.len() as int;
            assert(registry@.take(n + 2)[n + 1] == registry@[n + 1]);
            assert(registry@.take(n + 2)[n] == registry@[n]);
            assert(two.take(n + 1)[n] == two[n]);
            assert forall|i: int| 0 <= i < n implies registry@[i] == readers[i] by {
                assert(registry@.take(n + 2)[i] == two[i]);
                assert(two.take(n + 1)[i] == one[i]);
                assert(one.take(n)[i] == readers[i]);
            }
        }
    }
    registry
}

/// Add a tool of the application. No tool may have its name yet, nor is that of a compaction tool
/// free.
pub fn add_tool<P>(
    registry: &mut ToolRegistry<AgentTool<P>>,
    definition: ToolDefinition,
    handler: P,
) -> (r: Result<(), AgentError>)
    requires
        old(registry).wf(),
    ensures
        final(registry).wf(),
        match r {
            Ok(_) => {
                &&& tool_named(old(registry)@, definition@.name) is None
                &&& !compaction_tool(definition@.name)
                &&& exists|tool: Tool<AgentTool<P>>|
                    tool.definition_view() == definition@ && tool.handler_view()
                        == AgentTool::Custom(handler) && final(registry)@ == #[trigger] with_tool(
                        old(registry)@,
                        tool,
                    )
            },
            Err(e) => {
                &&& tool_named(old(registry)@, definition@.name) is Some || compaction_tool(
                    definition@.name,
                )
                &&& e@ == AgentErrorView::Value(
                    "duplicate or reserved tool name: "@ + definition@.name,
                )
                &&& final(registry)@ == old(registry)@
            },
        },
{
    if registry.get(definition.function.name.as_str()).is_some() || is_compaction_tool(
        definition.function.name.as_str(),
    ) {
        let message = concat2(
            "duplicate or reserved tool name: ",
            definition.function.name.as_str(),
        );
        return Err(AgentError::Value(message));
    }
    let tool = Tool::new(definition, AgentTool::Custom(handler));
    let _ = registry.insert(tool);
    Ok(())
}

// ---------------------------------------------------------------------------------------------
// History
// ---------------------------------------------------------------------------------------------

/// The history of an agent. One run at a time may change it, and only a run that succeeds does.
pub struct AgentHistory {
    initial: ChatSession,
    session: ChatSession,
    running: bool,
}

/// The model of an [`AgentHistory`].
pub struct AgentHistoryView {
    pub initial: SessionView,
    pub session: SessionView,
    pub running: bool,
}

impl View for AgentHistory {
    type V = AgentHistoryView;

    closed spec fn view(&self) -> AgentHistoryView {
        AgentHistoryView {
            initial: self.initial@,
            session: self.session@,
            running: self.running,
        }
    }
}

/// The refusal of whatever overlaps a run.
pub open spec fn busy() -> AgentErrorView {
    AgentErrorView::Runtime("agent is already running"@)
}

fn already_running<T>() -> (r: Result<T, AgentError>)
    ensures
        r is Err,
        r->Err_0@ == busy(),
{
    Err(AgentError::Runtime("agent is already running".to_owned()))
}

impl AgentHistory {
    /// A history that begins with a session.
    pub fn new(session: ChatSession) -> (history: Self)
        ensures
            history@ == (AgentHistoryView {
                initial: session@,
                session: session@,
                running: false,
            }),
    {
        AgentHistory { initial: session.duplicate(), session, running: false }
    }

    /// Begin a run, on a copy of the session.
    pub fn begin(&mut self) -> (r: Result<ChatSession, AgentError>)
        ensures
            if old(self)@.running {
                outcome(r) == Err::<SessionView, AgentErrorView>(busy()) && final(self)@
                    == old(self)@
            } else {
                outcome(r) == Ok::<SessionView, AgentErrorView>(old(self)@.session) && final(self)@
                    == (AgentHistoryView { running: true, ..old(self)@ })
            },
    {
        if self.running {
            return already_running();
        }
        self.running = true;
        Ok(self.session.duplicate())
    }

    /// End a run: with the session of one that succeeded, or with nothing.
    pub fn end(&mut self, session: Option<ChatSession>)
        ensures
            final(self)@ == (AgentHistoryView {
                session: match session {
                    Some(session) => session@,
                    None => old(self)@.session,
                },
                running: false,
                ..old(self)@
            }),
    {
        self.running = false;
        if let Some(session) = session {
            self.session = session;
        }
    }

    /// The messages so far.
    pub fn messages(&self) -> (r: Result<Vec<ChatMessage>, AgentError>)
        ensures
            match r {
                Ok(messages) => !self@.running && views(messages@) == history(self@.session.turns),
                Err(e) => self@.running && e@ == busy(),
            },
    {
        if self.running {
            return already_running();
        }
        Ok(self.session.messages())
    }

    /// Forget all that was said.
    pub fn reset(&mut self) -> (r: Result<(), AgentError>)
        ensures
            match r {
                Ok(_) => !old(self)@.running && final(self)@ == (AgentHistoryView {
                    session: old(self)@.initial,
                    ..old(self)@
                }),
                Err(e) => old(self)@.running && e@ == busy() && final(self)@ == old(self)@,
            },
    {
        if self.running {
            return already_running();
        }
        self.session = self.initial.duplicate();
        Ok(())
    }
}

// ---------------------------------------------------------------------------------------------
// Laws
// ---------------------------------------------------------------------------------------------

/// An agent without write roots has no tool that writes.
pub proof fn agents_write_only_where_they_may(roots: RootsView, i: int)
    requires
        0 <= i < agent_kinds(roots).len(),
    ensures
        match agent_kinds(roots)[i] {
            BuiltinKind::Read | BuiltinKind::Ripgrep => roots.read.len() > 0,
            _ => roots.write.len() > 0,
        },
{
}

/// A provider is never given two keys, and takes no URL but one of the web.
pub proof fn providers_are_checked(settings: SettingsView)
    ensures
        agent_provider(settings) matches Ok(config) ==> {
            &&& !(settings.api_key is Some && settings.keyring_id is Some)
            &&& scheme_of_url(config.url) == Some("http"@) || scheme_of_url(config.url) == Some(
                "https"@,
            )
        },
{
}

} // verus!
