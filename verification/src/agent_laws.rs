//! What holds of agents: which provider their settings name, which keys it is given, and which
//! tools they have.

use vstd::prelude::*;

use crate::agent::{agent_kinds, agent_provider, agent_session_config, first_session};
use crate::agent::{schema_of, thinking_options, AgentErrorView, SettingsView};
use crate::chat::{MessageRole, ReasoningConfigView};
use crate::content::ContentView;
use crate::error::ErrorView;
use crate::provider::{ConfigView, KeyView, ProviderKind};
use crate::session::model::default_config;
use crate::state::RootsView;
use crate::tools::builtin::{BuiltinKind, BuiltinSchemas};
use crate::url_text::{below, parsed_url, scheme_of_url};

verus! {

/// What stands behind a base where a URL is to be had, and what an agent says where it is not.
pub open spec fn reached(
    url: Result<Seq<char>, ErrorView>,
    settings: SettingsView,
    named: spec_fn(Seq<char>) -> ConfigView,
) -> Result<ConfigView, AgentErrorView> {
    match url {
        Err(error) => Err(AgentErrorView::Runtime(error.message())),
        Ok(url) => if scheme_of_url(url) != Some("http"@) && scheme_of_url(url) != Some("https"@) {
            Err(AgentErrorView::Value("provider URL must use http or https"@))
        } else if settings.api_key is Some && settings.keyring_id is Some {
            Err(AgentErrorView::Value("choose api_key or keyring_id"@))
        } else {
            Ok(
                ConfigView {
                    api_key: match (settings.api_key, settings.keyring_id) {
                        (Some(key), _) => KeyView::Literal(key),
                        (_, Some(id)) => KeyView::Keyring(id),
                        _ => KeyView::NoKey,
                    },
                    ..named(url)
                },
            )
        },
    }
}

/// OpenRouter is reached at its own endpoint, and reasons; whatever key the settings name is used.
pub proof fn openrouter_is_reached_at_its_endpoint(settings: SettingsView)
    requires
        settings.provider == "openrouter"@,
    ensures
        agent_provider(settings) == reached(
            match parsed_url("https://openrouter.ai/api/v1/chat/completions"@) {
                Ok(url) => Ok(url),
                Err(message) => Err(ErrorView::Url(message)),
            },
            settings,
            |url: Seq<char>|
                ConfigView {
                    name: "openrouter"@,
                    kind: ProviderKind::OpenRouter,
                    url,
                    api_key: KeyView::NoKey,
                    model: settings.model,
                    headers: seq![],
                    reasoning: Some(
                        ReasoningConfigView {
                            enabled: Some(true),
                            exclude: Some(false),
                            effort: None,
                            max_tokens: None,
                        },
                    ),
                },
        ),
{
}

/// llama.cpp is reached below its server's root, the local one unless another is named.
pub proof fn llama_is_reached_below_its_root(settings: SettingsView)
    requires
        settings.provider == "llama_cpp"@,
    ensures
        agent_provider(settings) == reached(
            below(
                match settings.endpoint {
                    Some(root) => root,
                    None => "http://127.0.0.1:8080"@,
                },
                seq!["v1"@, "chat"@, "completions"@],
            ),
            settings,
            |url: Seq<char>|
                ConfigView {
                    name: "llama-cpp"@,
                    kind: ProviderKind::LlamaCpp,
                    url,
                    api_key: KeyView::NoKey,
                    model: settings.model,
                    headers: seq![],
                    reasoning: None,
                },
        ),
{
    lemma_providers_differ();
}

/// DeepSeek is reached below its root, its own unless another is named, and thinks as it is told;
/// settings that contradict each other are refused.
pub proof fn deepseek_is_reached_below_its_root(settings: SettingsView)
    requires
        settings.provider == "deepseek"@,
    ensures
        match thinking_options(settings.thinking, settings.reasoning_effort) {
            Err(error) => agent_provider(settings) == Err::<ConfigView, AgentErrorView>(error),
            Ok(reasoning) => agent_provider(settings) == reached(
                below(
                    match settings.endpoint {
                        Some(root) => root,
                        None => "https://api.deepseek.com"@,
                    },
                    seq!["chat"@, "completions"@],
                ),
                settings,
                |url: Seq<char>|
                    ConfigView {
                        name: "deepseek"@,
                        kind: ProviderKind::OpenAiCompatible,
                        url,
                        api_key: KeyView::NoKey,
                        model: settings.model,
                        headers: seq![],
                        reasoning,
                    },
            ),
        },
{
    lemma_providers_differ();
}

/// A compatible provider is reached at the endpoint that is named for it; other providers there
/// are none.
pub proof fn compatible_providers_are_reached_where_they_say(settings: SettingsView)
    requires
        settings.provider != "openrouter"@,
        settings.provider != "llama_cpp"@,
        settings.provider != "deepseek"@,
    ensures
        settings.provider != "compatible"@ ==> agent_provider(settings) == Err::<
            ConfigView,
            AgentErrorView,
        >(AgentErrorView::Value("unknown provider"@)),
        settings.provider == "compatible"@ && parsed_url(
            "https://openrouter.ai/api/v1/chat/completions"@,
        ) is Ok ==> match settings.endpoint {
            None => agent_provider(settings) == Err::<ConfigView, AgentErrorView>(
                AgentErrorView::Value("chat_completions_url is required"@),
            ),
            Some(endpoint) => match parsed_url(endpoint) {
                Err(_) => agent_provider(settings) == Err::<ConfigView, AgentErrorView>(
                    AgentErrorView::Value("invalid chat_completions_url"@),
                ),
                Ok(url) => agent_provider(settings) == reached(
                    Ok(url),
                    settings,
                    |url: Seq<char>|
                        ConfigView {
                            name: "compatible"@,
                            kind: ProviderKind::OpenAiCompatible,
                            url,
                            api_key: KeyView::NoKey,
                            model: settings.model,
                            headers: seq![],
                            reasoning: None,
                        },
                ),
            },
        },
{
}

proof fn lemma_providers_differ()
    ensures
        "openrouter"@.len() == 10,
        "llama_cpp"@.len() == 9,
        "deepseek"@.len() == 8,
{
    reveal_strlit("openrouter");
    reveal_strlit("llama_cpp");
    reveal_strlit("deepseek");
}

/// DeepSeek thinks as it is told: not at all for no effort, as hard as it is asked for a known
/// one, and by its own choice where nothing is said. Effort without thinking, and thinking without
/// effort, contradict each other.
pub proof fn deepseek_thinks_as_it_is_told(thinking: Option<bool>, effort: Seq<char>)
    ensures
        ({
            let told = thinking_options(thinking, Some(effort));
            let known = effort == "low"@ || effort == "high"@ || effort == "max"@;
            let set = |enabled: Option<bool>, effort: Option<Seq<char>>|
                Ok::<Option<ReasoningConfigView>, AgentErrorView>(
                    Some(
                        ReasoningConfigView { enabled, exclude: None, effort, max_tokens: None },
                    ),
                );
            let refused = |message: Seq<char>|
                Err::<Option<ReasoningConfigView>, AgentErrorView>(AgentErrorView::Value(message));
            &&& effort == "none"@ && thinking != Some(true) ==> told == set(Some(false), None)
            &&& effort == "none"@ && thinking == Some(true) ==> told == refused(
                "thinking and reasoning_effort contradict each other"@,
            )
            &&& known && thinking != Some(false) ==> told == set(thinking, Some(effort))
            &&& known && thinking == Some(false) ==> told == refused(
                "thinking and reasoning_effort contradict each other"@,
            )
            &&& effort != "none"@ && !known ==> told == refused(
                "reasoning_effort must be low, high, max, or none"@,
            )
            &&& thinking_options(None, None) == Ok::<Option<ReasoningConfigView>, AgentErrorView>(
                None,
            )
            &&& thinking is Some ==> thinking_options(thinking, None) == set(thinking, None)
        }),
{
    reveal_strlit("none");
    reveal_strlit("low");
    reveal_strlit("high");
    reveal_strlit("max");
    assert("none"@.len() == 4 && "low"@.len() == 3 && "high"@.len() == 4 && "max"@.len() == 3);
    assert("none"@[0] != "high"@[0]);
}

/// A session of an agent begins with the system prompt alone, under the agent's own limit of
/// rounds and with compaction as it is set; the rest is as sessions start out.
pub proof fn sessions_begin_with_the_prompt(settings: SettingsView)
    ensures
        ({
            let config = agent_session_config(settings);
            let s = first_session(settings);
            let start = default_config();
            &&& s.config == config
            &&& config.max_tool_rounds == settings.max_tool_rounds
            &&& config.compaction.enabled == settings.compaction
            &&& config.compaction.trigger_estimated_tokens
                == start.compaction.trigger_estimated_tokens
            &&& config.compaction.target_estimated_tokens
                == start.compaction.target_estimated_tokens
            &&& config.compaction.max_compaction_rounds == start.compaction.max_compaction_rounds
            &&& config.compaction.always_offer_tools == start.compaction.always_offer_tools
            &&& config.compaction.protect_recent_turns == start.compaction.protect_recent_turns
            &&& config.compaction.top_consumers == start.compaction.top_consumers
            &&& config.notifications == start.notifications
            &&& config.telemetry == start.telemetry
            &&& s.turns.len() == 1
            &&& s.turns[0].id == 1
            &&& s.turns[0].role == MessageRole::System
            &&& s.turns[0].content == ContentView::Text(settings.system_prompt)
        }),
{
}

/// An agent reads and searches where it has roots to read, and creates, deletes and patches files
/// where it has roots to write, with the schema of each tool.
pub proof fn agents_have_the_tools_of_their_roots(roots: RootsView, schemas: BuiltinSchemas)
    ensures
        ({
            let reads = seq![BuiltinKind::Read, BuiltinKind::Ripgrep];
            let writes = seq![
                BuiltinKind::CreateFile,
                BuiltinKind::DeleteFile,
                BuiltinKind::ApplyPatch,
            ];
            agent_kinds(roots) == (match (roots.read.len() > 0, roots.write.len() > 0) {
                (true, true) => reads + writes,
                (true, false) => reads,
                (false, true) => writes,
                (false, false) => seq![],
            })
        }),
        schema_of(schemas, BuiltinKind::Read) == schemas.read@,
        schema_of(schemas, BuiltinKind::Ripgrep) == schemas.ripgrep@,
        schema_of(schemas, BuiltinKind::CreateFile) == schemas.create_file@,
        schema_of(schemas, BuiltinKind::DeleteFile) == schemas.delete_file@,
        schema_of(schemas, BuiltinKind::ApplyPatch) == schemas.apply_patch@,
{
    let kinds = agent_kinds(roots);
    let reads = seq![BuiltinKind::Read, BuiltinKind::Ripgrep];
    let writes = seq![
        BuiltinKind::CreateFile,
        BuiltinKind::DeleteFile,
        BuiltinKind::ApplyPatch,
    ];
    assert(reads + Seq::<BuiltinKind>::empty() =~= reads);
    assert(Seq::<BuiltinKind>::empty() + writes =~= writes);
    assert(Seq::<BuiltinKind>::empty() + Seq::<BuiltinKind>::empty() =~= seq![]);
}

} // verus!
