use smolgent::agent::{
    add_tool, agent_builtins, AgentError, AgentHistory, AgentSettings, AgentTool,
};
use smolgent::json::JsonText;
use smolgent::path::{FilePath, PathComponent};
use smolgent::tools::builtin::BuiltinSchemas;
use smolgent::{
    AgentState, ApiKeyRef, ProviderConfig, ProviderKind, ReasoningConfig, ToolDefinition,
    ToolRegistry,
};

fn settings(provider: &str, endpoint: Option<&str>) -> AgentSettings {
    AgentSettings {
        provider: provider.to_string(),
        model: "model".to_string(),
        endpoint: endpoint.map(String::from),
        thinking: None,
        reasoning_effort: None,
        api_key: None,
        keyring_id: None,
        system_prompt: "Be brief.".to_string(),
        max_tool_rounds: 3,
        compaction: false,
    }
}

fn failure(settings: &AgentSettings) -> AgentError {
    settings.provider_config().err().unwrap()
}

#[test]
fn each_provider_is_configured() {
    let config = settings("openrouter", None).provider_config().ok().unwrap();
    assert_eq!(config.kind, ProviderKind::OpenRouter);
    assert!(config.api_key == ApiKeyRef::NoKey);
    let config = settings("llama_cpp", None).provider_config().ok().unwrap();
    assert_eq!(
        config.chat_completions_url,
        "http://127.0.0.1:8080/v1/chat/completions"
    );
    let config = settings("compatible", Some("https://h/v1/chat/completions"))
        .provider_config()
        .ok()
        .unwrap();
    assert_eq!(config.name, "compatible");
    assert_eq!(config.kind, ProviderKind::OpenAiCompatible);
    assert_eq!(config.reasoning, None);
    assert_eq!(config.chat_completions_url, "https://h/v1/chat/completions");
    assert_eq!(config.default_model, "model");
}

#[test]
fn wrong_settings_are_refused() {
    let value = |message: &str| AgentError::Value(message.to_string());
    assert_eq!(failure(&settings("other", None)), value("unknown provider"));
    assert_eq!(
        failure(&settings("compatible", None)),
        value("chat_completions_url is required")
    );
    assert_eq!(
        failure(&settings("compatible", Some("no url"))),
        value("invalid chat_completions_url")
    );
    assert_eq!(
        failure(&settings("compatible", Some("ftp://h/x"))),
        value("provider URL must use http or https")
    );
    assert!(matches!(
        failure(&settings("llama_cpp", Some("no url"))),
        AgentError::Runtime(message) if message.starts_with("url error: ")
    ));
    let mut both = settings("openrouter", None);
    both.api_key = Some("key".into());
    both.keyring_id = Some("id".into());
    assert_eq!(failure(&both), value("choose api_key or keyring_id"));
}

#[test]
fn deepseek_is_configured() {
    let config = settings("deepseek", None).provider_config().ok().unwrap();
    assert_eq!(config.name, "deepseek");
    assert_eq!(config.kind, ProviderKind::OpenAiCompatible);
    assert_eq!(config.default_model, "model");
    assert_eq!(config.reasoning, None);
    assert_eq!(
        config.chat_completions_url,
        "https://api.deepseek.com/chat/completions"
    );
    for base in ["https://h/v1", "https://h/v1/", "https://h/v1?q=1#f"] {
        let config = settings("deepseek", Some(base)).provider_config().ok().unwrap();
        assert_eq!(config.chat_completions_url, "https://h/v1/chat/completions");
    }
    assert_eq!(
        failure(&settings("deepseek", Some("ftp://h"))),
        AgentError::Value("provider URL must use http or https".into())
    );
    assert!(matches!(
        failure(&settings("deepseek", Some("no url"))),
        AgentError::Runtime(_)
    ));
    let mut keyed = settings("deepseek", None);
    keyed.keyring_id = Some("my-app/deepseek".into());
    assert!(
        keyed.provider_config().ok().unwrap().api_key
            == ApiKeyRef::Keyring("my-app/deepseek".into())
    );
    keyed.keyring_id = None;
    keyed.api_key = Some("key".into());
    assert!(keyed.provider_config().ok().unwrap().api_key == ApiKeyRef::Literal("key".into()));
}

#[test]
fn thinking_options_agree_or_are_refused() {
    let with = |thinking: Option<bool>, effort: Option<&str>| AgentSettings {
        thinking,
        reasoning_effort: effort.map(String::from),
        ..settings("deepseek", None)
    };
    for (thinking, effort, enabled, kept) in [
        (Some(false), None, Some(false), None),
        (Some(true), None, Some(true), None),
        (None, Some("none"), Some(false), None),
        (Some(false), Some("none"), Some(false), None),
        (None, Some("low"), None, Some("low")),
        (None, Some("high"), None, Some("high")),
        (Some(true), Some("max"), Some(true), Some("max")),
    ] {
        let config = with(thinking, effort).provider_config().ok().unwrap();
        assert_eq!(
            config.reasoning,
            Some(ReasoningConfig {
                enabled,
                exclude: None,
                effort: kept.map(String::from),
                max_tokens: None,
            })
        );
    }
    for (thinking, effort) in [
        (Some(true), "none"),
        (Some(false), "low"),
        (Some(false), "high"),
        (Some(false), "max"),
    ] {
        assert_eq!(
            failure(&with(thinking, Some(effort))),
            AgentError::Value("thinking and reasoning_effort contradict each other".into())
        );
    }
    for effort in ["", "medium", "MAX"] {
        assert_eq!(
            failure(&with(None, Some(effort))),
            AgentError::Value("reasoning_effort must be low, high, max, or none".into())
        );
    }
}

#[test]
fn keys_are_taken_from_the_settings() {
    let mut keyed = settings("openrouter", None);
    keyed.api_key = Some("key".into());
    assert!(keyed.provider_config().ok().unwrap().api_key == ApiKeyRef::Literal("key".into()));
    keyed.api_key = None;
    keyed.keyring_id = Some("id".into());
    assert!(keyed.provider_config().ok().unwrap().api_key == ApiKeyRef::Keyring("id".into()));
    let config = ProviderConfig::openrouter("model").unwrap();
    assert!(keyed.with_key(config.clone(), Some("gopher")).is_err());
    assert!(keyed.with_key(config.clone(), None).is_err());
    assert!(keyed.with_key(config, Some("http")).is_ok());
}

#[test]
fn a_session_begins_with_the_system_prompt() {
    let session = settings("openrouter", None).session();
    assert_eq!(session.messages().len(), 1);
    assert_eq!(session.messages()[0].content, "Be brief.");
    assert_eq!(session.config().max_tool_rounds, 3);
    assert!(!session.config().compaction.enabled);
}

fn root(name: &str) -> FilePath {
    FilePath {
        parts: vec![PathComponent::Root, PathComponent::Normal(name.to_string())],
    }
}

fn schemas() -> BuiltinSchemas {
    BuiltinSchemas {
        read: JsonText::empty_object(),
        create_file: JsonText::empty_object(),
        delete_file: JsonText::empty_object(),
        apply_patch: JsonText::empty_object(),
        ripgrep: JsonText::empty_object(),
    }
}

fn names(state: &AgentState) -> Vec<String> {
    let registry: ToolRegistry<AgentTool<()>> = agent_builtins(state, &schemas());
    registry
        .definitions()
        .iter()
        .map(|definition| definition.name().to_string())
        .collect()
}

#[test]
fn tools_follow_the_roots() {
    assert!(names(&AgentState::default()).is_empty());
    assert_eq!(
        names(&AgentState::new(&vec![root("a")], &vec![])),
        vec!["read", "ripgrep"]
    );
    // What may be written may be read.
    assert_eq!(
        names(&AgentState::new(&vec![], &vec![root("a")])),
        vec!["read", "ripgrep", "create_file", "delete_file", "apply_patch"]
    );
}

#[test]
fn custom_tools_may_not_take_a_name() {
    let mut registry: ToolRegistry<AgentTool<u8>> =
        agent_builtins(&AgentState::new(&vec![root("a")], &vec![]), &schemas());
    let definition =
        |name: &str| ToolDefinition::new(name, "A tool.", JsonText::empty_object());
    add_tool(&mut registry, definition("add"), 7).unwrap();
    assert!(matches!(
        registry.get("add").unwrap().handler(),
        AgentTool::Custom(7)
    ));
    for name in [
        "add",
        "read",
        "compact_remove_messages",
        "compact_summarize_messages",
    ] {
        assert_eq!(
            add_tool(&mut registry, definition(name), 8).unwrap_err(),
            AgentError::Value(format!("duplicate or reserved tool name: {name}"))
        );
    }
    assert_eq!(registry.definitions().len(), 3);
}

#[test]
fn history_changes_only_with_a_run_that_succeeds() {
    let busy = AgentError::Runtime("agent is already running".to_string());
    let mut history = AgentHistory::new(settings("openrouter", None).session());
    let mut session = history.begin().ok().unwrap();
    session.push_user("hello");
    assert_eq!(history.begin().err().unwrap(), busy);
    assert_eq!(history.messages().unwrap_err(), busy);
    assert_eq!(history.reset().unwrap_err(), busy);
    history.end(None);
    assert_eq!(history.messages().unwrap().len(), 1);

    let mut session = history.begin().ok().unwrap();
    session.push_user("hello");
    history.end(Some(session));
    assert_eq!(history.messages().unwrap().len(), 2);
    history.reset().unwrap();
    assert_eq!(history.messages().unwrap().len(), 1);
}
