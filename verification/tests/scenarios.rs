use std::sync::Arc;

use keyring_core::CredentialStore;
use serde_json::Value;
use smolgent::chat::{AssistantWireMessage, ChatCompletionChoice, ChatCompletionEnvelope};
use smolgent::json::JsonText;
use smolgent::macros::{
    generated_names, plan_tool, rustdoc_description, CallArgument, Parameter, RoleAttribute,
};
use smolgent::provider::body::ErrorBody;
use smolgent::provider::capabilities::MetadataAnswer;
use smolgent::provider::{wire_parts, WirePart};
use smolgent::secrets::{deleted_key, loaded_key, SecretStore, StoreAnswer};
use smolgent::session::run::{ManagedRun, RunAction};
use smolgent::streaming::accumulator::Accumulator;
use smolgent::streaming::event::StreamEvent;
use smolgent::streaming::reader::ChunkReader;
use smolgent::tools::builtin::{BuiltinSchemas, BuiltinTool};
use smolgent::tools::compact::definitions;
use smolgent::tools::media::{check_media, media_content, MediaRead};
use smolgent::tools::{finish_call, report_call, ToolOutput};
use smolgent::value::Json;
use smolgent::{
    builtin_registry_for_provider, AgentState, ApiKeyRef, ChatMessage, ChatProvider, ChatRequest,
    ChatResponse, ChatSession, CompactionConfig, ContentPart, Error, MessageContent, MessageRole,
    ProviderConfig, ProviderKind, ReadArgs, SessionConfig, Tool, ToolCall, ToolCallFunction,
    ToolDefinition, ToolRegistry, ToolResult,
};

fn json(text: &str) -> JsonText {
    JsonText::parse(text).unwrap()
}

fn tree(value: &Value) -> Json {
    match value {
        Value::Null => Json::Null,
        Value::Bool(b) => Json::Bool(*b),
        Value::Number(n) => Json::Unsigned(n.as_u64().unwrap()),
        Value::String(s) => Json::Str(s.clone()),
        Value::Array(items) => Json::Array(items.iter().map(tree).collect()),
        Value::Object(entries) => {
            Json::Object(entries.iter().map(|(k, v)| (k.clone(), tree(v))).collect())
        }
    }
}

fn parsed(text: &str) -> Json {
    tree(&serde_json::from_str(text).unwrap())
}

fn call(id: &str, name: &str, arguments: &str) -> ToolCall {
    ToolCall {
        id: id.to_string(),
        kind: "function".to_string(),
        function: ToolCallFunction {
            name: name.to_string(),
            arguments: arguments.to_string(),
        },
    }
}

fn response(content: Option<MessageContent>, tool_calls: Vec<ToolCall>) -> ChatResponse {
    ChatCompletionEnvelope {
        choices: vec![ChatCompletionChoice {
            message: AssistantWireMessage {
                content,
                annotations: Vec::new(),
                reasoning: None,
                reasoning_content: None,
                reasoning_details: None,
                tool_calls,
            },
        }],
    }
    .into_response(JsonText::empty_object())
    .unwrap()
}

fn answer(text: &str) -> ChatResponse {
    response(Some(text.into()), Vec::new())
}

fn uncompacted() -> ChatSession {
    ChatSession::with_config(SessionConfig {
        compaction: CompactionConfig::disabled(),
        ..SessionConfig::default()
    })
    .0
}

fn openrouter() -> ChatProvider {
    let mut config = ProviderConfig::openrouter("z-ai/glm-5.3-flash").unwrap();
    config.api_key = ApiKeyRef::Literal("test-key".into());
    ChatProvider::new(config)
}

fn llama() -> ChatProvider {
    ChatProvider::new(
        ProviderConfig::llama_cpp("http://localhost:8080/proxy/", "org/model:variant").unwrap(),
    )
}

fn schemas() -> BuiltinSchemas {
    BuiltinSchemas {
        read: JsonText::empty_object(),
        create_file: JsonText::empty_object(),
        delete_file: JsonText::empty_object(),
        apply_patch: JsonText::empty_object(),
        ripgrep: JsonText::empty_object(),
    }
}

/// The registry that a provider's metadata leads to.
fn discovered(
    provider: &ChatProvider,
    metadata: &str,
) -> Result<ToolRegistry<BuiltinTool>, Error> {
    let capabilities = provider.read_capabilities(&MetadataAnswer::Body(parsed(metadata)))?;
    Ok(builtin_registry_for_provider(
        AgentState::default(),
        &schemas(),
        provider,
        capabilities,
    ))
}

/// Run the `read` tool on a file that holds "hello".
fn read_hello(
    registry: &ToolRegistry<BuiltinTool>,
    call: &ToolCall,
) -> Result<ToolResult, Error> {
    let (tool, arguments) = registry.prepare_call(call)?;
    let arguments: Value = serde_json::from_str(arguments.as_str()).unwrap();
    let path = arguments["path"].as_str().unwrap();
    let args = ReadArgs {
        path: path.to_string(),
        character_offset: None,
        line_offset: None,
        character_count: None,
        line_count: None,
    };
    let name = path.rsplit('/').next().unwrap();
    let reader = tool.handler().media.as_ref().unwrap();
    match reader.plan(Some(name), &args)? {
        MediaRead::Text => panic!("expected media"),
        MediaRead::Media(modality, format) => {
            check_media(true, 5)?;
            let content = media_content(modality, format, path, name, &b"hello".to_vec())?;
            finish_call(call, Ok(ToolOutput::Content(content)))
        }
    }
}

fn run<H>(
    session: &mut ChatSession,
    provider: &ChatProvider,
    registry: &ToolRegistry<H>,
    mut tools: impl FnMut(&ToolCall) -> Result<ToolResult, Error>,
    mut model: impl FnMut(&ChatRequest) -> Result<ChatResponse, Error>,
) -> Result<ChatResponse, Error> {
    let mut run = ManagedRun::new(
        registry.definitions(),
        definitions(JsonText::empty_object(), JsonText::empty_object()),
    );
    let mut action = run.begin(session, provider);
    loop {
        action = match action {
            RunAction::Send { request } => run.on_response(session, provider, model(&request)?),
            RunAction::CallTool { call } => {
                let outcome = tools(&call);
                run.on_outcome(session, provider, outcome).0
            }
            RunAction::Finish { response } => return Ok(response),
            other => panic!("unexpected action {other:?}"),
        };
    }
}

struct Keyring {
    store: Arc<CredentialStore>,
}

impl Keyring {
    fn entry(&self, provider_id: &str) -> keyring_core::Entry {
        self.store.build("smolgent-test", provider_id, None).unwrap()
    }
}

impl SecretStore for Keyring {
    fn set_api_key(&self, provider_id: &str, api_key: &str) -> Result<(), Error> {
        self.entry(provider_id)
            .set_password(api_key)
            .map_err(|error| Error::Keyring(error.to_string()))
    }

    fn get_api_key(&self, provider_id: &str) -> Result<Option<String>, Error> {
        loaded_key(match self.entry(provider_id).get_password() {
            Ok(api_key) => StoreAnswer::Password(api_key),
            Err(keyring_core::Error::NoEntry) => StoreAnswer::NoEntry,
            Err(error) => StoreAnswer::Failed(error.to_string()),
        })
    }

    fn delete_api_key(&self, provider_id: &str) -> Result<(), Error> {
        deleted_key(match self.entry(provider_id).delete_credential() {
            Ok(()) => StoreAnswer::Password(String::new()),
            Err(keyring_core::Error::NoEntry) => StoreAnswer::NoEntry,
            Err(error) => StoreAnswer::Failed(error.to_string()),
        })
    }
}

#[test]
fn keyring_core_secret_store_round_trips_api_keys() {
    let store: Arc<CredentialStore> = keyring_core::mock::Store::new().unwrap();
    let secrets = Keyring { store };

    assert_eq!(secrets.get_api_key("openrouter").unwrap(), None);

    secrets.set_api_key("openrouter", "sk-test").unwrap();
    assert_eq!(
        secrets.get_api_key("openrouter").unwrap(),
        Some("sk-test".to_string())
    );

    secrets.delete_api_key("openrouter").unwrap();
    assert_eq!(secrets.get_api_key("openrouter").unwrap(), None);
}

#[test]
fn registry_executes_tool_calls() {
    let tool = Tool::new(
        ToolDefinition::new(
            "add",
            "Add two numbers.",
            json(
                r#"{"type":"object","properties":{"a":{"type":"integer"},"b":{"type":"integer"}},"required":["a","b"]}"#,
            ),
        ),
        (),
    );
    let registry = ToolRegistry::new().with_tool(tool);
    let call = call("call_1", "add", r#"{"a":2,"b":3}"#);

    let (_, arguments) = registry.prepare_call(&call).unwrap();
    let arguments: Value = serde_json::from_str(arguments.as_str()).unwrap();
    let sum = arguments["a"].as_i64().unwrap() + arguments["b"].as_i64().unwrap();
    let result = finish_call(&call, Ok(ToolOutput::Json(json(&sum.to_string())))).unwrap();

    assert_eq!(result.tool_call_id, "call_1");
    assert_eq!(result.content, "5");
}

#[test]
fn registry_reports_tool_errors_as_tool_results() {
    let registry: ToolRegistry<()> = ToolRegistry::new();
    let call = call("call_1", "missing", "{}");

    let outcome = match registry.prepare_call(&call) {
        Ok(_) => panic!("expected an unknown tool"),
        Err(error) => Err(error),
    };
    let result = report_call(&call, outcome);
    let message = result.clone().into_message();

    assert_eq!(result.tool_call_id, "call_1");
    assert_eq!(result.name, "missing");
    assert!(result
        .content
        .text()
        .contains("Tool error: unknown tool 'missing'"));
    assert_eq!(message.tool_call_id.as_deref(), Some("call_1"));
    assert_eq!(message.name.as_deref(), Some("missing"));
}

#[test]
fn ordinary_json_array_tool_results_are_not_interpreted_as_media() {
    let registry = ToolRegistry::new().with_tool(Tool::new(
        ToolDefinition::new("json", "Return ordinary JSON", json(r#"{"type": "object"}"#)),
        json(r#"[{"type": "image_url", "image_url": {"url": "text-only"}}]"#),
    ));
    let call = call("call", "json", "{}");
    let (tool, _) = registry.prepare_call(&call).unwrap();
    let result = finish_call(&call, Ok(ToolOutput::Json(tool.handler().clone()))).unwrap();
    assert!(matches!(result.content, MessageContent::Text(_)));
}

#[test]
fn metadata_http_failures_remain_visible_to_the_caller() {
    let mut body = ErrorBody::new();
    body.take(b"invalid API key");
    let error = body.into_error(401);
    assert!(matches!(error, Error::Provider { status: 401, body } if body == "invalid API key"));
}

#[test]
fn discovered_reader_attaches_images_and_video_in_the_managed_tool_loop() {
    let provider = openrouter();
    let registry = discovered(
        &provider,
        r#"{"data": {"architecture": {"input_modalities": ["text", "image", "video"]}}}"#,
    )
    .unwrap();
    let mut session = uncompacted();
    session.push_user("Compare the image and video");
    let mut requests = 0;
    let response = run(
        &mut session,
        &provider,
        &registry,
        |call| read_hello(&registry, call),
        |request| {
            requests += 1;
            if request.messages.len() == 1 {
                assert!(request.tools.iter().any(|tool| {
                    let description = &tool.function.description;
                    description.contains("images:") && description.contains("videos:")
                }));
                return Ok(response(
                    None,
                    vec![
                        call("read_image", "read", r#"{"path": "/data/image.png"}"#),
                        call("read_video", "read", r#"{"path": "/data/video.mp4"}"#),
                    ],
                ));
            }
            for (at, id, part) in [
                (
                    2,
                    "read_image",
                    ContentPart::image_url("data:image/png;base64,aGVsbG8="),
                ),
                (
                    3,
                    "read_video",
                    ContentPart::video_url("data:video/mp4;base64,aGVsbG8="),
                ),
            ] {
                let message: &ChatMessage = &request.messages[at];
                assert_eq!(message.role, MessageRole::Tool);
                assert_eq!(message.tool_call_id.as_deref(), Some(id));
                let MessageContent::Parts(parts) = &message.content else {
                    panic!("expected content parts");
                };
                assert_eq!(
                    wire_parts(ProviderKind::OpenRouter, parts)[1],
                    WirePart::Plain(part)
                );
            }
            Ok(answer("Comparison"))
        },
    )
    .unwrap();
    assert_eq!(requests, 2);
    assert_eq!(response.message, ChatMessage::assistant("Comparison"));
    assert!(session.messages()[2].content.has_media());
    assert!(session.messages()[3].content.has_media());
}

#[test]
fn managed_tool_loop_translates_media_results_without_changing_history() {
    let provider = llama();
    let registry = discovered(
        &provider,
        r#"{"modalities": {"vision": true, "video": true}}"#,
    )
    .unwrap();
    let mut session = uncompacted();
    session.push_user("Read the video");
    let mut requests = 0;
    run(
        &mut session,
        &provider,
        &registry,
        |call| read_hello(&registry, call),
        |request| {
            requests += 1;
            if request.messages.len() == 1 {
                assert!(request
                    .tools
                    .iter()
                    .any(|tool| tool.function.description.contains("videos:")));
                return Ok(response(
                    None,
                    vec![call("read_video", "read", r#"{"path": "/data/video.mp4"}"#)],
                ));
            }
            let result = &request.messages[2];
            assert_eq!(result.role, MessageRole::Tool);
            assert_eq!(result.tool_call_id.as_deref(), Some("read_video"));
            let MessageContent::Parts(parts) = &result.content else {
                panic!("expected content parts");
            };
            assert_eq!(
                wire_parts(ProviderKind::LlamaCpp, parts)[1],
                WirePart::InputVideo {
                    url: "data:video/mp4;base64,aGVsbG8=".to_string()
                }
            );
            Ok(answer("Video summary"))
        },
    )
    .unwrap();
    assert_eq!(requests, 2);
    let history = session.messages();
    let MessageContent::Parts(parts) = &history[2].content else {
        panic!("expected content parts");
    };
    assert!(matches!(parts[1], ContentPart::VideoUrl { .. }));
    assert_eq!(history[2].tool_call_id.as_deref(), Some("read_video"));
}

#[test]
fn openrouter_sends_mixed_inputs_and_replays_pdf_annotations_and_reasoning() {
    let mut config = ProviderConfig::openrouter("multimodal-model").unwrap();
    config.api_key = ApiKeyRef::Literal("sk-test".into());
    let provider = ChatProvider::new(config);
    let inputs = vec![
        ContentPart::text("Describe these"),
        ContentPart::image_url("https://example.com/image.png"),
        ContentPart::pdf_bytes("doc.pdf", b"hello"),
        ContentPart::audio_bytes("wav", b"hello"),
        ContentPart::video_bytes("video/mp4", b"hello"),
    ];
    let annotation = json(
        r#"{"type": "file", "file": {"hash": "parsed-pdf-hash", "name": "doc.pdf", "content": [{"type": "text", "text": "Parsed document"}]}}"#,
    );
    let details = json(r#"[{"type": "reasoning.encrypted", "data": "opaque-state"}]"#);
    let first = ChatCompletionEnvelope {
        choices: vec![ChatCompletionChoice {
            message: AssistantWireMessage {
                content: Some(vec![ContentPart::text("Description")].into()),
                annotations: vec![annotation.clone()],
                reasoning: None,
                reasoning_content: None,
                reasoning_details: Some(details.clone()),
                tool_calls: Vec::new(),
            },
        }],
    }
    .into_response(JsonText::empty_object())
    .unwrap();

    let mut session = ChatSession::new();
    session.push_user(inputs.clone());
    let request = session.begin_completion(&provider, Vec::new());
    assert_eq!(request.model, "multimodal-model");
    assert_eq!(request.messages, vec![ChatMessage::user(inputs.clone())]);
    let reasoning = request.reasoning.as_ref().unwrap();
    assert_eq!(reasoning.enabled, Some(true));
    assert_eq!(reasoning.exclude, Some(false));
    session.finish_completion(&provider, &first);
    assert_eq!(first.message.content.text(), "Description");
    assert_eq!(first.message.annotations, vec![annotation]);
    assert_eq!(first.message.reasoning_details, Some(details));
    assert!(first.reasoning.is_some());

    session.push_user("Explain more");
    let followup = session.begin_completion(&provider, Vec::new());
    assert_eq!(
        followup.messages,
        vec![
            ChatMessage::user(inputs),
            first.message,
            ChatMessage::user("Explain more")
        ]
    );
    session.finish_completion(&provider, &answer("More detail"));
    assert_eq!(session.messages().len(), 4);
}

/// The answer that a stream of bytes holds, with the events on the way.
fn streamed(bytes: &[u8]) -> Result<(ChatResponse, Vec<StreamEvent>), Error> {
    let mut reader = ChunkReader::default();
    let mut accumulator = Accumulator::default();
    let mut events = Vec::new();
    for piece in bytes.chunks(7) {
        for data in reader.feed(piece)? {
            events.extend(accumulator.push(&parsed(&data)).unwrap());
        }
    }
    let Json::Object(entries) = accumulator.finish()? else {
        panic!("expected an object");
    };
    let Json::Array(choices) = &entries.iter().find(|entry| entry.0 == "choices").unwrap().1
    else {
        panic!("expected choices");
    };
    let Json::Object(choice) = &choices[0] else {
        panic!("expected a choice");
    };
    let Json::Object(message) = &choice.iter().find(|entry| entry.0 == "message").unwrap().1
    else {
        panic!("expected a message");
    };
    let Json::Str(content) = &message.iter().find(|entry| entry.0 == "content").unwrap().1 else {
        panic!("expected text");
    };
    Ok((answer(content), events))
}

#[test]
fn public_streams_commit_only_on_success() {
    let body = b"data: {\"choices\":[{\"index\":0,\"delta\":{\"content\":\"Hello\"},\"finish_reason\":null}]}\n\ndata: {\"choices\":[{\"index\":0,\"delta\":{},\"finish_reason\":\"stop\"}]}\n\ndata: [DONE]\n\n";
    let provider = llama();
    let registry: ToolRegistry<()> = ToolRegistry::new();
    let mut session = ChatSession::with_system_prompt("Test");
    session.config_mut().compaction.enabled = false;

    // A run on a copy that fails leaves the session as it was.
    let mut copy = session.clone();
    copy.push_user("Hi");
    let failed = run(
        &mut copy,
        &provider,
        &registry,
        |_| panic!("no tools"),
        |_| streamed(&body[..90]).map(|(response, _)| response),
    );
    assert!(failed.is_err());
    assert_eq!(session.messages().len(), 1);

    let mut copy = session.clone();
    copy.push_user("Hi");
    let response = run(
        &mut copy,
        &provider,
        &registry,
        |_| panic!("no tools"),
        |_| {
            let (response, events) = streamed(body)?;
            assert!(events
                .iter()
                .any(|event| matches!(event, StreamEvent::TextDelta { .. })));
            Ok(response)
        },
    )
    .unwrap();
    session = copy;
    assert_eq!(response.message.content.text(), "Hello");
    assert_eq!(session.messages().len(), 3);
}

#[test]
fn tool_macro_uses_rustdoc_and_executes_through_registry() {
    let plain = || Parameter::Typed {
        named: true,
        shared: false,
        roles: Vec::new(),
    };
    let plan = plan_tool(&vec![plain(), plain()]).unwrap();
    assert_eq!(
        plan.call(),
        vec![CallArgument::Field(0), CallArgument::Field(1)]
    );
    assert_eq!(generated_names("multiply").factory, "multiply_tool");
    let description = rustdoc_description(&vec![" Multiply two integers.".to_string()]);
    assert_eq!(description, "Multiply two integers.");

    let registry = ToolRegistry::new().with_tool(Tool::new(
        ToolDefinition::new("multiply", description, JsonText::empty_object()),
        (),
    ));
    let call = call("call_1", "multiply", r#"{"a":6,"b":7}"#);
    let (tool, arguments) = registry.prepare_call(&call).unwrap();
    assert_eq!(tool.definition().function.name, "multiply");
    assert_eq!(
        tool.definition().function.description,
        "Multiply two integers."
    );
    let arguments: Value = serde_json::from_str(arguments.as_str()).unwrap();
    let product = arguments["a"].as_i64().unwrap() * arguments["b"].as_i64().unwrap();
    let result = finish_call(&call, Ok(ToolOutput::Json(json(&product.to_string())))).unwrap();

    assert_eq!(result.content, "42");
}

#[test]
fn tool_macro_supports_context_argument_structs_and_fallible_handlers() {
    let role = |name: &str, shared: bool| Parameter::Typed {
        named: true,
        shared,
        roles: vec![RoleAttribute::Named(name.to_string())],
    };
    let plan = plan_tool(&vec![role("context", true), role("arguments", false)]).unwrap();
    assert_eq!(plan.contexts, vec![0]);
    assert_eq!(
        plan.call(),
        vec![CallArgument::Context(0), CallArgument::Whole]
    );
    let names = generated_names("add_offset");
    assert_eq!(names.factory, "add_offset_tool");
    assert_eq!(names.definition, "add_offset_tool_definition");

    let call = call("call_1", "add_offset", r#"{"value":-1}"#);
    let error = finish_call(&call, Err(Error::Tool("value must be non-negative".into())))
        .unwrap_err();
    assert!(error.to_string().contains("value must be non-negative"));
}
