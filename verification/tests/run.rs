use serde_json::Value;
use smolgent::json::JsonText;
use smolgent::session::instruction::instruction;
use smolgent::session::run::{ManagedRun, RunAction};
use smolgent::session::DecodedArguments;
use smolgent::tools::compact::{
    definitions, RemoveMessagesArgs, SummarizeMessagesArgs, COMPACT_REMOVE_MESSAGES,
    COMPACT_SUMMARIZE_MESSAGES,
};
use smolgent::tools::{finish_call, ToolOutput};
use smolgent::{
    AgentEvent, ChatMessage, ChatProvider, ChatRequest, ChatResponse, ChatSession,
    CompactionConfig, ContentPart, Error, MessageRole, NotificationConfig,
    ProviderConfig, SessionConfig, TelemetryConfig, TelemetryEvent, Tool, ToolCall,
    ToolCallFunction, ToolDefinition, ToolRegistry, ToolResult,
};

fn json(text: &str) -> JsonText {
    JsonText::parse(text).unwrap()
}

fn provider() -> ChatProvider {
    ChatProvider::new(ProviderConfig::llama_cpp("http://127.0.0.1:8080", "local-model").unwrap())
}

fn call(id: &str, name: &str, arguments: &str) -> ToolCall {
    ToolCall {
        id: id.to_string(),
        kind: "function".to_string(),
        function: ToolCallFunction {
            name: name.to_string(),
            arguments: arguments.to_string(),
        },
    }
}

fn answer(text: &str) -> ChatResponse {
    ChatResponse {
        message: ChatMessage::assistant(text),
        reasoning: None,
        raw: json("{}"),
    }
}

fn calls(tool_calls: Vec<ToolCall>) -> ChatResponse {
    ChatResponse {
        message: ChatMessage::assistant("").with_tool_calls(tool_calls),
        reasoning: None,
        raw: json("{}"),
    }
}

fn decode(call: &ToolCall) -> DecodedArguments {
    let value: Value = match serde_json::from_str(&call.function.arguments) {
        Ok(value) => value,
        Err(error) => {
            return DecodedArguments {
                remove: Err(error.to_string()),
                summarize: Err(error.to_string()),
            }
        }
    };
    let turn_ids: Vec<u64> = value["turn_ids"]
        .as_array()
        .map(|ids| ids.iter().map(|id| id.as_u64().unwrap()).collect())
        .unwrap_or_default();
    let reason = value["reason"].as_str().unwrap_or_default().to_string();
    DecodedArguments {
        remove: Ok(RemoveMessagesArgs {
            turn_ids: turn_ids.clone(),
            reason: reason.clone(),
        }),
        summarize: match value["summary"].as_str() {
            Some(summary) => Ok(SummarizeMessagesArgs {
                turn_ids,
                summary: summary.to_string(),
                reason,
            }),
            None => Err("missing field `summary`".to_string()),
        },
    }
}

fn add_registry() -> ToolRegistry<()> {
    ToolRegistry::new().with_tool(Tool::new(
        ToolDefinition::new(
            "add",
            "Add two numbers.",
            json(
                r#"{"type":"object","properties":{"a":{"type":"integer"},"b":{"type":"integer"}},"required":["a","b"]}"#,
            ),
        ),
        (),
    ))
}

fn execute(registry: &ToolRegistry<()>, call: &ToolCall) -> Result<ToolResult, Error> {
    let (_, arguments) = registry.prepare_call(call)?;
    let value: Value = serde_json::from_str(arguments.as_str()).unwrap();
    let sum = value["a"].as_i64().unwrap() + value["b"].as_i64().unwrap();
    finish_call(call, Ok(ToolOutput::Json(json(&sum.to_string()))))
}

fn run(
    session: &mut ChatSession,
    registry: &ToolRegistry<()>,
    mut model: impl FnMut(&ChatRequest) -> ChatResponse,
) -> Result<ChatResponse, Error> {
    let provider = provider();
    let mut run = ManagedRun::new(
        registry.definitions(),
        definitions(JsonText::empty_object(), JsonText::empty_object()),
    );
    let mut action = run.begin(session, &provider);
    loop {
        action = match action {
            RunAction::Send { request } => run.on_response(session, &provider, model(&request)),
            RunAction::Compact { call } => run.on_arguments(session, &provider, decode(&call)),
            RunAction::CallTool { call } => {
                let outcome = execute(registry, &call);
                run.on_outcome(session, &provider, outcome).0
            }
            RunAction::Finish { response } => return Ok(response),
            RunAction::Stop { error } => return Err(error),
        };
    }
}

fn is_compaction_request(request: &ChatRequest) -> bool {
    request
        .messages
        .last()
        .unwrap()
        .content
        .text()
        .contains("Context compaction is required")
}

fn mentions(request: &ChatRequest, text: &str) -> bool {
    request
        .messages
        .iter()
        .any(|message| message.content.text().contains(text))
}

#[test]
fn compaction_rounds_rebuild_history_and_instructions_after_edits() {
    for tool_name in [COMPACT_REMOVE_MESSAGES, COMPACT_SUMMARIZE_MESSAGES] {
        let arguments = if tool_name == COMPACT_REMOVE_MESSAGES {
            r#"{"turn_ids": [2], "reason": "obsolete"}"#
        } else {
            r#"{"turn_ids": [2], "summary": "Keep this conclusion", "reason": "condensed"}"#
        };
        let config = CompactionConfig {
            trigger_estimated_tokens: 1,
            target_estimated_tokens: 0,
            max_compaction_rounds: 2,
            protect_recent_turns: 0,
            ..CompactionConfig::default()
        };
        let (mut session, _, _) = ChatSession::with_config_and_telemetry(SessionConfig {
            compaction: config,
            telemetry: TelemetryConfig {
                model_payloads: true,
                ..TelemetryConfig::default()
            },
            ..SessionConfig::default()
        });
        session.push_system("system");
        session.push_user("OLD_PAYLOAD_TO_REMOVE");
        session.push_user("current question");

        let mut compacted = None;
        let mut rounds = 0;
        let provider = provider();
        let mut managed = ManagedRun::new(
            Vec::new(),
            definitions(JsonText::empty_object(), JsonText::empty_object()),
        );
        let mut action = managed.begin(&mut session, &provider);
        while compacted.is_none() {
            action = match action {
                RunAction::Send { request } if is_compaction_request(&request) => {
                    rounds += 1;
                    if rounds == 1 {
                        assert!(mentions(&request, "OLD_PAYLOAD_TO_REMOVE"));
                        managed.on_response(
                            &mut session,
                            &provider,
                            calls(vec![call("compact_1", tool_name, arguments)]),
                        )
                    } else {
                        assert!(mentions(&request, "Compaction acknowledged:"));
                        let before = session.clone();
                        let action =
                            managed.on_response(&mut session, &provider, answer("Done"));
                        compacted = Some((request, before));
                        action
                    }
                }
                RunAction::Compact { call } => {
                    managed.on_arguments(&mut session, &provider, decode(&call))
                }
                other => panic!("unexpected action {other:?}"),
            };
        }
        assert!(matches!(action, RunAction::Send { .. }));

        let requests = session
            .take_telemetry()
            .into_iter()
            .filter_map(|event| match event {
                TelemetryEvent::ModelRequest { request, .. } => request,
                _ => None,
            })
            .collect::<Vec<_>>();
        assert_eq!(rounds, 2);
        let (second, session) = compacted.unwrap();
        assert_eq!(requests[1], second);
        let mut messages = second.messages.clone();
        let last = messages.pop().unwrap();
        assert_eq!(messages, session.messages());
        assert!(!mentions(&second, "OLD_PAYLOAD_TO_REMOVE"));
        assert_eq!(
            last,
            ChatMessage::system(instruction(
                &config,
                &session.context_usage_breakdown_with_limit(config.top_consumers),
            ))
        );
        assert_eq!(messages[messages.len() - 2].tool_calls[0].id, "compact_1");
        assert_eq!(
            messages.last().unwrap().tool_call_id.as_deref(),
            Some("compact_1")
        );
        if tool_name == COMPACT_SUMMARIZE_MESSAGES {
            assert!(messages
                .iter()
                .any(|message| message.content.text().contains("Keep this conclusion")));
        }
    }
}

#[test]
fn unsuccessful_compaction_retries_only_on_the_next_agent_run() {
    // Cover both a declined attempt and an attempt that exhausts its tool-round budget.
    for declined in [true, false] {
        let (mut session, _) = ChatSession::with_config(SessionConfig {
            compaction: CompactionConfig {
                trigger_estimated_tokens: 1,
                target_estimated_tokens: 0,
                max_compaction_rounds: 1,
                ..CompactionConfig::default()
            },
            ..SessionConfig::default()
        });
        let (mut compact, mut tool, mut answers) = (0, 0, 0);
        for round in 1..=2 {
            session.push_user("Please answer");
            let registry: ToolRegistry<()> = ToolRegistry::new();
            let response = run(&mut session, &registry, |request| {
                let last = request.messages.last().unwrap();
                if is_compaction_request(request) {
                    compact += 1;
                    if declined {
                        answer("Nothing to compact")
                    } else {
                        calls(vec![call(
                            "invalid_compaction",
                            COMPACT_REMOVE_MESSAGES,
                            "{\"turn_ids\":[999]}",
                        )])
                    }
                } else if last.role == MessageRole::User
                    || last.tool_call_id.as_deref() == Some("invalid_compaction")
                {
                    tool += 1;
                    calls(vec![call("normal_tool", "missing_tool", "{}")])
                } else {
                    assert_eq!(last.role, MessageRole::Tool);
                    assert_eq!(last.tool_call_id.as_deref(), Some("normal_tool"));
                    answers += 1;
                    answer("answer")
                }
            })
            .unwrap();
            assert_eq!(response.message.content, "answer");
            assert_eq!(compact, round);
        }
        assert_eq!(tool, 2);
        assert_eq!(answers, 2);
    }
}

#[test]
fn a_missed_target_ends_compaction_for_the_run() {
    let (mut session, _) = ChatSession::with_config(SessionConfig {
        compaction: CompactionConfig {
            trigger_estimated_tokens: 1,
            target_estimated_tokens: 0,
            max_compaction_rounds: 1,
            ..CompactionConfig::default()
        },
        ..SessionConfig::default()
    });
    session.push_user("a message that is long enough to be counted");
    let registry = add_registry();
    for _ in 0..2 {
        let mut attempts = 0;
        let mut rounds = 0;
        run(&mut session, &registry, |request| {
            if is_compaction_request(request) {
                attempts += 1;
                return answer("nothing to remove");
            }
            rounds += 1;
            match rounds {
                1 | 2 => calls(vec![
                    call(&format!("a{rounds}"), "add", r#"{"a":1,"b":2}"#),
                    call(
                        &format!("c{rounds}"),
                        COMPACT_REMOVE_MESSAGES,
                        r#"{"turn_ids":[99],"reason":"none"}"#,
                    ),
                ]),
                _ => answer("done"),
            }
        })
        .unwrap();
        assert_eq!((attempts, rounds), (1, 3));
    }
}

#[test]
fn managed_loop_compacts_before_normal_request() {
    let (mut session, _receiver) = ChatSession::with_system_prompt_and_config(
        "system",
        SessionConfig {
            compaction: CompactionConfig {
                trigger_estimated_tokens: 10,
                target_estimated_tokens: 1_000,
                protect_recent_turns: 0,
                ..CompactionConfig::default()
            },
            ..SessionConfig::default()
        },
    );
    session.push_user("old huge content old huge content old huge content");
    session.push_user("fresh question");

    let (mut compactions, mut answers) = (0, 0);
    let response = run(&mut session, &ToolRegistry::new(), |request| {
        if is_compaction_request(request) {
            compactions += 1;
            assert!(mentions(request, "old huge content"));
            assert!(request
                .tools
                .iter()
                .any(|tool| tool.name() == COMPACT_REMOVE_MESSAGES));
            calls(vec![call(
                "compact_1",
                COMPACT_REMOVE_MESSAGES,
                "{\"turn_ids\":[2],\"reason\":\"obsolete\"}",
            )])
        } else {
            answers += 1;
            assert!(mentions(request, "fresh question"));
            answer("fresh answer")
        }
    })
    .unwrap();

    assert_eq!((compactions, answers), (1, 1));
    assert_eq!(response.message.content, "fresh answer");
    assert!(session
        .turns()
        .iter()
        .all(|turn| !turn.content.text().contains("old huge content")));
    assert!(session
        .turns()
        .iter()
        .any(|turn| turn.name.as_deref() == Some(COMPACT_REMOVE_MESSAGES)
            && turn.content.text().starts_with("Compaction acknowledged:")));
}

#[test]
fn managed_tool_loop_runs_tools_and_emits_events() {
    let registry = add_registry();
    let (mut session, receiver) = ChatSession::with_config(SessionConfig {
        notifications: NotificationConfig {
            tool_calls: true,
            tool_results: true,
            ..NotificationConfig::default()
        },
        ..SessionConfig::default()
    });
    assert!(receiver.is_some());
    session.push_user("add 2 and 3");
    let mut requests = 0;
    let response = run(&mut session, &registry, |request| {
        requests += 1;
        let last = request.messages.last().unwrap();
        if last.role == MessageRole::User {
            assert_eq!(request.messages, vec![ChatMessage::user("add 2 and 3")]);
            assert!(request.tools.iter().any(|tool| tool.name() == "add"));
            calls(vec![call("call_1", "add", "{\"a\":2,\"b\":3}")])
        } else {
            assert_eq!(last.role, MessageRole::Tool);
            assert_eq!(last.content, "5");
            answer("2 + 3 = 5")
        }
    })
    .unwrap();

    assert_eq!(requests, 2);
    assert_eq!(response.message.content, "2 + 3 = 5");
    let events = session.take_events();
    assert!(events.iter().any(
        |event| matches!(event, AgentEvent::ToolCallStarted { name, arguments: None, .. } if name == "add")
    ));
    assert!(events.iter().any(|event| matches!(event, AgentEvent::ToolCallFinished { name, content_len, .. } if name == "add" && *content_len == 1)));
}

#[test]
fn managed_tool_loop_runs_mixed_compaction_and_registry_tools() {
    let registry = add_registry();
    let (mut session, _receiver) = ChatSession::with_config(SessionConfig {
        compaction: CompactionConfig {
            protect_recent_turns: 0,
            ..CompactionConfig::default()
        },
        ..SessionConfig::default()
    });
    session.push_user("old context");
    session.push_user("add 2 and 3");
    let response = run(&mut session, &registry, |request| {
        if request.messages.last().unwrap().role == MessageRole::User {
            assert_eq!(
                request.messages,
                vec![
                    ChatMessage::user("old context"),
                    ChatMessage::user("add 2 and 3")
                ]
            );
            for name in [COMPACT_SUMMARIZE_MESSAGES, "add"] {
                assert!(request.tools.iter().any(|tool| tool.name() == name));
            }
            calls(vec![
                call(
                    "compact_1",
                    COMPACT_SUMMARIZE_MESSAGES,
                    "{\"turn_ids\":[1],\"summary\":\"The user mentioned old context.\",\"reason\":\"keep context short\"}",
                ),
                call("call_1", "add", "{\"a\":2,\"b\":3}"),
            ])
        } else {
            assert!(mentions(request, "Compaction acknowledged:"));
            assert!(request
                .messages
                .iter()
                .any(|message| message.role == MessageRole::Tool && message.content == "5"));
            answer("2 + 3 = 5")
        }
    })
    .unwrap();

    assert_eq!(response.message.content, "2 + 3 = 5");
    assert!(session.turns().iter().any(|turn| turn.name.as_deref()
        == Some(COMPACT_SUMMARIZE_MESSAGES)
        && turn.content.text().starts_with("Compaction acknowledged:")));
    assert!(session
        .turns()
        .iter()
        .any(|turn| turn.name.as_deref() == Some("add") && turn.content == "5"));
}

#[test]
fn managed_tool_loop_preserves_media_across_tool_continuation() {
    let user = ChatMessage::user(vec![ContentPart::image_url(
        "https://example.com/image.png",
    )]);
    let (mut session, _) = ChatSession::with_config(SessionConfig {
        compaction: CompactionConfig::disabled(),
        ..SessionConfig::default()
    });
    session.push_user(user.content.clone());
    let mut requests = 0;
    run(&mut session, &ToolRegistry::new(), |request| {
        requests += 1;
        if requests == 1 {
            assert_eq!(request.messages, vec![user.clone()]);
            return calls(vec![call("call_1", "missing", "{}")]);
        }
        assert_eq!(
            request.messages,
            vec![
                user.clone(),
                ChatMessage::assistant("").with_tool_calls(vec![call("call_1", "missing", "{}")]),
                ChatMessage::tool_result(
                    "call_1",
                    "missing",
                    "Tool error: unknown tool 'missing'\nPlease correct the tool call arguments and try again."
                ),
            ]
        );
        answer("Done")
    })
    .unwrap();
    assert_eq!(requests, 2);
    assert_eq!(session.messages()[0], user);
}

#[test]
fn tool_rounds_are_bounded() {
    let registry = add_registry();
    let (mut session, _) = ChatSession::with_config(SessionConfig {
        max_tool_rounds: 2,
        notifications: NotificationConfig::all(),
        ..SessionConfig::default()
    });
    session.push_user("loop");
    let mut requests = 0;
    let error = run(&mut session, &registry, |_| {
        requests += 1;
        calls(vec![call("c", "add", "{\"a\":1,\"b\":1}")])
    })
    .unwrap_err();
    assert!(matches!(error, Error::Tool(_)), "{error:?}");
    assert_eq!(requests, 3);
    assert!(session
        .take_events()
        .iter()
        .any(|event| matches!(event, AgentEvent::MaxToolRoundsReached { max_tool_rounds: 2 })));
}

#[test]
fn disabled_compaction_never_happens() {
    let (mut session, _) = ChatSession::with_config(SessionConfig {
        compaction: CompactionConfig {
            trigger_estimated_tokens: 1,
            ..CompactionConfig::disabled()
        },
        ..SessionConfig::default()
    });
    session.push_user("a message of some length");
    run(&mut session, &ToolRegistry::new(), |request| {
        assert!(!is_compaction_request(request));
        assert!(request.tools.is_empty());
        answer("done")
    })
    .unwrap();
}

#[test]
fn tool_failures_are_answered_and_the_run_goes_on() {
    let (mut session, _) = ChatSession::with_config(SessionConfig::default());
    session.push_user("try");
    let response = run(&mut session, &add_registry(), |request| {
        if request.messages.last().unwrap().role == MessageRole::User {
            calls(vec![
                call("c1", "missing", "{}"),
                call("c2", "add", "not json"),
                call("c3", "add", "{\"a\":1,\"b\":1}"),
            ])
        } else {
            let results: Vec<_> = request.messages[2..].to_vec();
            assert_eq!(results.len(), 3);
            assert!(results[0].content.text().contains("unknown tool 'missing'"));
            assert!(results[1].content.text().starts_with("Tool error: "));
            assert_eq!(results[2].content, "2");
            answer("done")
        }
    })
    .unwrap();
    assert_eq!(response.message.content, "done");
}
