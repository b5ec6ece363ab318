use smolgent::json::JsonText;
use smolgent::session::compaction::estimate_tokens_from_chars;
use smolgent::session::DecodedArguments;
use smolgent::tools::compact::{
    RemoveMessagesArgs, SummarizeMessagesArgs, COMPACT_REMOVE_MESSAGES,
    COMPACT_SUMMARIZE_MESSAGES,
};
use smolgent::tools::{finish_call, report_call, ToolOutput};
use smolgent::{
    AgentEvent, ChatMessage, ChatProvider, ChatResponse, ChatSession, CompactionConfig,
    ContentPart, Error, MessageContent, MessageRole, NotificationConfig, ProviderConfig,
    ReasoningPayload, SessionConfig, SessionTurn, TelemetryConfig, TelemetryEvent, ToolCall,
    ToolCallFunction, ToolRegistry,
};

fn json(text: &str) -> JsonText {
    JsonText::parse(text).unwrap()
}

fn call(id: &str, name: &str, arguments: &str) -> ToolCall {
    ToolCall {
        id: id.to_string(),
        kind: "function".to_string(),
        function: ToolCallFunction {
            name: name.to_string(),
            arguments: arguments.to_string(),
        },
    }
}

fn unprotected() -> SessionConfig {
    SessionConfig {
        compaction: CompactionConfig {
            protect_recent_turns: 0,
            ..CompactionConfig::default()
        },
        ..SessionConfig::default()
    }
}

fn undecoded() -> DecodedArguments {
    DecodedArguments {
        remove: Err("not for this call".to_string()),
        summarize: Err("not for this call".to_string()),
    }
}

#[test]
fn compaction_keeps_unselected_media_and_annotations_when_removing_tool_calls() {
    let (mut session, _) = ChatSession::with_config(unprotected());
    session.push_system("system");
    let media = ChatMessage::assistant(vec![ContentPart::image_url(
        "https://example.com/image.png",
    )]);
    session.push(media.clone());
    let mut annotated = ChatMessage::assistant("");
    annotated.annotations = vec![json(
        r#"{"type": "file", "file": {"hash": "parsed", "content": []}}"#,
    )];
    session.push(annotated.clone());
    session.push(ChatMessage::assistant("").with_tool_calls(vec![call("call_1", "read", "{}")]));
    session.push(ChatMessage::tool_result("call_1", "read", "stale contents"));
    session
        .compact_remove_messages(&vec![5], "stale read")
        .unwrap();
    assert_eq!(
        session.messages(),
        vec![ChatMessage::system("system"), media, annotated]
    );
}

fn reasoning_is_preserved() {
    let mut session = ChatSession::new();
    session.push(
        ChatMessage::assistant("answer").with_reasoning(ReasoningPayload {
            reasoning: Some(json("\"raw reasoning\"")),
            reasoning_content: Some("text reasoning".to_string()),
            reasoning_details: Some(json(r#"[{ "type": "reasoning.text" }]"#)),
        }),
    );

    let message = session.messages().pop().unwrap();
    assert_eq!(message.reasoning, Some(json("\"raw reasoning\"")));
    assert_eq!(
        message.reasoning_content,
        Some("text reasoning".to_string())
    );
    assert_eq!(
        message.reasoning_details,
        Some(json(r#"[{ "type": "reasoning.text" }]"#))
    );
}

#[test]
fn session_sessions_preserve_reasoning_in_history() {
    reasoning_is_preserved();
}

#[test]
fn tests_sessions_preserve_reasoning_in_history() {
    reasoning_is_preserved();
}

fn tool_calls_are_preserved() {
    let mut session = ChatSession::new();
    session.push(ChatMessage::assistant("").with_tool_calls(vec![call(
        "call_1",
        "read",
        r#"{"path":"Cargo.toml"}"#,
    )]));
    session.push(ChatMessage::tool_result(
        "call_1",
        "read",
        "[package]\nname = \"smolgent\"\n",
    ));

    let messages = session.messages();

    assert_eq!(messages[0].tool_calls.len(), 1);
    assert_eq!(messages[0].tool_calls[0].id, "call_1");
    assert_eq!(messages[1].tool_call_id.as_deref(), Some("call_1"));
    assert_eq!(messages[1].name.as_deref(), Some("read"));
}

#[test]
fn session_sessions_preserve_tool_call_history() {
    tool_calls_are_preserved();
}

#[test]
fn tests_sessions_preserve_tool_call_history() {
    tool_calls_are_preserved();
}

#[test]
fn context_usage_estimates_turns_and_tool_calls() {
    let mut session = ChatSession::new();
    session.push_system("system");
    session.push(ChatMessage::assistant("").with_tool_calls(vec![call(
        "call_1",
        "read",
        r#"{"path":"src/lib.rs"}"#,
    )]));
    session.push(ChatMessage::tool_result(
        "call_1",
        "read",
        "large file contents",
    ));

    let breakdown = session.context_usage_breakdown();

    assert!(breakdown.total_estimated_tokens > 0);
    assert_eq!(breakdown.largest_tool_calls.len(), 1);
    assert_eq!(breakdown.largest_tool_calls[0].tool_call_id, "call_1");
    assert_eq!(breakdown.largest_tool_calls[0].result_turn_ids, vec![3]);
}

#[test]
fn compaction_removes_tool_result_and_matching_request() {
    let (mut session, _receiver) = ChatSession::with_config(unprotected());
    session.push_system("system");
    session.push(ChatMessage::assistant("").with_tool_calls(vec![call(
        "call_1",
        "read",
        r#"{"path":"src/lib.rs"}"#,
    )]));
    session.push(ChatMessage::tool_result("call_1", "read", "contents"));

    let tool_turn_id = session.turns()[2].id;
    session
        .compact_remove_messages(&vec![tool_turn_id], "stale read")
        .unwrap();

    let messages = session.messages();
    assert_eq!(messages.len(), 1);
    assert_eq!(messages[0].role, MessageRole::System);
}

#[test]
fn compaction_summarizes_selected_messages() {
    let (mut session, _receiver) = ChatSession::with_config(unprotected());
    session.push_system("system");
    session.push_user("old question");
    session.push_assistant("old answer");

    let old_ids = vec![session.turns()[1].id, session.turns()[2].id];
    session
        .compact_summarize_messages(&old_ids, "The old answer was useful.", "old topic")
        .unwrap();

    assert_eq!(session.turns().len(), 2);
    assert_eq!(session.turns()[0].content, "system");
    assert!(session.turns()[1]
        .content
        .text()
        .contains("The old answer was useful."));
}

#[test]
fn explicit_compaction_cleanup_removes_prior_compaction_tool_messages() {
    let mut session = ChatSession::new();
    session.push_system("system");
    session.push(ChatMessage::assistant("").with_tool_calls(vec![call(
        "compact_old",
        COMPACT_REMOVE_MESSAGES,
        r#"{"turn_ids":[2],"reason":"old"}"#,
    )]));
    session.push(ChatMessage::tool_result(
        "compact_old",
        COMPACT_REMOVE_MESSAGES,
        "Compaction acknowledged: removed selected context.",
    ));
    session.push_system("Compacted context summary: keep this useful summary");

    let removed = session.remove_previous_compaction_tool_messages();

    assert_eq!(removed, 2);
    assert_eq!(session.turns().len(), 2);
    assert!(session
        .turns()
        .iter()
        .any(|turn| turn.content.text().contains("keep this useful summary")));
    assert!(session
        .turns()
        .iter()
        .all(|turn| turn.name.as_deref() != Some(COMPACT_REMOVE_MESSAGES)));
}

fn tool_errors_are_recorded() {
    let mut session = ChatSession::new();
    let response = ChatResponse {
        message: ChatMessage::assistant("").with_tool_calls(vec![call(
            "call_1",
            "read",
            r#"{"path":"Cargo.toml"}"#,
        )]),
        reasoning: None,
        raw: json("{}"),
    };

    let registry: ToolRegistry<()> = ToolRegistry::new();
    let mut results = Vec::new();
    for call in &response.message.tool_calls {
        session.begin_tool_call(call, None);
        let outcome = match registry.prepare_call(call) {
            Ok(_) => panic!("no tool is registered"),
            Err(error) => Err(error),
        };
        results.push(session.finish_tool_call(call, None, outcome));
    }
    let messages = session.messages();

    assert_eq!(results.len(), 1);
    assert_eq!(messages.len(), 1);
    assert!(results[0]
        .content
        .text()
        .contains("Tool error: unknown tool 'read'"));
    assert_eq!(messages[0].tool_call_id.as_deref(), Some("call_1"));
    assert_eq!(messages[0].name.as_deref(), Some("read"));
}

#[test]
fn session_sessions_can_record_tool_errors_without_failing() {
    tool_errors_are_recorded();
}

#[test]
fn tests_sessions_can_record_tool_errors_without_failing() {
    tool_errors_are_recorded();
}

#[test]
fn configured_sessions_create_bounded_event_streams() {
    let config = SessionConfig {
        max_tool_rounds: 3,
        notifications: NotificationConfig::tools(),
        ..SessionConfig::default()
    };
    assert_eq!(config.event_channel_capacity(), 12);

    let (_session, receiver) = ChatSession::with_config(config);

    assert_eq!(receiver, Some(12));

    let config = SessionConfig {
        max_tool_rounds: 3,
        event_channel_capacity: Some(2),
        notifications: NotificationConfig::tools(),
        compaction: CompactionConfig::default(),
        telemetry: TelemetryConfig::default(),
        telemetry_channel_capacity: None,
    };
    assert_eq!(config.event_channel_capacity(), 2);

    let (_session, receiver) = ChatSession::with_config(SessionConfig {
        notifications: NotificationConfig::none(),
        ..SessionConfig::default()
    });

    assert!(receiver.is_none());
}

#[test]
fn configured_sessions_create_bounded_telemetry_streams() {
    let config = SessionConfig {
        telemetry: TelemetryConfig::messages(),
        telemetry_channel_capacity: Some(3),
        ..SessionConfig::default()
    };
    assert_eq!(config.telemetry_channel_capacity(), 3);

    let (mut session, events, telemetry) = ChatSession::with_config_and_telemetry(config);
    assert!(events.is_none());
    assert_eq!(telemetry, Some(3));

    session.push_user("hello");
    session.push_assistant("hi");

    assert_eq!(
        session.take_telemetry(),
        vec![
            TelemetryEvent::UserMessage {
                turn_id: 1,
                content_len: 5,
                content: Some("hello".to_string()),
            },
            TelemetryEvent::AssistantMessage {
                turn_id: 2,
                content_len: 2,
                tool_calls: 0,
                content: Some("hi".to_string()),
            },
        ]
    );
    assert_eq!(session.take_telemetry(), vec![]);
}

#[test]
fn tool_telemetry_redacts_payloads_unless_enabled() {
    let (mut session, _events, telemetry) =
        ChatSession::with_config_and_telemetry(SessionConfig {
            telemetry: TelemetryConfig::tools(),
            ..SessionConfig::default()
        });
    assert!(telemetry.is_some());
    let call = call("call_1", "read", r#"{"path":"secret.txt"}"#);
    session.emit_tool_call_started_telemetry(&call);

    assert_eq!(
        session.take_telemetry(),
        vec![TelemetryEvent::ToolCallStarted {
            tool_call_id: "call_1".to_string(),
            name: "read".to_string(),
            arguments_len: r#"{"path":"secret.txt"}"#.len(),
            arguments: None,
        }]
    );

    let (mut session, _events, telemetry) =
        ChatSession::with_config_and_telemetry(SessionConfig {
            telemetry: TelemetryConfig::all(),
            ..SessionConfig::default()
        });
    assert!(telemetry.is_some());
    session.emit_tool_call_started_telemetry(&call);

    assert_eq!(
        session.take_telemetry(),
        vec![TelemetryEvent::ToolCallStarted {
            tool_call_id: "call_1".to_string(),
            name: "read".to_string(),
            arguments_len: r#"{"path":"secret.txt"}"#.len(),
            arguments: Some(r#"{"path":"secret.txt"}"#.to_string()),
        }]
    );
}

#[test]
fn proactive_compaction_calls_are_persisted_as_acknowledgements() {
    let (mut session, _receiver) = ChatSession::with_system_prompt_and_config(
        "system",
        SessionConfig {
            compaction: CompactionConfig {
                trigger_estimated_tokens: usize::MAX,
                protect_recent_turns: 0,
                ..CompactionConfig::default()
            },
            ..SessionConfig::default()
        },
    );
    session.push_user("old topic");
    session.push_user("new topic");

    let request = call(
        "compact_1",
        COMPACT_REMOVE_MESSAGES,
        r#"{"turn_ids":[2],"reason":"stale"}"#,
    );
    session.push(ChatMessage::assistant("").with_tool_calls(vec![request.clone()]));
    let result = session.execute_compaction_tool_call(
        &request,
        DecodedArguments {
            remove: Ok(RemoveMessagesArgs {
                turn_ids: vec![2],
                reason: "stale".to_string(),
            }),
            ..undecoded()
        },
    );
    session.push(result.into_message());

    let acknowledgement = session
        .turns()
        .iter()
        .find(|turn| turn.name.as_deref() == Some(COMPACT_REMOVE_MESSAGES))
        .unwrap();

    assert!(session.turns().iter().any(|turn| {
        turn.tool_calls
            .iter()
            .any(|call| call.function.name == COMPACT_REMOVE_MESSAGES)
    }));
    assert!(acknowledgement
        .content
        .text()
        .starts_with("Compaction acknowledged:"));
    assert!(!acknowledgement.content.text().contains("old topic"));
}

#[test]
fn model_payload_telemetry_captures_request_and_response() {
    let provider =
        ChatProvider::new(ProviderConfig::llama_cpp("http://127.0.0.1:8080", "local-model").unwrap());
    let (mut session, _events, telemetry) =
        ChatSession::with_config_and_telemetry(SessionConfig {
            telemetry: TelemetryConfig::all(),
            ..SessionConfig::default()
        });
    assert!(telemetry.is_some());

    session.push_user("ping");
    let request = session.begin_completion(&provider, Vec::new());
    assert_eq!(request.model, "local-model");
    let response = ChatResponse {
        message: ChatMessage::assistant("pong"),
        reasoning: None,
        raw: json("{}"),
    };
    session.finish_completion(&provider, &response);

    assert_eq!(session.messages()[1].content, "pong");
    let events = session.take_telemetry();
    assert_eq!(events.len(), 4);
    assert!(events.iter().any(|event| matches!(
        event,
        TelemetryEvent::ModelRequest {
            request: Some(request),
            message_count: 1,
            ..
        } if request.messages[0].content == "ping"
    )));
    assert!(events.iter().any(|event| matches!(
        event,
        TelemetryEvent::ModelResponse {
            response: Some(response),
            content_len: 4,
            ..
        } if response.message.content == "pong"
    )));
}

#[test]
fn media_does_not_leak_into_text_telemetry_or_count_as_text_tokens() {
    let (mut session, _, telemetry) = ChatSession::with_config_and_telemetry(SessionConfig {
        telemetry: TelemetryConfig::messages(),
        ..SessionConfig::default()
    });
    assert!(telemetry.is_some());
    session.push_user(vec![
        ContentPart::text("Look"),
        ContentPart::image_bytes("image/png", &vec![42; 100_000]),
    ]);
    let usage = session.context_usage_breakdown();
    assert!(usage.total_bytes > 100_000);
    assert_eq!(usage.total_estimated_tokens, 1);
    assert_eq!(usage.largest_turns[0].summary, "Look");
    assert!(matches!(&session.take_telemetry()[0],
        TelemetryEvent::UserMessage { content: Some(text), content_len, .. }
        if text == "Look" && *content_len > 100_000));
}

// ---------------------------------------------------------------------------------------------

#[test]
fn tokens_are_estimated_from_characters() {
    for (chars, tokens) in [(0, 0), (1, 1), (4, 1), (5, 2), (8, 2)] {
        assert_eq!(estimate_tokens_from_chars(chars), tokens);
    }
}

#[test]
fn usage_is_ranked_and_bounded() {
    let mut session = ChatSession::new();
    session.push_user("short");
    session.push_user("a much longer message than the others");
    session.push_user("medium message");
    let usage = session.context_usage_breakdown_with_limit(2);
    let ids: Vec<u64> = usage.largest_turns.iter().map(|turn| turn.turn_id).collect();
    assert_eq!(ids, vec![2, 3]);
    assert_eq!(usage.total_estimated_tokens, session.estimated_context_tokens());
}

#[test]
fn ranking_keeps_the_order_of_equal_turns() {
    let mut session = ChatSession::new();
    for _ in 0..4 {
        session.push_user("same");
    }
    let usage = session.context_usage_breakdown();
    let ids: Vec<u64> = usage.largest_turns.iter().map(|turn| turn.turn_id).collect();
    assert_eq!(ids, vec![1, 2, 3, 4]);
}

#[test]
fn recent_turns_and_the_root_prompt_are_protected() {
    let (mut session, _) = ChatSession::with_config(SessionConfig {
        compaction: CompactionConfig {
            protect_recent_turns: 2,
            ..CompactionConfig::default()
        },
        ..SessionConfig::default()
    });
    session.push_system("system");
    session.push_user("one");
    session.push_user("two");
    session.push_user("three");
    let before = session.clone();
    for (ids, message) in [
        (vec![1], "turn_id 1 is protected"),
        (vec![2, 3], "turn_id 3 is protected"),
        (vec![4], "turn_id 4 is protected"),
        (vec![99], "unknown turn_id 99"),
        (vec![], "compaction requires at least one turn_id"),
    ] {
        assert_eq!(
            session.compact_remove_messages(&ids, "stale").unwrap_err(),
            Error::Tool(message.to_string())
        );
        assert_eq!(session.messages(), before.messages());
    }
    session.compact_remove_messages(&vec![2], "stale").unwrap();
    let left: Vec<u64> = session.turns().iter().map(|turn| turn.id).collect();
    assert_eq!(left, vec![1, 3, 4]);
}

#[test]
fn a_request_takes_its_answers_along() {
    let (mut session, _) = ChatSession::with_config(unprotected());
    session.push_system("system");
    session.push(ChatMessage::assistant("").with_tool_calls(vec![
        call("a", "read", "{}"),
        call("b", "read", "{}"),
    ]));
    session.push(ChatMessage::tool_result("a", "read", "first"));
    session.push(ChatMessage::tool_result("b", "read", "second"));
    session.push_user("next");
    let mut whole = session.clone();
    whole.compact_remove_messages(&vec![2], "stale").unwrap();
    let left: Vec<u64> = whole.turns().iter().map(|turn| turn.id).collect();
    assert_eq!(left, vec![1, 5]);
    // Removing one answer removes its call from the request, and no more.
    session.compact_remove_messages(&vec![3], "stale").unwrap();
    let left: Vec<u64> = session.turns().iter().map(|turn| turn.id).collect();
    assert_eq!(left, vec![1, 2, 4, 5]);
    assert_eq!(session.turns()[1].tool_calls, vec![call("b", "read", "{}")]);
}

#[test]
fn requests_and_answers_stay_together() {
    let (mut session, _) = ChatSession::with_config(unprotected());
    session.push_system("system");
    session.push(ChatMessage::assistant("thinking").with_tool_calls(vec![
        call("a", "read", "{}"),
        call("b", "read", "{}"),
    ]));
    session.push(ChatMessage::tool_result("a", "read", "first"));
    session.push(ChatMessage::tool_result("b", "read", "second"));
    session.push_user("next");
    for selected in [vec![2], vec![3], vec![4], vec![3, 4], vec![5], vec![2, 3]] {
        let mut edited = session.clone();
        edited.compact_remove_messages(&selected, "stale").unwrap();
        let requested: Vec<&str> = edited
            .turns()
            .iter()
            .flat_map(|turn| turn.tool_calls.iter().map(|call| call.id.as_str()))
            .collect();
        let answered: Vec<&str> = edited
            .turns()
            .iter()
            .filter_map(|turn| turn.tool_call_id.as_deref())
            .collect();
        assert_eq!(requested, answered, "{selected:?}");
    }
}

#[test]
fn cleanup_is_done_once() {
    let mut session = ChatSession::new();
    session.push_system("system");
    session.push(ChatMessage::assistant("").with_tool_calls(vec![
        call("old", COMPACT_REMOVE_MESSAGES, "{}"),
    ]));
    session.push(ChatMessage::tool_result("old", COMPACT_REMOVE_MESSAGES, "done"));
    session.push_system("summary");
    session.push_user("next");
    assert_eq!(session.remove_previous_compaction_tool_messages(), 2);
    let clean = session.clone();
    assert_eq!(session.remove_previous_compaction_tool_messages(), 0);
    assert_eq!(session.turns(), clean.turns());
    let kept: Vec<String> = session.turns().iter().map(|turn| turn.content.text()).collect();
    assert_eq!(kept, vec!["system", "summary", "next"]);
}

#[test]
fn a_summary_stands_for_what_it_removes() {
    let (mut session, _) = ChatSession::with_config(unprotected());
    session.push_system("system");
    session.push_user("one");
    session.push_user("two");
    session.push_user("three");
    assert!(session
        .compact_summarize_messages(&vec![2], "  ", "why")
        .is_err());
    let message = session
        .compact_summarize_messages(&vec![2, 3], "both", "old")
        .unwrap();
    assert!(!message.is_empty());
    let left: Vec<u64> = session.turns().iter().map(|turn| turn.id).collect();
    assert_eq!(left.len(), 3);
    assert!(left.contains(&1) && left.contains(&4) && left.contains(&5));
    assert!(session
        .turns()
        .iter()
        .any(|turn| turn.role == MessageRole::System && turn.content.text().contains("both")));
}

#[test]
fn compaction_tools_report_their_errors() {
    let mut session = ChatSession::new();
    session.push_system("system");
    for (name, arguments) in [
        (COMPACT_REMOVE_MESSAGES, ""),
        (COMPACT_REMOVE_MESSAGES, "{"),
        (COMPACT_SUMMARIZE_MESSAGES, " "),
        ("other", "{}"),
    ] {
        let result =
            session.execute_compaction_tool_call(&call("c", name, arguments), undecoded());
        assert_eq!(result.tool_call_id, "c");
        assert!(!result.content.text().starts_with("Compaction acknowledged:"));
    }
    assert_eq!(session.messages().len(), 1);
    let (mut session, _) = ChatSession::with_config(unprotected());
    session.push_system("system");
    session.push_user("old");
    let result = session.execute_compaction_tool_call(
        &call("c", COMPACT_SUMMARIZE_MESSAGES, "{}"),
        DecodedArguments {
            summarize: Ok(SummarizeMessagesArgs {
                turn_ids: vec![2],
                summary: "short".to_string(),
                reason: "old".to_string(),
            }),
            ..undecoded()
        },
    );
    assert!(result
        .content
        .text()
        .starts_with("Compaction acknowledged: summarized selected context."));
}

#[test]
fn history_only_grows_and_ids_are_fresh() {
    let mut session = ChatSession::with_system_prompt("system");
    for i in 0..5 {
        let before = session.messages();
        session.push_user(format!("message {i}"));
        assert_eq!(session.messages()[..before.len()], before[..]);
        assert_eq!(session.turns().last().unwrap().id, i + 2);
    }
}

#[test]
fn turns_give_back_what_was_stored() {
    let mut message = ChatMessage::assistant("answer").with_tool_calls(vec![call("a", "b", "{}")]);
    message.annotations = vec![json("{\"x\":1}")];
    let message = message.with_reasoning(ReasoningPayload {
        reasoning_content: Some("r".into()),
        ..ReasoningPayload::default()
    });
    let turn = SessionTurn::from(message.clone());
    assert_eq!(ChatMessage::from(turn), message);
}

#[test]
fn events_are_emitted_only_where_wanted() {
    let (mut session, capacity) = ChatSession::with_config(SessionConfig {
        notifications: NotificationConfig {
            tool_errors: true,
            ..NotificationConfig::default()
        },
        ..SessionConfig::default()
    });
    assert_eq!(capacity, Some(32));
    let failing = call("a", "b", "{}");
    session.begin_tool_call(&failing, Some(1));
    let result = session.finish_tool_call(&failing, Some(1), Err(Error::Tool("broken".into())));
    assert!(result.content.text().contains("broken"));
    assert_eq!(
        session.take_events(),
        vec![AgentEvent::ToolCallFailed {
            round: 1,
            tool_call_id: "a".into(),
            name: "b".into(),
            error: "tool failed: broken".into(),
        }]
    );
    assert!(NotificationConfig::all().is_enabled());
    assert!(!NotificationConfig::none().is_enabled());
    assert!(TelemetryConfig::all().is_enabled());
    assert!(!TelemetryConfig::none().is_enabled());
}

#[test]
fn results_are_recorded_in_order() {
    let mut session = ChatSession::new();
    let results: Vec<_> = ["a", "b"]
        .iter()
        .map(|id| finish_call(&call(id, "add", "{}"), Ok(ToolOutput::Json(json("5")))).unwrap())
        .collect();
    session.record_results(&results);
    let ids: Vec<_> = session
        .messages()
        .into_iter()
        .map(|message| message.tool_call_id.unwrap())
        .collect();
    assert_eq!(ids, vec!["a", "b"]);
}

#[test]
fn tool_outputs_become_results() {
    let request = call("a", "add", "{}");
    let result = finish_call(&request, Ok(ToolOutput::Json(json("5")))).unwrap();
    assert_eq!(result.content, "5");
    let result = finish_call(&request, Ok(ToolOutput::Json(json("\"five\"")))).unwrap();
    assert_eq!(result.content, "five");
    // A JSON array is never taken for content parts.
    let result = finish_call(
        &request,
        Ok(ToolOutput::Json(json(
            r#"[{"type":"image_url","image_url":{"url":"x"}}]"#,
        ))),
    )
    .unwrap();
    assert!(!result.content.has_media());
    let media = MessageContent::from(vec![ContentPart::image_url("x")]);
    let result = finish_call(&request, Ok(ToolOutput::Content(media.clone()))).unwrap();
    assert_eq!(result.content, media);
    let result = report_call(&request, Err(Error::UnknownTool("add".into())));
    assert_eq!(
        result.content.text(),
        "Tool error: unknown tool 'add'\nPlease correct the tool call arguments and try again."
    );
}
