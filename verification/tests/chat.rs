use smolgent::chat::{AssistantWireMessage, ChatCompletionChoice, ChatCompletionEnvelope};
use smolgent::json::JsonText;
use smolgent::{
    ChatMessage, ContentPart, Error, ImageDetail, ImageUrl, MessageContent, MessageRole,
    ReasoningConfig, ReasoningPayload, ToolCall, ToolCallFunction,
};

fn json(text: &str) -> JsonText {
    JsonText::parse(text).unwrap()
}

#[test]
fn structured_tool_calls_discard_leaked_dsml_content() {
    let message = AssistantWireMessage {
        annotations: Vec::new(),
        content: Some("Let me check. <｜DSML｜tool_calls><｜DSML｜invoke name=\"read\">".into()),
        reasoning: None,
        reasoning_content: None,
        reasoning_details: None,
        tool_calls: vec![ToolCall {
            id: "call_1".into(),
            kind: "function".into(),
            function: ToolCallFunction {
                name: "read".into(),
                arguments: r#"{"path":"notes.txt"}"#.into(),
            },
        }],
    }
    .into_chat_message();

    assert!(message.content.is_empty());
    assert_eq!(message.tool_calls.len(), 1);
}

#[test]
fn ordinary_tool_call_preambles_are_preserved() {
    let message = AssistantWireMessage {
        annotations: Vec::new(),
        content: Some("Let me check that file.".into()),
        reasoning: None,
        reasoning_content: None,
        reasoning_details: None,
        tool_calls: vec![ToolCall::default()],
    }
    .into_chat_message();

    assert_eq!(message.content, "Let me check that file.");
}

fn wire(content: &str, tool_calls: Vec<ToolCall>) -> AssistantWireMessage {
    AssistantWireMessage {
        annotations: Vec::new(),
        content: Some(content.into()),
        reasoning: None,
        reasoning_content: None,
        reasoning_details: None,
        tool_calls,
    }
}

#[test]
fn markup_without_tool_calls_is_kept() {
    let leaked = "<｜DSML｜tool_calls>";
    assert_eq!(wire(leaked, Vec::new()).into_chat_message().content, leaked);
    // Each of the words alone is ordinary text.
    for text in ["DSML alone", "tool_calls alone", "invoke alone"] {
        let message = wire(text, vec![ToolCall::default()]).into_chat_message();
        assert_eq!(message.content, text);
    }
    let message = wire("DSML invoke", vec![ToolCall::default()]).into_chat_message();
    assert!(message.content.is_empty());
}

#[test]
fn a_message_without_content_has_empty_text() {
    let mut message = wire("", Vec::new());
    message.content = None;
    let message = message.into_chat_message();
    assert_eq!(message.role, MessageRole::Assistant);
    assert_eq!(message.content, MessageContent::default());
}

#[test]
fn the_first_choice_is_the_response() {
    let mut first = wire("hello", Vec::new());
    first.reasoning_content = Some("worked it out".into());
    let envelope = ChatCompletionEnvelope {
        choices: vec![
            ChatCompletionChoice { message: first },
            ChatCompletionChoice { message: wire("other", Vec::new()) },
        ],
    };
    let raw = json(r#"{"choices":[]}"#);
    let response = envelope.into_response(raw.clone()).unwrap();
    assert_eq!(response.message.content, "hello");
    assert_eq!(
        response.reasoning.unwrap().reasoning_content.as_deref(),
        Some("worked it out")
    );
    assert_eq!(response.raw, raw);

    let none = ChatCompletionEnvelope { choices: Vec::new() };
    assert_eq!(
        none.into_response(raw).unwrap_err(),
        Error::MissingAssistantMessage
    );
}

#[test]
fn reasoning_is_carried_and_dropped() {
    let payload = ReasoningPayload {
        reasoning: Some(json("\"raw\"")),
        reasoning_content: Some("text".into()),
        reasoning_details: Some(json("[1]")),
    };
    let message = ChatMessage::assistant("answer").with_reasoning(payload.clone());
    assert_eq!(message.reasoning_payload(), Some(payload));
    let plain = message.without_reasoning();
    assert_eq!(plain, ChatMessage::assistant("answer"));
    assert_eq!(plain.reasoning_payload(), None);
    assert!(ReasoningPayload::default().is_empty());
    assert_eq!(ReasoningPayload::default().into_option(), None);
    let enabled = ReasoningConfig::openrouter_enabled();
    assert_eq!(enabled.enabled, Some(true));
    assert_eq!(enabled.exclude, Some(false));
}

#[test]
fn messages_are_made_for_each_role() {
    assert_eq!(ChatMessage::system("s").role, MessageRole::System);
    assert_eq!(ChatMessage::user("u").role, MessageRole::User);
    assert_eq!(ChatMessage::assistant("a").role, MessageRole::Assistant);
    let result = ChatMessage::tool_result("call_1", "read", "done");
    assert_eq!(result.role, MessageRole::Tool);
    assert_eq!(result.tool_call_id.as_deref(), Some("call_1"));
    assert_eq!(result.name.as_deref(), Some("read"));
    assert_eq!(result.content, "done");
}

#[test]
fn content_serializes_all_modalities_in_order_and_round_trips() {
    let message = ChatMessage::user(vec![
        ContentPart::text("Compare these"),
        ContentPart::image_url("https://example.com/image.png"),
        ContentPart::text("and these"),
        ContentPart::image_bytes("image/png", b"hello"),
        ContentPart::file("remote.pdf", "https://example.com/document.pdf"),
        ContentPart::pdf_bytes("local.pdf", b"hello"),
        ContentPart::audio_bytes("wav", b"hello"),
        ContentPart::video_url("https://example.com/video.mp4"),
        ContentPart::video_bytes("video/mp4", b"hello"),
    ]);
    let MessageContent::Parts(parts) = &message.content else {
        panic!("expected content parts");
    };
    let shown: Vec<String> = parts
        .iter()
        .map(|part| match part {
            ContentPart::Text { text } => format!("text {text}"),
            ContentPart::ImageUrl { image_url } => format!("image_url {}", image_url.url),
            ContentPart::File { file } => format!(
                "file {} {}",
                file.filename.as_deref().unwrap(),
                file.file_data
            ),
            ContentPart::InputAudio { input_audio } => {
                format!("input_audio {} {}", input_audio.data, input_audio.format)
            }
            ContentPart::VideoUrl { video_url } => format!("video_url {}", video_url.url),
        })
        .collect();
    assert_eq!(
        shown,
        vec![
            "text Compare these",
            "image_url https://example.com/image.png",
            "text and these",
            "image_url data:image/png;base64,aGVsbG8=",
            "file remote.pdf https://example.com/document.pdf",
            "file local.pdf data:application/pdf;base64,aGVsbG8=",
            "input_audio aGVsbG8= wav",
            "video_url https://example.com/video.mp4",
            "video_url data:video/mp4;base64,aGVsbG8=",
        ]
    );
    assert_eq!(message.content.text(), "Compare theseand these");
}

#[test]
fn plain_text_retains_its_wire_format_and_empty_media_is_not_empty_text() {
    let message = ChatMessage::user("hello");
    assert_eq!(message.content, MessageContent::Text("hello".to_string()));
    assert!(MessageContent::default().is_empty());
    assert!(MessageContent::from(Vec::<ContentPart>::new()).is_empty());
    assert!(!MessageContent::from(vec![ContentPart::image_url("image.png")]).is_empty());
    // Comparing to a string must never hide attached media.
    assert_ne!(
        ChatMessage::user(vec![ContentPart::text("hello")]).content,
        "hello"
    );
}

#[test]
fn image_detail_and_preencoded_audio_are_supported() {
    let parts = vec![
        ContentPart::ImageUrl {
            image_url: ImageUrl {
                url: "https://example.com/image.png".into(),
                detail: Some(ImageDetail::High),
            },
        },
        ContentPart::input_audio("aGVsbG8=", "mp3"),
    ];
    assert!(matches!(
        &parts[0],
        ContentPart::ImageUrl { image_url }
            if image_url.url == "https://example.com/image.png"
                && image_url.detail == Some(ImageDetail::High)
    ));
    assert!(matches!(
        &parts[1],
        ContentPart::InputAudio { input_audio }
            if input_audio.data == "aGVsbG8=" && input_audio.format == "mp3"
    ));
}

#[test]
fn media_does_not_show() {
    let content = MessageContent::from(vec![
        ContentPart::text("a"),
        ContentPart::image_url("https://example.com/x.png"),
        ContentPart::text("b"),
    ]);
    assert_eq!(content.text(), "ab");
    assert_eq!(content.to_string(), "ab");
    assert!(content.has_media());
    assert!(!MessageContent::from("ab").has_media());
    assert_eq!(MessageContent::from("héllo").len(), 6);
    assert!(content.len() > 2);
}

#[test]
fn json_values_are_kept_in_compact_form() {
    let value = json(" { \"b\" : [ 1 , 2.5 ] } ");
    assert_eq!(value.as_str(), "{\"b\":[1,2.5]}");
    assert!(value.is_object());
    assert!(!json("[]").is_object());
    assert_eq!(json("\"a\\nb\"").into_plain_text(), "a\nb");
    assert_eq!(json(" [ true ] ").into_plain_text(), "[true]");
    assert!(matches!(JsonText::parse("{").unwrap_err(), Error::Json(_)));
    assert_eq!(JsonText::empty_object(), json("{}"));
}

#[test]
fn each_error_has_its_message() {
    let cases = vec![
        (Error::Keyring("k".into()), "keyring error: k"),
        (Error::Http("h".into()), "http error: h"),
        (
            Error::Provider { status: 502, body: "upstream unavailable".into() },
            "provider returned HTTP 502: upstream unavailable",
        ),
        (Error::Url("u".into()), "url error: u"),
        (Error::Json("j".into()), "json error: j"),
        (Error::Io("i".into()), "io error: i"),
        (Error::InvalidHeaderName("n".into()), "invalid http header name: n"),
        (Error::InvalidHeaderValue("v".into()), "invalid http header value: v"),
        (
            Error::MissingApiKey("openrouter".into()),
            "api key is not configured for provider 'openrouter'",
        ),
        (
            Error::ProviderResponseTooLarge { limit: 10_485_760 },
            "provider response exceeded the 10485760 byte limit",
        ),
        (
            Error::UnsupportedNativeKeyring("plan9".into()),
            "no native keyring store is configured for target OS 'plan9'",
        ),
        (
            Error::MissingAssistantMessage,
            "provider returned no assistant message",
        ),
        (Error::UnknownTool("x".into()), "unknown tool 'x'"),
        (Error::Tool("t".into()), "tool failed: t"),
        (
            Error::PathNotAllowed { path: "/etc".into(), access: "read".into() },
            "path '/etc' is outside the allowed read roots",
        ),
        (Error::Stream("s".into()), "stream error: s"),
    ];
    for (error, message) in cases {
        assert_eq!(error.to_string(), message);
    }
}
