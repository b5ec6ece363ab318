use std::collections::HashMap;
use std::sync::Mutex;

use smolgent::json::JsonText;
use smolgent::provider::body::{
    ErrorBody, ResponseBody, MAX_ERROR_BODY_BYTES, MAX_RESPONSE_BYTES,
};
use smolgent::provider::capabilities::{CapabilityLookup, MetadataAnswer};
use smolgent::provider::{json_object_response_format, resolve_stored_key, wire_parts, WirePart};
use smolgent::secrets::{deleted_key, loaded_key, SecretStore, StoreAnswer};
use smolgent::url_text::{extend_url, join_url, parse_url, scheme};
use smolgent::value::Json;
use smolgent::{
    ApiKeyRef, ChatMessage, ChatProvider, ContentPart, Error, ProviderConfig, ProviderKind,
    ReasoningPayload, ToolDefinition,
};

#[test]
fn literal_api_keys_are_redacted_from_debug_output() {
    let api_key = ApiKeyRef::Literal("sk-secret".to_string());

    let debug = api_key.to_debug_string();

    assert_eq!(debug, "Literal(\"[REDACTED]\")");
    assert!(!debug.contains("sk-secret"));
}

#[test]
fn other_key_references_are_shown() {
    assert_eq!(
        ApiKeyRef::Keyring("my \"app\"".to_string()).to_debug_string(),
        "Keyring(\"my \\\"app\\\"\")"
    );
    assert_eq!(ApiKeyRef::NoKey.to_debug_string(), "None");
}

struct Store {
    keys: Mutex<HashMap<String, String>>,
}

impl Store {
    fn with(id: &str, key: &str) -> Self {
        let mut keys = HashMap::new();
        keys.insert(id.to_string(), key.to_string());
        Store { keys: Mutex::new(keys) }
    }
}

impl SecretStore for Store {
    fn set_api_key(&self, provider_id: &str, api_key: &str) -> Result<(), Error> {
        self.keys
            .lock()
            .unwrap()
            .insert(provider_id.to_string(), api_key.to_string());
        Ok(())
    }

    fn get_api_key(&self, provider_id: &str) -> Result<Option<String>, Error> {
        loaded_key(match self.keys.lock().unwrap().get(provider_id) {
            Some(key) => StoreAnswer::Password(key.clone()),
            None => StoreAnswer::NoEntry,
        })
    }

    fn delete_api_key(&self, provider_id: &str) -> Result<(), Error> {
        deleted_key(match self.keys.lock().unwrap().remove(provider_id) {
            Some(key) => StoreAnswer::Password(key),
            None => StoreAnswer::NoEntry,
        })
    }
}

#[test]
fn openrouter_request_includes_auth_and_reasoning() {
    let secrets = Store::with("test-app/openrouter", "sk-test");
    let config =
        ProviderConfig::openrouter_with_keyring("openai/gpt-oss-20b", "test-app/openrouter")
            .unwrap();
    assert_eq!(
        config.chat_completions_url,
        "https://openrouter.ai/api/v1/chat/completions"
    );
    let provider = ChatProvider::new(config);
    let key = provider.api_key(Some(&secrets)).unwrap();
    let headers = provider.headers(key).unwrap();
    assert!(headers.contains(&("authorization".to_string(), "Bearer sk-test".to_string())));
    assert!(headers.contains(&("content-type".to_string(), "application/json".to_string())));
    let request = provider.build_request(&vec![ChatMessage::user("Say hello")], Vec::new());
    assert_eq!(request.model, "openai/gpt-oss-20b");
    let reasoning = request.reasoning.unwrap();
    assert_eq!(reasoning.enabled, Some(true));
    assert_eq!(reasoning.exclude, Some(false));
}

#[test]
fn keys_come_from_where_they_are_referred_to() {
    let secrets = Store::with("id", "stored");
    let mut config = ProviderConfig::deepseek_with_keyring("deepseek-chat", "id").unwrap();
    assert_eq!(config.kind, ProviderKind::OpenAiCompatible);
    assert_eq!(config.reasoning, None);
    let key = ChatProvider::new(config.clone()).api_key(Some(&secrets));
    assert_eq!(key.unwrap().as_deref(), Some("stored"));
    config.api_key = ApiKeyRef::Literal("literal".into());
    let key = ChatProvider::new(config.clone()).api_key(Some(&secrets));
    assert_eq!(key.unwrap().as_deref(), Some("literal"));
    config.api_key = ApiKeyRef::NoKey;
    let key = ChatProvider::new(config.clone()).api_key(Some(&secrets));
    assert_eq!(key.unwrap(), None);
    config.api_key = ApiKeyRef::Keyring("missing".into());
    let provider = ChatProvider::new(config);
    assert_eq!(
        provider.api_key(Some(&secrets)).unwrap_err(),
        Error::MissingApiKey("missing".into())
    );
    assert_eq!(
        provider.api_key(None::<&Store>).unwrap_err(),
        Error::MissingApiKey("missing".into())
    );
    assert_eq!(
        resolve_stored_key("id", Err(Error::Keyring("locked".into()))).unwrap_err(),
        Error::Keyring("locked".into())
    );
}

#[test]
fn stored_keys_round_trip() {
    let secrets = Store { keys: Mutex::new(HashMap::new()) };
    assert_eq!(secrets.get_api_key("openrouter").unwrap(), None);
    secrets.set_api_key("openrouter", "sk-test").unwrap();
    assert_eq!(
        secrets.get_api_key("openrouter").unwrap(),
        Some("sk-test".to_string())
    );
    secrets.delete_api_key("openrouter").unwrap();
    assert_eq!(secrets.get_api_key("openrouter").unwrap(), None);
    secrets.delete_api_key("openrouter").unwrap();
    assert_eq!(
        loaded_key(StoreAnswer::Failed("locked".into())).unwrap_err(),
        Error::Keyring("locked".into())
    );
    assert_eq!(
        deleted_key(StoreAnswer::Failed("locked".into())).unwrap_err(),
        Error::Keyring("locked".into())
    );
}

#[test]
fn configured_headers_are_checked_and_replace_earlier_ones() {
    let mut config = ProviderConfig::llama_cpp("http://127.0.0.1:8080", "model").unwrap();
    config.headers = vec![
        ("X-Title".into(), "one".into()),
        ("x-title".into(), "two".into()),
        ("Authorization".into(), "Basic abc".into()),
    ];
    let provider = ChatProvider::new(config.clone());
    let headers = provider.headers(Some("key".into())).unwrap();
    assert_eq!(headers.len(), 3);
    assert!(headers.contains(&("x-title".to_string(), "two".to_string())));
    assert!(headers.contains(&("authorization".to_string(), "Basic abc".to_string())));

    config.headers = vec![("bad name".into(), "x".into())];
    assert!(matches!(
        ChatProvider::new(config.clone()).headers(None).unwrap_err(),
        Error::InvalidHeaderName(_)
    ));
    config.headers = vec![("name".into(), "bad\nvalue".into())];
    assert!(matches!(
        ChatProvider::new(config.clone()).headers(None).unwrap_err(),
        Error::InvalidHeaderValue(_)
    ));
    config.headers = Vec::new();
    assert!(matches!(
        ChatProvider::new(config).headers(Some("bad\nkey".into())).unwrap_err(),
        Error::InvalidHeaderValue(_)
    ));
}

#[test]
fn header_names_and_values_are_taken_as_http_takes_them() {
    let config = ProviderConfig::llama_cpp("http://127.0.0.1:8080", "model").unwrap();
    for code in 0u32..=0x2ff {
        let Some(c) = char::from_u32(code) else {
            continue;
        };
        let mut named = config.clone();
        named.headers = vec![(format!("a{c}b"), "v".to_string())];
        let name_ok = reqwest::header::HeaderName::from_bytes(format!("a{c}b").as_bytes()).is_ok();
        assert_eq!(
            ChatProvider::new(named).headers(None).is_ok(),
            name_ok,
            "name with {code:#x}"
        );
        let mut valued = config.clone();
        valued.headers = vec![("a".to_string(), format!("a{c}b"))];
        let value_ok = reqwest::header::HeaderValue::from_str(&format!("a{c}b")).is_ok();
        assert_eq!(
            ChatProvider::new(valued).headers(None).is_ok(),
            value_ok,
            "value with {code:#x}"
        );
    }
    let mut empty = config;
    empty.headers = vec![(String::new(), "v".to_string())];
    assert!(ChatProvider::new(empty).headers(None).is_err());
}

#[test]
fn provider_errors_preserve_status_and_json_or_plain_text_bodies() {
    for (status, body) in [
        (400, r#"{"error":{"message":"Invalid model","code":400}}"#),
        (429, r#"{"error":{"message":"Rate limited"}}"#),
        (502, "upstream unavailable"),
        (503, ""),
    ] {
        let mut reader = ErrorBody::new();
        reader.take(body.as_bytes());
        let error = reader.into_error(status);
        assert!(error.to_string().contains(&status.to_string()));
        assert!(
            matches!(error, Error::Provider { status: actual, body: actual_body }
            if actual == status && actual_body == body)
        );
    }
}

#[test]
fn provider_error_bodies_are_bounded_without_splitting_utf8() {
    for body in [
        "x".repeat(MAX_ERROR_BODY_BYTES),
        format!(
            "{}é{}",
            "x".repeat(MAX_ERROR_BODY_BYTES - 1),
            "z".repeat(100_000)
        ),
    ] {
        for size in [1000, 16 * 1024, 200_000] {
            let mut reader = ErrorBody::new();
            for chunk in body.as_bytes().chunks(size) {
                if !reader.take(chunk) {
                    break;
                }
            }
            let Error::Provider {
                status,
                body: actual,
            } = reader.into_error(500)
            else {
                panic!("expected provider error");
            };
            assert_eq!(status, 500);
            if body.len() == MAX_ERROR_BODY_BYTES {
                assert_eq!(actual, body);
            } else {
                assert_eq!(
                    actual,
                    format!(
                        "{}\n[Provider error body truncated at 16 KiB]",
                        "x".repeat(MAX_ERROR_BODY_BYTES - 1)
                    )
                );
            }
        }
    }
}

#[test]
fn invalid_error_bodies_are_shown_with_replacements() {
    let mut reader = ErrorBody::new();
    reader.take(b"a\xffb");
    assert!(matches!(reader.into_error(500), Error::Provider { body, .. } if body == "a\u{fffd}b"));
}

#[test]
fn provider_rejects_oversized_responses_before_buffering_them() {
    let too_large = Error::ProviderResponseTooLarge {
        limit: MAX_RESPONSE_BYTES,
    };
    let Err(error) = ResponseBody::new(Some(MAX_RESPONSE_BYTES as u64 + 1)) else {
        panic!("expected an error");
    };
    assert_eq!(error, too_large);
    let Ok(mut body) = ResponseBody::new(None) else {
        panic!("expected a body");
    };
    body.take(&vec![b'x'; MAX_RESPONSE_BYTES]).unwrap();
    assert_eq!(body.take(b"x").unwrap_err(), too_large);
    let Ok(mut body) = ResponseBody::new(Some(4)) else {
        panic!("expected a body");
    };
    body.take(b"{\"po").unwrap();
    body.take(b"ng\":[1]}").unwrap();
    assert_eq!(
        body.into_json().unwrap(),
        flags(&[("pong", Json::Array(vec![Json::Unsigned(1)]))])
    );
    for (bytes, message) in [
        (&b"{\"a\":1} x"[..], "trailing characters at line 1 column 9"),
        (&b""[..], "EOF while parsing a value at line 1 column 0"),
    ] {
        let Ok(mut body) = ResponseBody::new(None) else {
            panic!("expected a body");
        };
        body.take(bytes).unwrap();
        assert_eq!(
            body.into_json().unwrap_err(),
            Error::Json(message.to_string())
        );
    }
}

#[test]
fn llama_cpp_request_preserves_replayed_reasoning() {
    let config = ProviderConfig::llama_cpp("http://127.0.0.1:8080", "local-model").unwrap();
    let provider = ChatProvider::new(config);
    let prior = ChatMessage::assistant("previous").with_reasoning(ReasoningPayload {
        reasoning: None,
        reasoning_content: Some("hidden chain".to_string()),
        reasoning_details: None,
    });
    let request = provider.build_request(&vec![prior], Vec::new());
    assert_eq!(request.messages[0].content, "previous");
    assert_eq!(
        request.messages[0].reasoning_content.as_deref(),
        Some("hidden chain")
    );
}

#[test]
fn request_sends_tool_definitions_and_parses_tool_calls() {
    let provider =
        ChatProvider::new(ProviderConfig::llama_cpp("http://127.0.0.1:8080", "local-model").unwrap());
    let tool = ToolDefinition::new(
        "add",
        "Add two numbers.",
        JsonText::parse(
            r#"{"type":"object","properties":{"a":{"type":"integer"},"b":{"type":"integer"}}}"#,
        )
        .unwrap(),
    );
    let request =
        provider.build_request(&vec![ChatMessage::user("Add 2 and 3")], vec![tool.clone()]);
    assert_eq!(request.tools, vec![tool]);
    assert_eq!(request.tools[0].kind, "function");
    assert_eq!(request.tools[0].name(), "add");
}

fn flags(entries: &[(&str, Json)]) -> Json {
    Json::Object(
        entries
            .iter()
            .map(|(key, value)| (key.to_string(), value.clone()))
            .collect(),
    )
}

fn llama() -> ChatProvider {
    ChatProvider::new(
        ProviderConfig::llama_cpp("http://localhost:8080/proxy", "org/model:variant").unwrap(),
    )
}

#[test]
fn discovery_targets_selected_model_and_maps_only_explicit_modalities() {
    let yes = Json::Bool(true);
    let no = Json::Bool(false);
    for (modalities, expected) in [
        (flags(&[("vision", yes.clone())]), vec!["text", "image"]),
        (
            flags(&[("vision", no.clone()), ("audio", yes.clone()), ("video", no.clone())]),
            vec!["text", "audio"],
        ),
        (
            flags(&[("vision", yes.clone()), ("audio", yes.clone()), ("video", yes.clone())]),
            vec!["text", "image", "audio", "video"],
        ),
        (flags(&[("vision", no.clone())]), vec!["text"]),
    ] {
        let lookup = llama().capability_lookup().unwrap();
        assert_eq!(
            lookup,
            CapabilityLookup::Fetch {
                url: "http://localhost:8080/proxy/props".to_string(),
                model_query: Some("org/model:variant".to_string()),
            }
        );
        let caps = llama()
            .read_capabilities(&MetadataAnswer::Body(flags(&[("modalities", modalities)])))
            .unwrap()
            .unwrap();
        assert_eq!(caps.model, "org/model:variant");
        assert_eq!(caps.input_modalities, expected);
    }
    for base in [
        "http://localhost:8080",
        "http://localhost:8080/",
        "http://localhost:8080/proxy",
        "http://localhost:8080/proxy/",
    ] {
        let config = ProviderConfig::llama_cpp(base, "local").unwrap();
        let prefix = if base.contains("proxy") { "/proxy" } else { "" };
        assert_eq!(
            config.chat_completions_url,
            format!("http://localhost:8080{prefix}/v1/chat/completions")
        );
    }
}

#[test]
fn discovery_falls_back_for_old_servers_and_surfaces_bad_metadata_and_http_errors() {
    for (answer, error) in [
        (MetadataAnswer::NotFound, None),
        (MetadataAnswer::Body(flags(&[])), None),
        (
            MetadataAnswer::Body(flags(&[("modalities", Json::Null)])),
            None,
        ),
        (
            MetadataAnswer::Body(flags(&[(
                "modalities",
                flags(&[("vision", Json::Str("yes".into()))]),
            )])),
            Some("json"),
        ),
    ] {
        let result = llama().read_capabilities(&answer);
        match error {
            None => assert!(result.unwrap().is_none()),
            _ => assert!(matches!(result, Err(Error::Json(_)))),
        }
    }
    let mut body = ErrorBody::new();
    body.take(b"{\"error\":\"key required\"}");
    assert!(
        matches!(body.into_error(401), Error::Provider { status: 401, body } if body.contains("key required"))
    );
}

#[test]
fn openrouter_metadata_is_found_by_author_and_slug() {
    let mut config = ProviderConfig::openrouter("z-ai/glm-5.3-flash").unwrap();
    let provider = ChatProvider::new(config.clone());
    assert_eq!(
        provider.capability_lookup().unwrap(),
        CapabilityLookup::Fetch {
            url: "https://openrouter.ai/api/v1/model/z-ai/glm-5.3-flash".to_string(),
            model_query: None,
        }
    );
    let body = flags(&[(
        "data",
        flags(&[(
            "architecture",
            flags(&[(
                "input_modalities",
                Json::Array(vec![Json::Str("text".into()), Json::Str("image".into())]),
            )]),
        )]),
    )]);
    let caps = provider
        .read_capabilities(&MetadataAnswer::Body(body))
        .unwrap()
        .unwrap();
    assert_eq!(caps.input_modalities, vec!["text", "image"]);
    assert!(caps.supports_input("image") && !caps.supports_input("video"));
    assert_eq!(
        MetadataAnswer::of_status(404),
        Some(MetadataAnswer::NotFound)
    );
    for status in [200, 401, 403, 410, 500] {
        assert_eq!(MetadataAnswer::of_status(status), None);
    }
    for answer in [
        MetadataAnswer::NotFound,
        MetadataAnswer::Body(flags(&[("data", flags(&[]))])),
    ] {
        assert!(provider.read_capabilities(&answer).unwrap().is_none());
    }
    for model in ["openrouter/auto", "no-author"] {
        config.default_model = model.to_string();
        assert_eq!(
            ChatProvider::new(config.clone()).capability_lookup().unwrap(),
            CapabilityLookup::Unavailable
        );
    }
    let generic = ChatProvider::new(ProviderConfig::deepseek("deepseek-chat").unwrap());
    assert_eq!(
        generic.capability_lookup().unwrap(),
        CapabilityLookup::Unavailable
    );
}

#[test]
fn direct_requests_translate_video_and_preserve_image_audio_and_order() {
    let parts = vec![
        ContentPart::text("Describe these"),
        ContentPart::image_bytes("image/png", b"hello"),
        ContentPart::audio_bytes("wav", b"hello"),
        ContentPart::video_bytes("video/mp4", b"hello"),
        ContentPart::video_url("https://example.com/clip.mp4"),
    ];
    let wire = wire_parts(ProviderKind::LlamaCpp, &parts);
    assert_eq!(
        wire,
        vec![
            WirePart::Plain(parts[0].clone()),
            WirePart::Plain(parts[1].clone()),
            WirePart::Plain(parts[2].clone()),
            WirePart::InputVideo {
                url: "data:video/mp4;base64,aGVsbG8=".to_string()
            },
            WirePart::InputVideo {
                url: "https://example.com/clip.mp4".to_string()
            },
        ]
    );
    // The request itself keeps the parts as they are.
    let message = ChatMessage::user(parts.clone());
    let request = llama().build_request(&vec![message.clone()], Vec::new());
    assert_eq!(request.messages[0], message);
    for kind in [ProviderKind::OpenRouter, ProviderKind::OpenAiCompatible] {
        let wire = wire_parts(kind, &parts);
        for (sent, part) in wire.iter().zip(&parts) {
            assert_eq!(sent, &WirePart::Plain(part.clone()));
        }
    }
}

#[test]
fn urls_are_read_as_browsers_read_them() {
    assert_eq!(parse_url("HTTP://Example.com").unwrap(), "http://example.com/");
    assert!(matches!(parse_url("no url").unwrap_err(), Error::Url(_)));
    assert_eq!(
        join_url("http://h/v1/chat/completions", "../../props").unwrap(),
        "http://h/props"
    );
    assert_eq!(
        extend_url("http://h/a/", &vec!["b c".to_string()]).unwrap(),
        "http://h/a/b%20c"
    );
    assert_eq!(extend_url("data:text/plain,x", &vec!["b".to_string()]), None);
    assert_eq!(scheme("ftp://h").as_deref(), Some("ftp"));
    assert_eq!(scheme("no url"), None);
    assert!(matches!(
        ProviderConfig::llama_cpp("no url", "m").err().unwrap(),
        Error::Url(_)
    ));
    assert_eq!(
        json_object_response_format().as_str(),
        r#"{"type":"json_object"}"#
    );
}

#[test]
fn metadata_of_the_wrong_type_is_named() {
    let metadata = |text: &str| {
        let Ok(mut body) = ResponseBody::new(None) else {
            panic!("expected a body");
        };
        body.take(text.as_bytes()).unwrap();
        MetadataAnswer::Body(body.into_json().unwrap())
    };
    let openrouter = ChatProvider::new(ProviderConfig::openrouter("author/slug").unwrap());
    let llama = ChatProvider::new(ProviderConfig::llama_cpp("http://localhost", "m").unwrap());
    for (provider, text, message) in [
        (
            &openrouter,
            r#"{"data":{"architecture":{"input_modalities":"text"}}}"#,
            "invalid type: string \"text\", expected a sequence",
        ),
        (
            &openrouter,
            r#"{"data":{"architecture":{"input_modalities":["text",1.5]}}}"#,
            "invalid type: floating point `1.5`, expected a string",
        ),
        (
            &llama,
            r#"{"modalities":[]}"#,
            "invalid type: sequence, expected a map",
        ),
        (
            &llama,
            r#"{"modalities":{"vision":-1}}"#,
            "invalid type: integer `-1`, expected a boolean",
        ),
    ] {
        assert_eq!(
            provider.read_capabilities(&metadata(text)).unwrap_err(),
            Error::Json(message.to_string())
        );
    }
    assert_eq!(
        openrouter
            .read_capabilities(&metadata(
                r#"{"data":{"architecture":{"input_modalities":["text","image"]}}}"#
            ))
            .unwrap()
            .unwrap()
            .input_modalities,
        vec!["text", "image"]
    );
}

#[test]
fn endpoints_stand_below_the_server_root() {
    for (base, url) in [
        ("http://h", "http://h/v1/chat/completions"),
        ("http://h/p/?q=1#f", "http://h/p/v1/chat/completions"),
        ("http://h?q=/x/", "http://h/v1/chat/completions"),
        ("http://h/p//", "http://h/p//v1/chat/completions"),
        ("http://h/a b", "http://h/a%20b/v1/chat/completions"),
    ] {
        assert_eq!(
            ProviderConfig::llama_cpp(base, "m")
                .unwrap()
                .chat_completions_url,
            url
        );
    }
    assert_eq!(
        ProviderConfig::llama_cpp("data:text/plain,x", "m")
            .err()
            .unwrap(),
        Error::Url("relative URL with a cannot-be-a-base base".into())
    );
    assert_eq!(
        ProviderConfig::deepseek_at("https://api.deepseek.com/v1", "m", None)
            .unwrap()
            .chat_completions_url,
        "https://api.deepseek.com/v1/chat/completions"
    );
    let many: Vec<String> = (0..40).map(|i| format!("é {i}")).collect();
    let extended = smolgent::url_text::extend_url("http://h/", &many).unwrap();
    assert!(extended.starts_with("http://h/%C3%A9%200/%C3%A9%201/"));
    assert_eq!(extended.matches('/').count(), 42);
    // A URL far beyond what a page holds is extended like any other.
    let long = format!("http://h/{}", "x".repeat(1 << 20));
    let tail = "%".repeat(1 << 20);
    assert_eq!(
        smolgent::url_text::extend_url(&long, &vec![tail]).unwrap().len(),
        long.len() + 1 + 3 * (1 << 20)
    );
}
