use smolgent::json_value::{
    check_list, check_map, decode_flag, decode_text, parse_value, render,
};
use smolgent::streaming::accumulator::Accumulator;
use smolgent::streaming::event::StreamEvent;
use smolgent::streaming::merge::merge_object;
use smolgent::streaming::reader::ChunkReader;
use smolgent::streaming::sse::{SseDecoder, MAX_DATA_BYTES, MAX_EVENT_BYTES};
use smolgent::value::Json;
use smolgent::Error;

fn json(text: &str) -> Json {
    parse_value(text.as_bytes()).unwrap()
}

fn chunk(delta: &str, finish: &str) -> Json {
    json(&format!(
        r#"{{"choices":[{{"index":0,"delta":{delta},"finish_reason":{finish}}}]}}"#
    ))
}

fn at<'a>(value: &'a Json, path: &[&str]) -> &'a Json {
    let mut value = value;
    for step in path {
        value = match value {
            Json::Array(items) => &items[step.parse::<usize>().unwrap()],
            other => other.get(step).unwrap(),
        };
    }
    value
}

fn text(s: &str) -> Json {
    Json::Str(s.to_string())
}

#[test]
fn sse_handles_every_byte_boundary_and_line_ending() {
    let bytes = "\u{feff}: keep-alive\r\ndata: {\rdata: \"text\":\"你好🙂\"}\n\nid: ignored\n\ndata: [DONE]\r\n\r\n".as_bytes();
    for size in 1..=bytes.len() {
        let mut parser = SseDecoder::default();
        let events: Vec<_> = bytes
            .chunks(size)
            .flat_map(|chunk| parser.feed(chunk).unwrap())
            .collect();
        assert_eq!(events, vec!["{\n\"text\":\"你好🙂\"}", "[DONE]"]);
    }
}

#[test]
fn interleaved_tools_reasoning_and_usage_are_assembled() {
    let mut acc = Accumulator::default();
    acc.push(&chunk(
        r#"{"reasoning_content":"Think ", "reasoning_details":[{"index":2,"type":"reasoning.text","id":"r1","text":"First "}],
            "tool_calls":[{"index":1,"id":"b","function":{"name":"ad","arguments":"{\"b\":"}},
                          {"index":0,"id":"a","function":{"name":"add","arguments":"{\"a\":"}}]}"#,
        "null",
    ))
    .unwrap();
    acc.push(&chunk(
        r#"{"reasoning_content":"more", "reasoning_details":[{"index":2,"text":"second","signature":"opaque"}],
            "tool_calls":[{"index":0,"function":{"arguments":"1}"}}, {"index":1,"function":{"name":"d","arguments":"2}"}}]}"#,
        r#""tool_calls""#,
    ))
    .unwrap();
    // OpenRouter repeats finish_reason on the usage frame.
    acc.push(&json(
        r#"{"choices":[{"index":0,"delta":{},"finish_reason":"tool_calls"}],"usage":{"completion_tokens":7}}"#,
    ))
    .unwrap();
    let raw = acc.finish().unwrap();
    let message = at(&raw, &["choices", "0", "message"]);
    assert_eq!(at(message, &["reasoning_content"]), &text("Think more"));
    assert_eq!(
        at(message, &["reasoning_details", "0", "text"]),
        &text("First second")
    );
    assert_eq!(
        at(message, &["reasoning_details", "0", "signature"]),
        &text("opaque")
    );
    assert_eq!(
        at(message, &["reasoning_details", "0", "index"]),
        &Json::Unsigned(2)
    );
    assert_eq!(at(message, &["tool_calls", "0", "id"]), &text("a"));
    assert_eq!(
        at(message, &["tool_calls", "1", "function", "name"]),
        &text("add")
    );
    assert_eq!(
        at(message, &["tool_calls", "1", "function", "arguments"]),
        &text("{\"b\":2}")
    );
    assert_eq!(
        at(&raw, &["usage", "completion_tokens"]),
        &Json::Unsigned(7)
    );
}

#[test]
fn malformed_truncated_and_error_streams_fail() {
    let mut acc = Accumulator::default();
    assert!(acc
        .push(&json(r#"{"error":{"message":"failed"}}"#))
        .is_err());
    assert!(Accumulator::default().finish().is_err());
    for reason in ["insufficient_system_resource", "tool_calls"] {
        let mut acc = Accumulator::default();
        acc.push(&chunk(
            r#"{"content":"partial"}"#,
            &format!("\"{reason}\""),
        ))
        .unwrap();
        assert!(acc.finish().is_err());
    }
    for (arguments, finish) in [("{", "tool_calls"), ("{}", "length"), ("[]", "tool_calls")] {
        let mut acc = Accumulator::default();
        acc.push(&chunk(
            &format!(
                r#"{{"tool_calls":[{{"index":0,"id":"a","function":{{"name":"add","arguments":"{arguments}"}}}}]}}"#
            ),
            &format!("\"{finish}\""),
        ))
        .unwrap();
        assert!(acc.finish().is_err());
    }
    assert!(SseDecoder::default()
        .feed(&vec![b'x'; MAX_EVENT_BYTES + 1])
        .is_err());
}

fn stream_message(error: Error) -> String {
    match error {
        Error::Stream(message) => message,
        other => panic!("unexpected error {other:?}"),
    }
}

#[test]
fn sse_reports_what_cannot_be_decoded() {
    assert_eq!(
        stream_message(SseDecoder::default().feed(b"data: \xff\n").unwrap_err()),
        "invalid UTF-8 in SSE frame"
    );
    assert_eq!(
        stream_message(
            SseDecoder::default()
                .feed(&vec![b'x'; MAX_EVENT_BYTES + 1])
                .unwrap_err()
        ),
        "SSE line exceeded the size limit"
    );
    // One event may not grow beyond its limit, over however many lines.
    let mut decoder = SseDecoder::default();
    let half = [b"data:".to_vec(), vec![b'x'; MAX_EVENT_BYTES / 2], b"\n".to_vec()].concat();
    assert_eq!(decoder.feed(&half).unwrap(), Vec::<String>::new());
    assert_eq!(
        stream_message(decoder.feed(&half).unwrap_err()),
        "SSE data exceeded the response/event size limit"
    );
    // Nor may all events together.
    let mut decoder = SseDecoder::default();
    let event = [b"data:".to_vec(), vec![b'x'; 512 * 1024], b"\n\n".to_vec()].concat();
    for _ in 0..MAX_DATA_BYTES / (512 * 1024) {
        assert_eq!(decoder.feed(&event).unwrap().len(), 1);
    }
    assert!(decoder.feed(b"data: x\n").is_err());
}

#[test]
fn sse_keeps_what_it_could_not_decode() {
    // A line that was not valid stays, and fails again at the next line ending.
    let mut decoder = SseDecoder::default();
    assert!(decoder.feed(b"data: \xff\r").is_err());
    assert_eq!(decoder.feed(b"\n").unwrap(), Vec::<String>::new());
    assert_eq!(
        stream_message(decoder.feed(b"\n").unwrap_err()),
        "invalid UTF-8 in SSE frame"
    );
    // So does one that was too long.
    let mut decoder = SseDecoder::default();
    assert!(decoder.feed(&vec![b'x'; MAX_EVENT_BYTES + 1]).is_err());
    assert_eq!(
        stream_message(decoder.feed(b"y").unwrap_err()),
        "SSE line exceeded the size limit"
    );
    assert_eq!(decoder.feed(b"\ndata: z\n\n").unwrap(), vec!["z"]);
    // So does data that would exceed the limit of an event.
    let mut decoder = SseDecoder::default();
    let half = [b"data:".to_vec(), vec![b'x'; MAX_EVENT_BYTES / 2], b"\n".to_vec()].concat();
    assert!(decoder.feed(&half).is_ok());
    assert!(decoder.feed(&half).is_err());
    for _ in 0..3 {
        assert_eq!(
            stream_message(decoder.feed(b"\n").unwrap_err()),
            "SSE data exceeded the response/event size limit"
        );
    }
}

#[test]
fn sse_passes_over_comments_and_other_fields() {
    let mut decoder = SseDecoder::default();
    let events = decoder
        .feed(b": hello\nevent: x\nid: 7\nretry: 5\ndata\ndata:  two\ndatas: no\n\n\n")
        .unwrap();
    assert_eq!(events, vec!["\n two"]);
}

#[test]
fn chunks_end_at_the_mark() {
    let mut reader = ChunkReader::default();
    let chunks = reader
        .feed(b"data: {\"a\":1}\n\ndata: {\"b\":2}\n\ndata: [DO")
        .unwrap();
    assert_eq!(chunks, vec!["{\"a\":1}", "{\"b\":2}"]);
    assert!(!reader.is_done());
    let chunks = reader.feed(b"NE]\n\ndata: {\"c\":3}\n\n").unwrap();
    assert_eq!(chunks, Vec::<String>::new());
    assert!(reader.is_done());
    // Not even bytes that could not be decoded matter behind it.
    assert_eq!(reader.feed(b"data: \xff\n\n").unwrap(), Vec::<String>::new());
    assert!(ChunkReader::default().feed(b"\xff\n").is_err());
}

#[test]
fn a_streamed_answer_is_assembled_from_its_chunks() {
    let body = "data: {\"id\":\"x\",\"choices\":[{\"index\":0,\"delta\":{\"content\":\"Hel\"},\"finish_reason\":null}]}\n\ndata: {\"choices\":[{\"index\":0,\"delta\":{\"content\":\"lo\"},\"finish_reason\":null}]}\n\ndata: {\"choices\":[{\"index\":0,\"delta\":{},\"finish_reason\":\"stop\"}]}\n\ndata: [DONE]\n\n";
    let mut reader = ChunkReader::default();
    let mut acc = Accumulator::default();
    let mut shown = String::new();
    for piece in body.as_bytes().chunks(7) {
        for chunk in reader.feed(piece).unwrap() {
            for event in acc.push(&json(&chunk)).unwrap() {
                match event {
                    StreamEvent::TextDelta { text } => shown.push_str(&text),
                    other => panic!("unexpected event {other:?}"),
                }
            }
        }
    }
    assert!(reader.is_done());
    assert_eq!(shown, "Hello");
    let raw = acc.finish().unwrap();
    assert_eq!(at(&raw, &["id"]), &text("x"));
    assert_eq!(at(&raw, &["object"]), &text("chat.completion"));
    assert_eq!(
        at(&raw, &["choices", "0", "message", "content"]),
        &text("Hello")
    );
    assert_eq!(
        at(&raw, &["choices", "0", "message", "role"]),
        &text("assistant")
    );
    assert_eq!(
        at(&raw, &["choices", "0", "finish_reason"]),
        &text("stop")
    );
}

#[test]
fn each_malformed_chunk_is_named() {
    for (chunk, message) in [
        ("[]", "expected a chunk object"),
        ("{}", "chunk has no choices array"),
        (
            r#"{"choices":[{"index":0,"finish_reason":"error"}]}"#,
            "provider reported a generation error",
        ),
        (
            r#"{"choices":[{"index":0,"delta":7}]}"#,
            "invalid choice delta",
        ),
        (
            r#"{"choices":[{"index":0,"delta":{"content":7}}]}"#,
            "unsupported content delta type",
        ),
        (
            r#"{"choices":[{"index":0,"delta":{"reasoning":{}}}]}"#,
            "unsupported reasoning delta type",
        ),
        (
            r#"{"choices":[{"index":0,"delta":{"reasoning_details":{}}}]}"#,
            "invalid reasoning_details",
        ),
        (
            r#"{"choices":[{"index":0,"delta":{"reasoning_details":[1]}}]}"#,
            "expected an object delta",
        ),
        (
            r#"{"choices":[{"index":0,"delta":{"annotations":1}}]}"#,
            "invalid annotations",
        ),
        (
            r#"{"choices":[{"index":0,"delta":{"tool_calls":1}}]}"#,
            "invalid tool call deltas",
        ),
        (
            r#"{"choices":[{"index":0,"delta":{"tool_calls":[{}]}}]}"#,
            "tool delta has no index",
        ),
        (
            r#"{"choices":[{"index":0,"delta":{"tool_calls":[{"index":0,"id":1}]}}]}"#,
            "invalid tool id",
        ),
        (
            r#"{"choices":[{"index":0,"delta":{"tool_calls":[{"index":0,"function":{"name":1}}]}}]}"#,
            "invalid name delta",
        ),
    ] {
        let failure = Accumulator::default().push(&json(chunk)).unwrap_err();
        assert_eq!(stream_message(failure), message, "{chunk}");
    }
    let mut acc = Accumulator::default();
    for chunk in [
        r#"{"error":{"message":"failed","code":7}}"#,
        r#"{"error":{"code":7,"message":"failed"},"choices":1}"#,
    ] {
        assert_eq!(
            stream_message(acc.push(&json(chunk)).unwrap_err()),
            r#"provider error: {"code":7,"message":"failed"}"#
        );
    }
    assert_eq!(
        stream_message(acc.push_text(r#"{"error": "quota \u00e9"}"#).unwrap_err()),
        "provider error: \"quota é\""
    );
}

#[test]
fn chunks_are_read_from_their_text() {
    let mut acc = Accumulator::default();
    let events = acc
        .push_text(r#"{"choices":[{"index":0,"delta":{"content":"h\u00e9"}}]}"#)
        .unwrap();
    assert_eq!(events, vec![StreamEvent::TextDelta { text: "hé".into() }]);
    assert_eq!(
        acc.push_text("{").unwrap_err(),
        Error::Json("EOF while parsing an object at line 1 column 1".into())
    );
    acc.push_text(r#"{"choices":[{"index":0,"delta":{"content":"llo"},"finish_reason":"stop"}]}"#)
        .unwrap();
    let raw = acc.finish().unwrap();
    assert_eq!(
        at(&raw, &["choices", "0", "message", "content"]),
        &text("héllo")
    );
}

#[test]
fn json_values_are_read_shown_and_decoded_as_serde_does() {
    let text_form = r#"{"z":[1,-2,1.5,true,null,"é\"\n"],"a":{"k":18446744073709551615},"z":0}"#;
    let value: serde_json::Value = serde_json::from_str(text_form).unwrap();
    let parsed = json(text_form);
    assert_eq!(render(&parsed), value.to_string());
    assert_eq!(
        json(r#"[1,-2,1.5]"#),
        Json::Array(vec![
            Json::Unsigned(1),
            Json::Negative(-2),
            Json::Float("1.5".into()),
        ])
    );
    let message = |error: Error| match error {
        Error::Json(message) => message,
        other => panic!("unexpected error {other:?}"),
    };
    for text_form in ["null", "true", "7", "-7", "1.0", "\"x\"", "[1]", "{\"a\":1}"] {
        let value: serde_json::Value = serde_json::from_str(text_form).unwrap();
        let parsed = json(text_form);
        match serde_json::from_value::<String>(value.clone()) {
            Ok(expected) => assert_eq!(decode_text(&parsed).unwrap(), expected),
            Err(error) => {
                assert_eq!(message(decode_text(&parsed).unwrap_err()), error.to_string())
            }
        }
        match serde_json::from_value::<bool>(value.clone()) {
            Ok(expected) => assert_eq!(decode_flag(&parsed).unwrap(), expected),
            Err(error) => {
                assert_eq!(message(decode_flag(&parsed).unwrap_err()), error.to_string())
            }
        }
        match serde_json::from_value::<Vec<serde_json::Value>>(value.clone()) {
            Ok(_) => assert!(check_list(&parsed).is_ok()),
            Err(error) => assert_eq!(message(check_list(&parsed).unwrap_err()), error.to_string()),
        }
        assert_eq!(check_map(&parsed).is_ok(), value.is_object());
    }
    assert_eq!(
        message(decode_text(&json("1.0")).unwrap_err()),
        "invalid type: floating point `1.0`, expected a string"
    );
    assert_eq!(
        message(check_map(&json("[]")).unwrap_err()),
        "invalid type: sequence, expected a map"
    );
    // Numbers keep every digit.
    let digits = "[0.30000000000000004,5e-324,1.7976931348623157e308,-0.0,123456789.12345678]";
    let value: serde_json::Value = serde_json::from_str(digits).unwrap();
    assert_eq!(render(&json(digits)), value.to_string());
    // A number that was kept as text and is none has no value.
    assert_eq!(render(&Json::Float("x".into())), "null");
}

#[test]
fn the_text_that_is_shown_is_the_message() {
    let mut acc = Accumulator::default();
    let mut shown = String::new();
    for delta in ["\"He\"", "null", "\"\"", "\"llo \"", "\"你好\""] {
        let events = acc
            .push(&chunk(&format!(r#"{{"content":{delta}}}"#), "null"))
            .unwrap();
        for event in events {
            if let StreamEvent::TextDelta { text } = event {
                shown.push_str(&text);
            }
        }
    }
    acc.push(&chunk("{}", "\"stop\"")).unwrap();
    let raw = acc.finish().unwrap();
    assert_eq!(
        at(&raw, &["choices", "0", "message", "content"]),
        &text(&shown)
    );
    assert_eq!(shown, "Hello 你好");
}

#[test]
fn choices_that_are_not_the_first_are_passed_over() {
    let mut acc = Accumulator::default();
    let events = acc
        .push(&json(
            r#"{"error":null,"choices":[{"index":1,"delta":7},{"delta":{"content":"x"}},{"index":0,"delta":null,"finish_reason":"stop"}]}"#,
        ))
        .unwrap();
    assert_eq!(events, vec![]);
    let raw = acc.finish().unwrap();
    assert_eq!(
        at(&raw, &["choices", "0", "message"]),
        &json(r#"{"role":"assistant"}"#)
    );
}

#[test]
fn reasoning_details_are_shown_where_no_text_is() {
    let mut acc = Accumulator::default();
    let events = acc
        .push(&chunk(
            r#"{"reasoning_details":[{"text":"a"},{"index":1,"summary":"b"},{"index":1,"data":"c"}]}"#,
            "null",
        ))
        .unwrap();
    assert_eq!(
        events,
        vec![
            StreamEvent::ReasoningDelta { text: "a".into() },
            StreamEvent::ReasoningDelta { text: "b".into() },
        ]
    );
    let events = acc
        .push(&chunk(
            r#"{"reasoning":"r","reasoning_details":[{"text":"a"}]}"#,
            "null",
        ))
        .unwrap();
    assert_eq!(
        events,
        vec![StreamEvent::ReasoningDelta { text: "r".into() }]
    );
}

#[test]
fn unfinished_and_interrupted_answers_are_refused() {
    for (delta, finish, message) in [
        ("{}", "null", "stream ended without a completed choice"),
        (
            "{}",
            r#""insufficient_system_resource""#,
            "generation stopped: insufficient_system_resource",
        ),
        (
            "{}",
            r#""tool_calls""#,
            "stream finished with missing tool calls",
        ),
        (
            r#"{"tool_calls":[{"index":0,"id":"a","function":{"name":"add","arguments":"{}"}}]}"#,
            r#""length""#,
            "tool call generation was interrupted",
        ),
        (
            r#"{"tool_calls":[{"index":0,"id":"","function":{"name":"add","arguments":"{}"}}]}"#,
            r#""tool_calls""#,
            "incomplete or duplicate tool call",
        ),
        (
            r#"{"tool_calls":[{"index":0,"id":"a","function":{"name":"x","arguments":"{}"}},{"index":1,"id":"a","function":{"name":"y","arguments":"{}"}}]}"#,
            r#""tool_calls""#,
            "incomplete or duplicate tool call",
        ),
        (
            r#"{"tool_calls":[{"index":0,"id":"a","type":"other","function":{"name":"x","arguments":"{}"}}]}"#,
            r#""tool_calls""#,
            "incomplete or duplicate tool call",
        ),
        (
            r#"{"tool_calls":[{"index":0,"id":"a","function":{"name":"x","arguments":"[]"}}]}"#,
            r#""stop""#,
            "tool arguments must be a JSON object",
        ),
    ] {
        let mut acc = Accumulator::default();
        acc.push(&chunk(delta, finish)).unwrap();
        assert_eq!(
            stream_message(acc.finish().unwrap_err()),
            message,
            "{delta}"
        );
    }
    let mut acc = Accumulator::default();
    acc.push(&chunk(
        r#"{"tool_calls":[{"index":0,"id":"a","function":{"name":"add","arguments":"{"}}]}"#,
        r#""tool_calls""#,
    ))
    .unwrap();
    assert!(matches!(acc.finish().unwrap_err(), Error::Json(_)));
    for (call, message) in [
        (r#""function":{"arguments":"{}"}"#, "missing field `name`"),
        (r#""function":{"name":"x"}"#, "missing field `arguments`"),
        (
            r#""function":{"name":"x","arguments":"{}"}"#,
            "missing field `id`",
        ),
        (
            r#""type":7,"function":{"name":"x","arguments":"{}"}"#,
            "invalid type: integer `7`, expected a string",
        ),
    ] {
        let mut acc = Accumulator::default();
        let delta = format!(r#"{{"tool_calls":[{{"index":0,{call}}}]}}"#);
        acc.push(&chunk(&delta, r#""tool_calls""#)).unwrap();
        assert_eq!(
            acc.finish().unwrap_err(),
            Error::Json(message.to_string()),
            "{call}"
        );
    }
}

#[test]
fn fragments_are_joined_and_other_fields_replaced() {
    let mut entries: Vec<(String, Json)> = Vec::new();
    let fragments = vec!["text".to_string()];
    merge_object(
        &mut entries,
        &json(r#"{"index":3,"text":"a","kind":"x","none":null}"#),
        &fragments,
    )
    .unwrap();
    merge_object(
        &mut entries,
        &json(r#"{"text":"b","kind":"y"}"#),
        &fragments,
    )
    .unwrap();
    let mut sorted = entries.clone();
    sorted.sort_by(|a, b| a.0.cmp(&b.0));
    assert_eq!(
        sorted,
        vec![
            ("kind".to_string(), text("y")),
            ("text".to_string(), text("ab")),
        ]
    );
    let mut mixed = vec![("text".to_string(), Json::Unsigned(1))];
    assert_eq!(
        stream_message(
            merge_object(&mut mixed, &json(r#"{"text":"b"}"#), &fragments).unwrap_err()
        ),
        "mixed text delta types"
    );
}

#[test]
fn slots_are_ordered_by_index_and_details_keep_theirs() {
    let mut acc = Accumulator::default();
    acc.push(&chunk(
        r#"{"tool_calls":[{"index":9,"id":"z","function":{"name":"z","arguments":"{}"}},{"index":4,"id":"m","function":{"name":"m","arguments":"{}"}}],
            "reasoning_details":[{"index":5,"text":"five"},{"index":1,"text":"one"}],"annotations":[1]}"#,
        "null",
    ))
    .unwrap();
    acc.push(&chunk(r#"{"annotations":[2]}"#, r#""stop""#))
        .unwrap();
    let raw = acc.finish().unwrap();
    let message = at(&raw, &["choices", "0", "message"]);
    assert_eq!(at(message, &["tool_calls", "0", "id"]), &text("m"));
    assert_eq!(at(message, &["tool_calls", "1", "id"]), &text("z"));
    for (place, index, detail) in [("0", 1, "one"), ("1", 5, "five")] {
        assert_eq!(
            at(message, &["reasoning_details", place, "index"]),
            &Json::Unsigned(index)
        );
        assert_eq!(
            at(message, &["reasoning_details", place, "text"]),
            &text(detail)
        );
    }
    assert_eq!(at(message, &["annotations"]), &json("[1,2]"));
}
