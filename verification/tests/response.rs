use yzz_llm_proxy::json::Json;
use yzz_llm_proxy::provider::kiro::response_builder::{
    build_finish_event, build_json_response, build_sse_stream, build_tool_calls_event,
    handle_content_event, json_response, SseStream,
};

fn json(text: &str) -> Json {
    Json::parse(text).unwrap()
}

fn value(text: &str) -> serde_json::Value {
    serde_json::from_str(text).unwrap()
}

fn answer() -> Vec<u8> {
    let events = [
        r#"{"content":"Hello","modelId":"glm-5"}"#,
        r#"{"content":" world","modelId":"glm-5"}"#,
        r#"{"content":"","modelId":"glm-5"}"#,
        r#"{"name":"read","toolUseId":"tooluse_xxx"}"#,
        r#"{"input":"{\"filePath\": \"src/","name":"read","toolUseId":"tooluse_xxx"}"#,
        r#"{"input":"main.rs\"}","name":"read","toolUseId":"tooluse_xxx"}"#,
        r#"{"name":"read","stop":true,"toolUseId":"tooluse_xxx"}"#,
        r#"{"contextUsagePercentage":6.3}"#,
        r#"{"unit":"credit","unitPlural":"credits","usage":0.15}"#,
        r#"{"stopReason":"TOOL_USE"}"#,
    ];
    let mut bytes = Vec::new();
    for event in events {
        bytes.extend_from_slice(&[0x00, 0x00, 0x00, 0x89]);
        bytes.extend_from_slice(b":message-type\x07\x00\x05event");
        bytes.extend_from_slice(event.as_bytes());
        bytes.extend_from_slice(&[0x27, 0x76]);
    }
    bytes
}

fn streamed(chunks: &[Vec<u8>]) -> Vec<String> {
    let mut stream =
        SseStream::new("chatcmpl-xxx".to_string(), 1723190400, "kiro/glm-5".to_string());
    let mut out = Vec::new();
    for chunk in chunks {
        out.extend(stream.on_chunk(chunk));
    }
    out.extend(stream.finish());
    out
}

#[test]
fn the_first_piece_of_text_says_who_speaks() {
    let mut first = true;
    let one = handle_content_event(&json(r#"{"content":"Hello","modelId":"m"}"#), &mut first, "chatcmpl-xxx", 5, "kiro/glm-5");
    assert!(!first);
    assert_eq!(
        one.unwrap(),
        r#"{"choices":[{"delta":{"content":"Hello","role":"assistant"},"finish_reason":null,"index":0}],"created":5,"id":"chatcmpl-xxx","model":"kiro/glm-5","object":"chat.completion.chunk"}"#
    );
    let two = handle_content_event(&json(r#"{"content":" world","modelId":"m"}"#), &mut first, "chatcmpl-xxx", 5, "kiro/glm-5");
    assert_eq!(
        two.unwrap(),
        r#"{"choices":[{"delta":{"content":" world"},"finish_reason":null,"index":0}],"created":5,"id":"chatcmpl-xxx","model":"kiro/glm-5","object":"chat.completion.chunk"}"#
    );
}

#[test]
fn an_event_without_text_sends_nothing() {
    let mut first = true;
    for event in [r#"{"content":""}"#, r#"{"content":5}"#, r#"{"stopReason":"END_TURN"}"#, "7"] {
        assert!(handle_content_event(&json(event), &mut first, "i", 5, "m").is_none());
        assert!(first);
    }
}

#[test]
fn tool_calls_are_sent_in_one_event() {
    assert!(build_tool_calls_event(&[], "i", 5, "m").is_none());
    let calls = vec![json(r#"{"index":0}"#), json(r#"{"index":1}"#)];
    assert_eq!(
        value(&build_tool_calls_event(&calls, "i", 5, "m").unwrap()),
        value(
            r#"{"id":"i","object":"chat.completion.chunk","created":5,"model":"m",
                "choices":[{"index":0,"delta":{"tool_calls":[{"index":0},{"index":1}]},"finish_reason":null}]}"#
        )
    );
}

#[test]
fn the_last_event_says_why_the_answer_ends() {
    assert_eq!(
        value(&build_finish_event("i", -5, "m", "stop")),
        value(
            r#"{"id":"i","object":"chat.completion.chunk","created":-5,"model":"m",
                "choices":[{"index":0,"delta":{},"finish_reason":"stop"}]}"#
        )
    );
}

#[test]
fn an_answer_as_a_stream() {
    let data = streamed(&[answer()]);
    assert_eq!(data.len(), 5);
    assert_eq!(
        value(&data[0]),
        value(
            r#"{"id":"chatcmpl-xxx","object":"chat.completion.chunk","created":1723190400,"model":"kiro/glm-5",
                "choices":[{"index":0,"delta":{"role":"assistant","content":"Hello"},"finish_reason":null}]}"#
        )
    );
    assert_eq!(
        value(&data[1]),
        value(
            r#"{"id":"chatcmpl-xxx","object":"chat.completion.chunk","created":1723190400,"model":"kiro/glm-5",
                "choices":[{"index":0,"delta":{"content":" world"},"finish_reason":null}]}"#
        )
    );
    assert_eq!(
        value(&data[2]),
        value(
            r#"{"id":"chatcmpl-xxx","object":"chat.completion.chunk","created":1723190400,"model":"kiro/glm-5",
                "choices":[{"index":0,"delta":{"tool_calls":[{"index":0,"id":"tooluse_xxx","type":"function",
                "function":{"name":"read","arguments":"{\"filePath\":\"src/main.rs\"}"}}]},"finish_reason":null}]}"#
        )
    );
    assert_eq!(
        value(&data[3]),
        value(
            r#"{"id":"chatcmpl-xxx","object":"chat.completion.chunk","created":1723190400,"model":"kiro/glm-5",
                "choices":[{"index":0,"delta":{},"finish_reason":"tool_calls"}]}"#
        )
    );
    assert_eq!(data[4], "[DONE]");
}

#[test]
fn a_stream_does_not_depend_on_its_chunks() {
    let bytes = answer();
    let whole = streamed(&[bytes.clone()]);
    for size in [1, 2, 3, 7, 50] {
        let chunks: Vec<Vec<u8>> = bytes.chunks(size).map(|c| c.to_vec()).collect();
        assert_eq!(streamed(&chunks), whole);
    }
}

#[test]
fn an_empty_stream_stops() {
    let data = streamed(&[]);
    assert_eq!(data.len(), 2);
    assert_eq!(value(&data[0])["choices"][0]["finish_reason"], value("\"stop\""));
    assert_eq!(data[1], "[DONE]");
}

#[test]
fn an_answer_as_one_object() {
    let response = json_response(&[answer()], "kiro/glm-5", "chatcmpl-xxx", 1723190400);
    assert_eq!(
        response.to_value(),
        value(
            r#"{"id":"chatcmpl-xxx","object":"chat.completion","created":1723190400,"model":"kiro/glm-5",
                "choices":[{"index":0,"message":{"role":"assistant","content":"Hello world","tool_calls":[
                {"index":0,"id":"tooluse_xxx","type":"function","function":{"name":"read","arguments":"{\"filePath\":\"src/main.rs\"}"}}]},
                "finish_reason":"tool_calls"}]}"#
        )
    );
}

#[test]
fn an_answer_with_text_alone() {
    let chunks = vec![b"event{\"content\":\"Hi\"}".to_vec(), b"event{\"content\":\"!\"}".to_vec()];
    assert_eq!(
        json_response(&chunks, "m", "i", 1).to_value(),
        value(
            r#"{"id":"i","object":"chat.completion","created":1,"model":"m",
                "choices":[{"index":0,"message":{"role":"assistant","content":"Hi!"},"finish_reason":"stop"}]}"#
        )
    );
}

#[test]
fn an_answer_without_text_has_null_content() {
    let response = json_response(&[], "m", "i", 1).to_value();
    assert_eq!(response["choices"][0]["message"], value(r#"{"role":"assistant","content":null}"#));
}

#[test]
fn the_stream_and_the_object_agree() {
    let bytes = answer();
    let chunks: Vec<Vec<u8>> = bytes.chunks(11).map(|c| c.to_vec()).collect();
    let whole = json_response(&chunks, "kiro/glm-5", "chatcmpl-xxx", 1723190400).to_value();
    let mut content = String::new();
    let mut calls = Vec::new();
    let mut reason = serde_json::Value::Null;
    for data in streamed(&chunks) {
        if data != "[DONE]" {
            let choice = value(&data)["choices"][0].clone();
            if let Some(text) = choice["delta"]["content"].as_str() {
                content.push_str(text);
            }
            if let Some(list) = choice["delta"]["tool_calls"].as_array() {
                calls.extend(list.clone());
            }
            reason = choice["finish_reason"].clone();
        }
    }
    let choice = &whole["choices"][0];
    assert_eq!(choice["message"]["content"].as_str(), Some(content.as_str()));
    assert_eq!(choice["message"]["tool_calls"].as_array(), Some(&calls));
    assert_eq!(choice["finish_reason"], reason);
}

#[test]
fn new_answers_get_identifiers_and_times() {
    let stream = build_sse_stream("kiro/glm-5".to_string());
    assert!(stream.completion_id.starts_with("chatcmpl-"));
    assert_eq!(stream.completion_id.len(), 9 + 36);
    assert!(stream.created > 1_600_000_000);
    assert_eq!(stream.model, "kiro/glm-5");
    let other = build_sse_stream("kiro/glm-5".to_string());
    assert_ne!(stream.completion_id, other.completion_id);
    let whole = build_json_response(&[answer()], "kiro/glm-5").to_value();
    assert!(whole["id"].as_str().unwrap().starts_with("chatcmpl-"));
    assert!(whole["created"].as_i64().unwrap() > 1_600_000_000);
    assert_eq!(whole["model"], value("\"kiro/glm-5\""));
}

#[test]
fn bytes_that_are_no_text_are_replaced() {
    let chunks = vec![b"event{\"content\":\"a\xffb\"}".to_vec()];
    let response = json_response(&chunks, "m", "i", 1).to_value();
    assert_eq!(response["choices"][0]["message"]["content"], value("\"a\u{fffd}b\""));
}
