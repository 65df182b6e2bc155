use yzz_llm_proxy::http::{is_header_text, Method, Reply, Status};
use yzz_llm_proxy::json::Json;
use yzz_llm_proxy::provider::dashscope::client::{chat_dashscope, status_after};
use yzz_llm_proxy::provider::dashscope::request_builder::{
    build_anthropic_payload, convert_messages, convert_tools, convert_user_content,
    get_dashscope_headers,
};
use yzz_llm_proxy::types::openai_request::{
    ChatRequest, FunctionCall, FunctionDefinition, Message, Tool, ToolCall,
};

fn json(text: &str) -> Json {
    Json::parse(text).unwrap()
}

fn value(text: &str) -> serde_json::Value {
    serde_json::from_str(text).unwrap()
}

fn message(role: &str, content: &str) -> Message {
    Message {
        role: role.to_string(),
        content: Some(Json::text(content)),
        tool_calls: None,
        tool_call_id: None,
    }
}

fn tool_message(id: &str, content: &str) -> Message {
    Message { tool_call_id: Some(id.to_string()), ..message("tool", content) }
}

fn weather_call() -> ToolCall {
    ToolCall {
        id: "call_001".to_string(),
        function: FunctionCall {
            name: "get_weather".to_string(),
            arguments: "{\"city\":\"Singapore\"}".to_string(),
        },
    }
}

fn weather_request() -> ChatRequest {
    let mut said = message("assistant", "Let me check that for you.");
    said.tool_calls = Some(vec![weather_call()]);
    ChatRequest {
        model: "dashscope/qwen3.5-plus".to_string(),
        messages: vec![
            message("system", "You are a helpful assistant."),
            message("user", "What's the weather in Singapore?"),
            said,
            tool_message("call_001", "{\"temperature\":32}"),
            message("user", "Thanks! How about Tokyo?"),
        ],
        stream: true,
        temperature: serde_json::Number::from_f64(0.7),
        max_tokens: Some(4096),
        tools: Some(vec![Tool {
            tool_type: "function".to_string(),
            function: Some(FunctionDefinition {
                name: "get_weather".to_string(),
                description: Some("Get weather".to_string()),
                parameters: Some(json(
                    r#"{"type":"object","properties":{"city":{"type":"string"}},"required":["city"]}"#,
                )),
            }),
        }]),
    }
}

fn weather_payload() -> serde_json::Value {
    value(
        r#"{"model":"qwen3.5-plus","stream":true,"temperature":0.7,"max_tokens":4096,
            "system":"You are a helpful assistant.",
            "messages":[
            {"role":"user","content":"What's the weather in Singapore?"},
            {"role":"assistant","content":[{"type":"text","text":"Let me check that for you."},
             {"type":"tool_use","id":"call_001","name":"get_weather","input":{"city":"Singapore"}}]},
            {"role":"user","content":[{"type":"tool_result","tool_use_id":"call_001","content":"{\"temperature\":32}"}]},
            {"role":"user","content":"Thanks! How about Tokyo?"}],
            "tools":[{"name":"get_weather","description":"Get weather",
             "input_schema":{"type":"object","properties":{"city":{"type":"string"}},"required":["city"]}}]}"#,
    )
}

fn converted(messages: Vec<Message>) -> Vec<serde_json::Value> {
    convert_messages(&messages).1.iter().map(|m| m.to_value()).collect()
}

#[test]
fn a_whole_anthropic_request() {
    assert_eq!(
        build_anthropic_payload(&weather_request(), "qwen3.5-plus").to_value(),
        weather_payload()
    );
}

#[test]
fn what_a_request_does_not_say_is_left_out() {
    let request = ChatRequest {
        model: "m".to_string(),
        messages: vec![],
        stream: false,
        temperature: None,
        max_tokens: None,
        tools: Some(vec![Tool { tool_type: "web".to_string(), function: None }]),
    };
    assert_eq!(
        build_anthropic_payload(&request, "q").to_value(),
        value(r#"{"model":"q","messages":[],"stream":false,"max_tokens":8192}"#)
    );
}

#[test]
fn user_content_of_every_kind() {
    assert_eq!(convert_user_content(&None).to_value(), value("\"\""));
    assert_eq!(convert_user_content(&Some(Json::Null)).to_value(), value("\"\""));
    assert_eq!(convert_user_content(&Some(json("\"Hello world\""))).to_value(), value("\"Hello world\""));
    assert_eq!(convert_user_content(&Some(json("42"))).to_value(), value("\"42\""));
    assert_eq!(convert_user_content(&Some(json("false"))).to_value(), value("\"false\""));
    assert_eq!(
        convert_user_content(&Some(json(r#"{"a": 1}"#))).to_value(),
        serde_json::Value::String("{\"a\":1}".to_string())
    );
}

#[test]
fn images_in_data_urls() {
    assert_eq!(
        convert_user_content(&Some(json(
            r#"[{"type":"text","text":"What's in this image?"},
                {"type":"image_url","image_url":{"url":"data:image/png;base64,iVBOR,w0"}}]"#
        )))
        .to_value(),
        value(
            r#"[{"type":"text","text":"What's in this image?"},
                {"type":"image","source":{"type":"base64","media_type":"image/png","data":"iVBOR,w0"}}]"#
        )
    );
}

#[test]
fn images_by_address() {
    assert_eq!(
        convert_user_content(&Some(json(
            r#"[{"type":"text","text":"Describe this"},
                {"type":"image_url","image_url":{"url":"https://example.com/photo.jpg"}}]"#
        )))
        .to_value(),
        value(
            r#"[{"type":"text","text":"Describe this"},
                {"type":"image","source":{"type":"url","url":"https://example.com/photo.jpg"}}]"#
        )
    );
}

#[test]
fn blocks_that_cannot_be_read_are_left_out() {
    assert_eq!(
        convert_user_content(&Some(json(
            r#"[{"type":"image_url","image_url":{"url":"data:nothing"}},{"type":"image_url"},
                {"type":"image_url","image_url":{"url":5}},{"type":"text"},{"type":"audio"},7,
                {"text":"x"},{"type":"tool_result"}]"#
        )))
        .to_value(),
        value("[]")
    );
}

#[test]
fn repeated_marks_of_a_data_url_are_trimmed() {
    assert_eq!(
        convert_user_content(&Some(json(
            r#"[{"type":"image_url","image_url":{"url":"data:data:text/plain;base64;base64,x"}},
                {"type":"image_url","image_url":{"url":"data:,"}}]"#
        )))
        .to_value(),
        value(
            r#"[{"type":"image","source":{"type":"base64","media_type":"text/plain","data":"x"}},
                {"type":"image","source":{"type":"base64","media_type":"","data":""}}]"#
        )
    );
}

#[test]
fn system_messages_stand_beside_the_others() {
    let (prompt, messages) = convert_messages(&[
        message("system", "a"),
        message("developer", "x"),
        message("system", "b"),
    ]);
    assert_eq!(prompt, "a\nb");
    assert!(messages.is_empty());
}

#[test]
fn an_assistant_that_says_nothing_says_the_empty_text() {
    let mut silent = message("assistant", "");
    silent.content = None;
    assert_eq!(
        converted(vec![silent]),
        vec![value(r#"{"role":"assistant","content":[{"type":"text","text":""}]}"#)]
    );
    let mut calls = message("assistant", "");
    calls.tool_calls = Some(vec![weather_call()]);
    assert_eq!(
        converted(vec![calls]),
        vec![value(
            r#"{"role":"assistant","content":[{"type":"tool_use","id":"call_001","name":"get_weather","input":{"city":"Singapore"}}]}"#
        )]
    );
}

#[test]
fn arguments_that_are_no_json_become_an_empty_object() {
    let mut said = message("assistant", "x");
    let mut call = weather_call();
    call.function.arguments = "{".to_string();
    said.tool_calls = Some(vec![call]);
    assert_eq!(converted(vec![said])[0]["content"][1]["input"], value("{}"));
}

#[test]
fn tool_results_join_each_other() {
    assert_eq!(
        converted(vec![
            message("user", "u"),
            tool_message("1", "a"),
            tool_message("2", "b"),
            message("assistant", "c"),
            tool_message("3", "d"),
        ]),
        vec![
            value(r#"{"role":"user","content":"u"}"#),
            value(
                r#"{"role":"user","content":[{"type":"tool_result","tool_use_id":"1","content":"a"},
                    {"type":"tool_result","tool_use_id":"2","content":"b"}]}"#
            ),
            value(r#"{"role":"assistant","content":[{"type":"text","text":"c"}]}"#),
            value(r#"{"role":"user","content":[{"type":"tool_result","tool_use_id":"3","content":"d"}]}"#),
        ]
    );
}

#[test]
fn tool_results_do_not_join_what_a_user_said() {
    let mut blocks = message("user", "");
    blocks.content = Some(json(r#"[{"type":"text","text":"x"}]"#));
    let out = converted(vec![blocks, tool_message("1", "a")]);
    assert_eq!(out.len(), 2);
    let mut empty = message("user", "");
    empty.content = Some(json("[]"));
    assert_eq!(
        converted(vec![empty, tool_message("1", "a")]),
        vec![value(r#"{"role":"user","content":[{"type":"tool_result","tool_use_id":"1","content":"a"}]}"#)]
    );
}

#[test]
fn a_tool_result_without_a_call_has_an_empty_name() {
    let out = converted(vec![message("tool", "a")]);
    assert_eq!(out[0]["content"][0]["tool_use_id"], value("\"\""));
}

#[test]
fn tools_without_description_or_schema() {
    let tools = convert_tools(&[Tool {
        tool_type: "function".to_string(),
        function: Some(FunctionDefinition {
            name: "f".to_string(),
            description: None,
            parameters: None,
        }),
    }]);
    assert_eq!(
        tools[0].to_value(),
        value(r#"{"name":"f","input_schema":{"type":"object","properties":{}}}"#)
    );
}

#[test]
fn the_headers_of_dashscope() {
    let headers = get_dashscope_headers("sk-1", "agent");
    assert_eq!(headers.len(), 5);
    assert_eq!(headers.get("x-api-key").unwrap(), "sk-1");
    assert_eq!(headers.get("anthropic-version").unwrap(), "2023-06-01");
    assert_eq!(headers.get("anthropic-beta").unwrap(), "agent-code-20250219");
    assert_eq!(headers.get("user-agent").unwrap(), "agent-cli/1.0.108 (external, cli)");
    assert_eq!(headers.get("content-type").unwrap(), "application/json");
}

#[test]
fn what_may_stand_in_a_header() {
    assert!(is_header_text("sk-1\t é"));
    assert!(!is_header_text("a\nb"));
    assert!(!is_header_text("\u{7f}"));
    for text in ["sk-1", "a\tb", "é", "a\nb", "\u{7f}", "\u{80}", "\u{1f}", ""] {
        assert_eq!(is_header_text(text), axum::http::HeaderValue::from_str(text).is_ok());
    }
}

#[test]
fn the_call_to_dashscope() {
    let call = chat_dashscope("https://d.example/v1//", "sk-1", &weather_request(), "qwen3.5-plus", "agent");
    assert_eq!(call.method, Method::Post);
    assert_eq!(call.url, "https://d.example/v1/messages");
    assert_eq!(call.headers.get("x-api-key").unwrap(), "sk-1");
    assert_eq!(call.bearer, None);
    assert!(call.query.is_empty());
    assert_eq!(call.body.unwrap().to_value(), weather_payload());
    assert_eq!(call.timeout_secs, Some(36000));
}

#[test]
fn the_answer_of_dashscope_cannot_be_passed_on() {
    assert_eq!(status_after(Reply::Failed), Status::BadGateway);
    assert_eq!(status_after(Reply::Answered(500)), Status::BadGateway);
    assert_eq!(status_after(Reply::Answered(200)), Status::NotImplemented);
}
