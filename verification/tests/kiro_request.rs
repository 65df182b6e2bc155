use yzz_llm_proxy::json::Json;
use yzz_llm_proxy::provider::content::extract_text_content;
use yzz_llm_proxy::provider::kiro::request_builder::{
    build_chat_payload, build_chat_payload_in, build_conversation, convert_message_to_kiro_history,
    convert_tool_calls, convert_tools, extract_system, normalize_content, prepend_system_if_first,
    sanitize_json_schema,
};
use yzz_llm_proxy::types::openai_request::{
    ChatRequest, FunctionCall, FunctionDefinition, Message, Tool, ToolCall,
};

fn json(text: &str) -> Json {
    Json::parse(text).unwrap()
}

fn value(text: &str) -> serde_json::Value {
    serde_json::from_str(text).unwrap()
}

fn message(role: &str, content: &str) -> Message {
    Message {
        role: role.to_string(),
        content: Some(Json::text(content)),
        tool_calls: None,
        tool_call_id: None,
    }
}

fn tool_message(id: &str, content: &str) -> Message {
    Message { tool_call_id: Some(id.to_string()), ..message("tool", content) }
}

fn call(id: &str, name: &str, arguments: &str) -> ToolCall {
    ToolCall {
        id: id.to_string(),
        function: FunctionCall { name: name.to_string(), arguments: arguments.to_string() },
    }
}

fn request(messages: Vec<Message>) -> ChatRequest {
    ChatRequest {
        model: "kiro/glm-5".to_string(),
        messages,
        stream: false,
        temperature: None,
        max_tokens: None,
        tools: None,
    }
}

fn payload(messages: Vec<Message>) -> serde_json::Value {
    build_chat_payload_in(&request(messages), "glm-5", "arn", "conv").to_value()
}

fn current(payload: &serde_json::Value) -> &serde_json::Value {
    &payload["conversationState"]["currentMessage"]["userInputMessage"]
}

#[test]
fn the_prompt_goes_before_the_first_message() {
    assert_eq!(prepend_system_if_first(true, "Be kind.", "Hi"), "Be kind.\n\nHi");
    assert_eq!(prepend_system_if_first(false, "Be kind.", "Hi"), "Hi");
    assert_eq!(prepend_system_if_first(true, "", "Hi"), "Hi");
}

#[test]
fn empty_content_is_replaced() {
    assert_eq!(normalize_content("", "(empty result)"), "(empty result)");
    assert_eq!(normalize_content("x", "(empty result)"), "x");
}

#[test]
fn system_messages_are_joined_by_lines() {
    let messages =
        vec![message("system", "a"), message("user", "u"), message("system", "b"), message("x", "y")];
    let (prompt, others) = extract_system(&messages);
    assert_eq!(prompt, "a\nb");
    assert_eq!(others.len(), 2);
    assert_eq!(others[0].role, "user");
    assert_eq!(others[1].role, "x");
}

#[test]
fn the_text_of_a_content() {
    assert_eq!(extract_text_content(&None), "");
    assert_eq!(extract_text_content(&Some(Json::Null)), "");
    assert_eq!(extract_text_content(&Some(json("\"Hello world\""))), "Hello world");
    assert_eq!(
        extract_text_content(&Some(json(
            r#"[{"type":"text","text":"What's in "},{"type":"image_url","image_url":{"url":"u"}},
                {"type":"text"},{"text":"no"},5,{"type":"text","text":"this image?"}]"#
        ))),
        "What's in this image?"
    );
    assert_eq!(extract_text_content(&Some(json("42"))), "42");
    assert_eq!(extract_text_content(&Some(json("true"))), "true");
    assert_eq!(extract_text_content(&Some(json(r#"{"b": 1, "a": [2]}"#))), r#"{"a":[2],"b":1}"#);
}

#[test]
fn a_user_message_in_the_history() {
    let entry =
        convert_message_to_kiro_history(&message("user", "Write Rust code."), "Sys", true, "m").unwrap();
    assert_eq!(
        entry.to_value(),
        value(
            r#"{"userInputMessage":{"content":"Sys\n\nWrite Rust code.","modelId":"m","origin":"AI_EDITOR"}}"#
        )
    );
    let later =
        convert_message_to_kiro_history(&message("user", "More."), "Sys", false, "m").unwrap();
    assert_eq!(
        later.to_value(),
        value(r#"{"userInputMessage":{"content":"More.","modelId":"m","origin":"AI_EDITOR"}}"#)
    );
}

#[test]
fn an_assistant_message_in_the_history() {
    let mut said = message("assistant", "fn main() {}");
    said.tool_calls = Some(vec![call("call_001", "query_db", r#"{"sql":"SELECT"}"#)]);
    assert_eq!(
        convert_message_to_kiro_history(&said, "", true, "m").unwrap().to_value(),
        value(
            r#"{"assistantResponseMessage":{"content":"fn main() {}",
                "toolUses":[{"toolUseId":"call_001","name":"query_db","input":{"sql":"SELECT"}}]}}"#
        )
    );
    let mut silent = message("assistant", "");
    silent.content = Some(Json::Null);
    silent.tool_calls = Some(vec![]);
    assert_eq!(
        convert_message_to_kiro_history(&silent, "", true, "m").unwrap().to_value(),
        value(r#"{"assistantResponseMessage":{"content":"(empty placeholder)"}}"#)
    );
}

#[test]
fn a_tool_result_in_the_history() {
    assert_eq!(
        convert_message_to_kiro_history(&tool_message("call_001", "1000"), "S", true, "m")
            .unwrap()
            .to_value(),
        value(
            r#"{"userInputMessage":{"content":"","modelId":"m","origin":"AI_EDITOR",
                "userInputMessageContext":{"toolResults":[
                {"content":[{"text":"1000"}],"status":"success","toolUseId":"call_001"}]}}}"#
        )
    );
    let mut nameless = message("tool", "");
    nameless.content = None;
    let entry = convert_message_to_kiro_history(&nameless, "S", true, "m").unwrap().to_value();
    assert_eq!(
        entry["userInputMessage"]["userInputMessageContext"]["toolResults"][0],
        value(r#"{"content":[{"text":"(empty result)"}],"status":"success","toolUseId":""}"#)
    );
}

#[test]
fn an_unknown_role_has_no_history() {
    assert!(convert_message_to_kiro_history(&message("developer", "x"), "", true, "m").is_none());
}

#[test]
fn the_system_prompt_goes_to_the_first_user_message_alone() {
    let p = payload(vec![
        message("system", "Sys"),
        message("assistant", "before"),
        message("user", "one"),
        message("assistant", "two"),
        message("user", "three"),
    ]);
    let history = p["conversationState"]["history"].as_array().unwrap();
    assert_eq!(history.len(), 3);
    assert_eq!(history[0]["assistantResponseMessage"]["content"], value("\"before\""));
    assert_eq!(history[1]["userInputMessage"]["content"], value("\"Sys\\n\\none\""));
    assert_eq!(history[2]["assistantResponseMessage"]["content"], value("\"two\""));
    assert_eq!(current(&p)["content"], value("\"three\""));
}

#[test]
fn the_system_prompt_goes_to_the_current_message_where_it_is_the_first() {
    let p = payload(vec![message("assistant", "a"), message("system", "Sys"), message("user", "u")]);
    assert_eq!(current(&p)["content"], value("\"Sys\\n\\nu\""));
}

#[test]
fn after_the_assistant_kiro_is_asked_to_continue() {
    let p = payload(vec![message("user", "u"), message("assistant", "fn main() {}")]);
    assert_eq!(current(&p)["content"], value("\"Continue\""));
    let history = p["conversationState"]["history"].as_array().unwrap();
    assert_eq!(history[1], value(r#"{"assistantResponseMessage":{"content":"fn main() {}"}}"#));
}

#[test]
fn without_a_conversation_kiro_is_greeted() {
    let only_system = payload(vec![message("system", "Sys")]);
    assert_eq!(current(&only_system)["content"], value("\"Sys\\n\\nHello\""));
    assert!(only_system["conversationState"].get("history").is_none());
    let nothing = payload(vec![]);
    assert_eq!(current(&nothing)["content"], value("\"Hello\""));
    assert!(nothing["conversationState"].get("history").is_none());
}

#[test]
fn a_tool_result_as_the_last_message() {
    let p = payload(vec![message("user", "u"), tool_message("call_001", "1000")]);
    assert_eq!(
        *current(&p),
        value(
            r#"{"content":"","modelId":"glm-5","origin":"AI_EDITOR","userInputMessageContext":{
                "toolResults":[{"content":[{"text":"1000"}],"status":"success","toolUseId":"call_001"}]}}"#
        )
    );
}

#[test]
fn an_unknown_role_at_the_end_speaks_as_a_user() {
    let p = payload(vec![message("system", "Sys"), message("developer", "x")]);
    assert_eq!(current(&p)["content"], value("\"Sys\\n\\nx\""));
}

#[test]
fn a_whole_request() {
    let mut r = request(vec![message("user", "hello")]);
    r.tools = Some(vec![Tool {
        tool_type: "function".to_string(),
        function: Some(FunctionDefinition {
            name: "query_db".to_string(),
            description: Some("Run SQL".to_string()),
            parameters: Some(json(
                r#"{"type":"object","properties":{"sql":{"type":"string"}},"required":["sql"],"additionalProperties":false}"#,
            )),
        }),
    }]);
    assert_eq!(
        build_chat_payload_in(&r, "glm-5", "arn:x", "abc").to_value(),
        value(
            r#"{"profileArn":"arn:x","conversationState":{"chatTriggerType":"MANUAL","conversationId":"abc",
                "currentMessage":{"userInputMessage":{"content":"hello","modelId":"glm-5","origin":"AI_EDITOR",
                "userInputMessageContext":{"tools":[{"toolSpecification":{"name":"query_db","description":"Run SQL",
                "inputSchema":{"json":{"type":"object","properties":{"sql":{"type":"string"}},"required":["sql"]}}}}]}}}}}"#
        )
    );
    assert_eq!(
        build_chat_payload_in(&request(vec![]), "m", "", "abc").to_value().get("profileArn"),
        None
    );
}

#[test]
fn a_new_request_begins_a_new_conversation() {
    let r = request(vec![message("user", "hello")]);
    let one = build_chat_payload(&r, "glm-5", "arn").to_value();
    let two = build_chat_payload(&r, "glm-5", "arn").to_value();
    let id = one["conversationState"]["conversationId"].as_str().unwrap().to_string();
    assert_eq!(id.len(), 32);
    assert!(id.chars().all(|c| c.is_ascii_digit() || ('a'..='f').contains(&c)));
    assert_eq!(id.as_bytes()[12], b'4');
    assert_ne!(one, two);
    assert_eq!(build_chat_payload_in(&r, "glm-5", "arn", &id).to_value(), one);
}

#[test]
fn tool_calls_have_parsed_arguments() {
    let uses = convert_tool_calls(&[call("1", "a", r#"{"x": [1]}"#), call("2", "b", "oops")]);
    assert_eq!(uses[0].to_value(), value(r#"{"toolUseId":"1","name":"a","input":{"x":[1]}}"#));
    assert_eq!(uses[1].to_value(), value(r#"{"toolUseId":"2","name":"b","input":{}}"#));
}

#[test]
fn only_functions_are_tools() {
    let tools = vec![
        Tool { tool_type: "web".to_string(), function: None },
        Tool { tool_type: "function".to_string(), function: None },
        Tool {
            tool_type: "function".to_string(),
            function: Some(FunctionDefinition {
                name: "f".to_string(),
                description: None,
                parameters: None,
            }),
        },
    ];
    let converted = convert_tools(&tools);
    assert_eq!(converted.len(), 1);
    assert_eq!(
        converted[0].to_value(),
        value(r#"{"toolSpecification":{"name":"f","description":"Tool: f","inputSchema":{"json":{}}}}"#)
    );
}

#[test]
fn schemas_are_cleaned_on_every_level() {
    let schema = json(
        r#"{"type":"object","properties":{"query":{"type":"string"},"filters":{"type":"object",
            "properties":{"date_range":{"type":"object","properties":{"start":{"type":"string"}},
            "additionalProperties":false,"required":[]}},"additionalProperties":false,"required":[]},
            "any":[{"additionalProperties":1},{"required":[[]]}]},
            "additionalProperties":false,"required":["query"]}"#,
    );
    let clean = sanitize_json_schema(&schema);
    assert_eq!(
        clean.to_value(),
        value(
            r#"{"type":"object","properties":{"query":{"type":"string"},"filters":{"type":"object",
                "properties":{"date_range":{"type":"object","properties":{"start":{"type":"string"}}}}},
                "any":[{},{"required":[[]]}]},"required":["query"]}"#
        )
    );
    assert_eq!(sanitize_json_schema(&clean).to_value(), clean.to_value());
    assert_eq!(sanitize_json_schema(&json(r#"{"required":"no"}"#)).to_value(), value(r#"{"required":"no"}"#));
}

#[test]
fn a_conversation_keeps_its_order() {
    let messages = vec![message("user", "1"), message("x", "2"), message("assistant", "3"), message("user", "4")];
    let others: Vec<&Message> = messages.iter().collect();
    let (current, history) = build_conversation(&others, "", "m");
    assert_eq!(current.content, "4");
    assert!(current.tool_results.is_empty());
    assert_eq!(history.len(), 2);
    assert_eq!(history[0].to_value()["userInputMessage"]["content"], value("\"1\""));
    assert_eq!(history[1].to_value()["assistantResponseMessage"]["content"], value("\"3\""));
}
