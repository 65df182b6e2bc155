use yzz_llm_proxy::json::Json;
use yzz_llm_proxy::provider::kiro::response_builder::CallCollector;
use yzz_llm_proxy::provider::kiro::tool_calls::{with_index, ToolCallAccumulator};

fn json(text: &str) -> Json {
    Json::parse(text).unwrap()
}

fn value(text: &str) -> serde_json::Value {
    serde_json::from_str(text).unwrap()
}

#[test]
fn a_new_accumulator_knows_no_call() {
    let mut calls = ToolCallAccumulator::new();
    assert!(calls.process(&json(r#"{"name":"a","toolUseId":"t","stop":true}"#)).is_none());
}

#[test]
fn a_call_in_three_phases() {
    let mut calls = ToolCallAccumulator::new();
    assert!(calls.process(&json(r#"{"name":"skill","toolUseId":"tooluse_K3Yc"}"#)).is_none());
    assert!(calls
        .process(&json(
            r#"{"name":"skill","toolUseId":"tooluse_K3Yc","input":"{\"name\": \"gril"}"#
        ))
        .is_none());
    assert!(calls
        .process(&json(r#"{"name":"skill","toolUseId":"tooluse_K3Yc","input":"ling\"}"}"#))
        .is_none());
    let call =
        calls.process(&json(r#"{"name":"skill","toolUseId":"tooluse_K3Yc","stop":true}"#)).unwrap();
    assert_eq!(
        call.to_value(),
        value(
            r#"{"index":0,"id":"tooluse_K3Yc","type":"function",
                "function":{"name":"skill","arguments":"{\"name\":\"grilling\"}"}}"#
        )
    );
    assert!(calls
        .process(&json(r#"{"name":"skill","toolUseId":"tooluse_K3Yc","stop":true}"#))
        .is_none());
}

#[test]
fn a_call_may_begin_with_its_arguments() {
    let mut calls = ToolCallAccumulator::new();
    assert!(calls.process(&json(r#"{"name":"a","toolUseId":"t","input":"[1, 2]"}"#)).is_none());
    let call = calls.process(&json(r#"{"name":"b","toolUseId":"t","stop":true}"#)).unwrap();
    assert_eq!(
        call.to_value(),
        value(
            r#"{"index":0,"id":"t","type":"function","function":{"name":"a","arguments":"[1,2]"}}"#
        )
    );
}

#[test]
fn arguments_that_are_no_json_count_as_none() {
    let mut calls = ToolCallAccumulator::new();
    calls.process(&json(r#"{"name":"a","toolUseId":"t","input":"{oops"}"#));
    let call = calls.process(&json(r#"{"name":"a","toolUseId":"t","stop":true}"#)).unwrap();
    assert_eq!(
        call.to_value(),
        value(r#"{"index":0,"id":"t","type":"function","function":{"name":"a","arguments":"{}"}}"#)
    );
}

#[test]
fn calls_may_run_side_by_side() {
    let mut calls = ToolCallAccumulator::new();
    calls.process(&json(r#"{"name":"a","toolUseId":"1"}"#));
    calls.process(&json(r#"{"name":"b","toolUseId":"2"}"#));
    calls.process(&json(r#"{"name":"a","toolUseId":"1","input":"{\"x\":"}"#));
    calls.process(&json(r#"{"name":"b","toolUseId":"2","input":"{\"y\":"}"#));
    calls.process(&json(r#"{"name":"a","toolUseId":"1","input":"1}"}"#));
    calls.process(&json(r#"{"name":"b","toolUseId":"2","input":"2}"}"#));
    let second = calls.process(&json(r#"{"name":"b","toolUseId":"2","stop":true}"#)).unwrap();
    let first = calls.process(&json(r#"{"name":"a","toolUseId":"1","stop":true}"#)).unwrap();
    assert_eq!(
        first.to_value()["function"],
        value(r#"{"name":"a","arguments":"{\"x\":1}"}"#)
    );
    assert_eq!(
        second.to_value()["function"],
        value(r#"{"name":"b","arguments":"{\"y\":2}"}"#)
    );
}

#[test]
fn text_and_other_events_are_no_calls() {
    let mut calls = ToolCallAccumulator::new();
    for event in [
        r#"{"content":"x","modelId":"m","name":"a","toolUseId":"t"}"#,
        r#"{"toolUseId":"t"}"#,
        r#"{"name":"a"}"#,
        r#"{"name":1,"toolUseId":"t"}"#,
        r#"{"stopReason":"END_TURN"}"#,
        r#"[1]"#,
        r#"null"#,
    ] {
        assert!(calls.process(&json(event)).is_none());
    }
    assert!(calls.process(&json(r#"{"name":"a","toolUseId":"t","stop":true}"#)).is_none());
}

#[test]
fn only_a_true_stop_ends_a_call() {
    let mut calls = ToolCallAccumulator::new();
    calls.process(&json(r#"{"name":"a","toolUseId":"t"}"#));
    assert!(calls.process(&json(r#"{"name":"a","toolUseId":"t","stop":false}"#)).is_none());
    assert!(calls.process(&json(r#"{"name":"a","toolUseId":"t","stop":"yes"}"#)).is_none());
    assert!(calls.process(&json(r#"{"name":"a","toolUseId":"t","stop":true}"#)).is_some());
}

#[test]
fn finished_calls_are_numbered() {
    let mut calls = CallCollector::new();
    for id in ["p", "q", "r"] {
        calls.process(&json(&format!(r#"{{"name":"n","toolUseId":"{id}"}}"#)));
        calls.process(&json(&format!(r#"{{"name":"n","toolUseId":"{id}","stop":true}}"#)));
    }
    let numbers: Vec<serde_json::Value> =
        calls.finished.iter().map(|c| c.to_value()["index"].clone()).collect();
    assert_eq!(numbers, vec![value("0"), value("1"), value("2")]);
}

#[test]
fn an_index_is_set_in_an_object_only() {
    assert_eq!(with_index(json(r#"{"index":0,"a":1}"#), 7).to_value(), value(r#"{"index":7,"a":1}"#));
    assert_eq!(with_index(json("[1]"), 7).to_value(), value("[1]"));
}
