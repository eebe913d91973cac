use spawningpool::ai::Role;
use spawningpool::message::{ContentBlock, Message, Tool};
use spawningpool::validation::{schema_verdict, validate_tool_call, ToolValidationError};

fn json(text: &str) -> serde_json::Value {
    serde_json::from_str(text).unwrap()
}

fn weather_tool() -> Tool {
    Tool {
        name: "get_weather".into(),
        description: "Get weather for a city".into(),
        parameters: json(
            r#"{
                "type": "object",
                "properties": { "city": { "type": "string" } },
                "required": ["city"],
                "additionalProperties": false
            }"#,
        ),
    }
}

fn call(name: &str, arguments: serde_json::Value) -> ContentBlock {
    ContentBlock::ToolCall {
        id: "call_1".into(),
        name: name.into(),
        arguments,
    }
}

#[test]
fn valid_arguments_pass() {
    let result = validate_tool_call(&weather_tool(), &call("get_weather", json(r#"{ "city": "Paris" }"#)));
    assert_eq!(result, Ok(()));
}

#[test]
fn missing_required_field_reports_violations() {
    let err = validate_tool_call(&weather_tool(), &call("get_weather", json("{}"))).unwrap_err();
    match err {
        ToolValidationError::Invalid(errors) => assert!(!errors.is_empty()),
        other => panic!("expected Invalid, got {other:?}"),
    }
}

#[test]
fn wrong_type_is_invalid() {
    let err = validate_tool_call(&weather_tool(), &call("get_weather", json(r#"{ "city": 42 }"#)))
        .unwrap_err();
    assert!(matches!(err, ToolValidationError::Invalid(_)));
}

#[test]
fn name_mismatch_is_reported() {
    let err = validate_tool_call(&weather_tool(), &call("get_time", json(r#"{ "city": "Paris" }"#)))
        .unwrap_err();
    assert_eq!(
        err,
        ToolValidationError::NameMismatch {
            expected: "get_weather".into(),
            actual: "get_time".into(),
        }
    );
}

#[test]
fn non_tool_call_block_is_rejected() {
    let err = validate_tool_call(&weather_tool(), &ContentBlock::text("hi".into())).unwrap_err();
    assert_eq!(err, ToolValidationError::NotAToolCall);
}

#[test]
fn unusable_schema_is_reported() {
    let tool = Tool {
        name: "broken".into(),
        description: "bad schema".into(),
        // `type` must be a string or array of strings, not a number.
        parameters: json(r#"{ "type": 5 }"#),
    };
    let err = validate_tool_call(&tool, &call("broken", json("{}"))).unwrap_err();
    assert!(matches!(err, ToolValidationError::InvalidSchema(_)));
}

#[test]
fn validation_errors_describe_themselves() {
    assert_eq!(
        ToolValidationError::NotAToolCall.to_string(),
        "content block is not a tool call"
    );
    assert_eq!(
        ToolValidationError::NameMismatch { expected: "a".into(), actual: "b".into() }.to_string(),
        "tool name mismatch: expected `a`, got `b`"
    );
    assert_eq!(
        ToolValidationError::Invalid(vec!["x".into(), "y".into()]).to_string(),
        "tool arguments invalid: x; y"
    );
    assert_eq!(
        ToolValidationError::InvalidSchema("bad".into()).to_string(),
        "invalid tool schema: bad"
    );
}

#[test]
fn messages_and_tool_results() {
    let m = Message::user("hello".into());
    assert_eq!(m.role, Role::User);
    assert!(matches!(&m.content[..], [ContentBlock::Text { text }] if text == "hello"));
    let a = Message::assistant("hi".into());
    assert_eq!(a.role, Role::Assistant);
    match ContentBlock::tool_error("c1".into(), "boom".into()) {
        ContentBlock::ToolResult { tool_call_id, content, is_error } => {
            assert_eq!(tool_call_id, "c1");
            assert_eq!(content, "boom");
            assert!(is_error);
        }
        other => panic!("expected a tool result, got {other:?}"),
    }
    assert!(matches!(
        ContentBlock::tool_result("c1".into(), "ok".into()),
        ContentBlock::ToolResult { is_error: false, .. }
    ));
}

#[test]
fn schema_verdict_passes_no_violations_and_reports_the_rest() {
    assert_eq!(schema_verdict(Ok(Vec::new())), Ok(()));
    assert_eq!(
        schema_verdict(Ok(vec!["a".to_string(), "b".to_string()])),
        Err(ToolValidationError::Invalid(vec!["a".to_string(), "b".to_string()]))
    );
    assert_eq!(
        schema_verdict(Err("bad schema".to_string())),
        Err(ToolValidationError::InvalidSchema("bad schema".to_string()))
    );
}
