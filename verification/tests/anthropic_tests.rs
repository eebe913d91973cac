use spawningpool::ai::{Api, CompleteOptions, Model, Reasoning, Role, StopReason, Usage};
use spawningpool::anthropic::{
    api_key, build_request, messages_url, to_wire_message, AnthropicBlock, AnthropicEvent,
    AnthropicReply, AnthropicReplyBlock, StreamAccumulator, API_VERSION,
};
use spawningpool::ai::ProviderError;
use spawningpool::message::{ContentBlock, Context, Message, StreamEvent, Tool};

fn json(text: &str) -> serde_json::Value {
    serde_json::from_str(text).unwrap()
}

fn model() -> Model {
    Model {
        id: "opus-4-8".to_string(),
        name: "Opus 4.8".to_string(),
        api: Api::AnthropicMessages,
        provider: "anthropic".to_string(),
        base_url: "https://api.anthropic.com".to_string(),
        max_tokens: 4096,
        context_window: 200_000,
    }
}

fn empty_context() -> Context {
    Context::new(None, vec![])
}

fn options(reasoning: Reasoning, tool_choice: Option<&str>) -> CompleteOptions {
    CompleteOptions {
        reasoning,
        tool_choice: tool_choice.map(|t| t.to_string()),
        ..Default::default()
    }
}

fn event(kind: &str) -> AnthropicEvent {
    AnthropicEvent {
        kind: Some(kind.to_string()),
        index: None,
        input_tokens: None,
        block_type: None,
        block_id: None,
        block_name: None,
        delta_type: None,
        delta_text: None,
        delta_thinking: None,
        delta_partial_json: None,
        stop_reason: None,
        output_tokens: None,
    }
}

fn text_delta(index: u64, text: &str) -> AnthropicEvent {
    AnthropicEvent {
        index: Some(index),
        delta_type: Some("text_delta".to_string()),
        delta_text: Some(text.to_string()),
        ..event("content_block_delta")
    }
}

fn block_start(index: u64, block_type: &str) -> AnthropicEvent {
    AnthropicEvent {
        index: Some(index),
        block_type: Some(block_type.to_string()),
        ..event("content_block_start")
    }
}

fn tool_result_context() -> Context {
    Context::new(
        Some("be terse".into()),
        vec![Message {
            role: Role::User,
            content: vec![ContentBlock::ToolResult {
                tool_call_id: "call_1".into(),
                content: "42".into(),
                is_error: false,
            }],
        }],
    )
}

fn check_system_and_tool_result(ctx: &Context) {
    let body = build_request(&model(), ctx, &CompleteOptions::default(), false);
    assert_eq!(body.system.as_deref(), Some("be terse"));
    match &body.messages[0].content[0] {
        AnthropicBlock::ToolResult { tool_use_id, .. } => assert_eq!(tool_use_id, "call_1"),
        other => panic!("expected tool_result, got {other:?}"),
    }
    // Off reasoning sends no thinking field.
    assert!(body.thinking.is_none());
}

#[test]
fn anthropic_request_puts_system_top_level_and_maps_tool_result() {
    check_system_and_tool_result(&tool_result_context());
}

#[test]
fn anthropic_tests_request_puts_system_top_level_and_maps_tool_result() {
    check_system_and_tool_result(&tool_result_context());
}

#[test]
fn anthropic_tests_forced_tool_choice_serializes_and_default_omits_it() {
    let body = build_request(
        &model(),
        &empty_context(),
        &options(Reasoning::Off, Some("get_weather")),
        false,
    );
    let choice = body.tool_choice.unwrap();
    assert_eq!(choice.kind, "tool");
    assert_eq!(choice.name, "get_weather");

    let default = build_request(&model(), &empty_context(), &CompleteOptions::default(), false);
    assert!(default.tool_choice.is_none());
}

fn check_high_reasoning() {
    let body = build_request(&model(), &empty_context(), &options(Reasoning::High, None), false);
    assert_eq!(body.thinking.as_deref(), Some("adaptive"));
    assert_eq!(body.effort.as_deref(), Some("high"));
}

#[test]
fn anthropic_high_reasoning_sends_adaptive_thinking_and_effort() {
    check_high_reasoning();
}

#[test]
fn anthropic_tests_high_reasoning_sends_adaptive_thinking_and_effort() {
    check_high_reasoning();
}

#[test]
fn low_and_medium_reasoning_map_to_adaptive_thinking_and_effort() {
    for (level, effort) in [(Reasoning::Low, "low"), (Reasoning::Medium, "medium")] {
        let body = build_request(&model(), &empty_context(), &options(level, None), false);
        assert_eq!(body.thinking.as_deref(), Some("adaptive"));
        assert_eq!(body.effort.as_deref(), Some(effort));
    }
}

#[test]
fn anthropic_tests_parses_response_with_text_and_tool_use() {
    let reply = AnthropicReply {
        content: vec![
            AnthropicReplyBlock::Text {
                text: "Let me check.".into(),
            },
            AnthropicReplyBlock::ToolUse {
                id: "toolu_1".into(),
                name: "get_weather".into(),
                input: json(r#"{"city": "Paris"}"#),
            },
        ],
        stop_reason: Some("tool_use".into()),
        input_tokens: 10,
        output_tokens: 20,
    };
    let completion = reply.into_completion();
    assert_eq!(completion.stop_reason, StopReason::ToolUse);
    assert_eq!(completion.message.content.len(), 2);
    assert_eq!(
        completion.message.content[1],
        ContentBlock::ToolCall {
            id: "toolu_1".into(),
            name: "get_weather".into(),
            arguments: json(r#"{ "city": "Paris" }"#),
        }
    );
    assert_eq!(completion.usage.input, 10);
    assert_eq!(completion.usage.output, 20);
}

fn check_unknown_blocks_are_ignored() {
    let reply = AnthropicReply {
        content: vec![
            AnthropicReplyBlock::Unknown,
            AnthropicReplyBlock::Text { text: "hi".into() },
        ],
        stop_reason: Some("end_turn".into()),
        input_tokens: 1,
        output_tokens: 1,
    };
    let completion = reply.into_completion();
    assert_eq!(completion.message.content, vec![ContentBlock::text("hi".into())]);
    assert_eq!(completion.stop_reason, StopReason::Stop);
}

#[test]
fn anthropic_unknown_blocks_are_ignored() {
    check_unknown_blocks_are_ignored();
}

#[test]
fn anthropic_tests_unknown_blocks_are_ignored() {
    check_unknown_blocks_are_ignored();
}

#[test]
fn tool_call_maps_to_tool_use_and_thinking_is_dropped() {
    let wire = to_wire_message(&Message {
        role: Role::Assistant,
        content: vec![
            ContentBlock::Thinking {
                thinking: "internal".into(),
            },
            ContentBlock::ToolCall {
                id: "toolu_1".into(),
                name: "get_weather".into(),
                arguments: json(r#"{ "city": "Paris" }"#),
            },
        ],
    });
    assert_eq!(wire.role, "assistant");
    // The thinking block is filtered out; only the tool_use survives.
    assert_eq!(wire.content.len(), 1);
    match &wire.content[0] {
        AnthropicBlock::ToolUse { id, name, input } => {
            assert_eq!(id, "toolu_1");
            assert_eq!(name, "get_weather");
            assert_eq!(input["city"], "Paris");
        }
        other => panic!("expected tool_use, got {other:?}"),
    }
}

fn check_stream_assembles_message_and_usage() {
    let mut acc = StreamAccumulator::default();
    let events = vec![
        AnthropicEvent {
            input_tokens: Some(5),
            ..event("message_start")
        },
        block_start(0, "text"),
        text_delta(0, "Hel"),
        text_delta(0, "lo"),
        AnthropicEvent {
            index: Some(0),
            ..event("content_block_stop")
        },
        AnthropicEvent {
            stop_reason: Some("end_turn".into()),
            output_tokens: Some(7),
            ..event("message_delta")
        },
        event("message_stop"),
    ];
    let mut out = Vec::new();
    for ev in &events {
        if let Some(e) = acc.handle(ev) {
            out.push(e);
        }
    }
    // Two text deltas, then Done.
    assert_eq!(out.len(), 3);
    match out.last().unwrap() {
        StreamEvent::Done {
            stop_reason,
            usage,
            message,
        } => {
            assert_eq!(*stop_reason, StopReason::Stop);
            assert_eq!(usage.input, 5);
            assert_eq!(usage.output, 7);
            assert_eq!(message.content, vec![ContentBlock::text("Hello".into())]);
        }
        other => panic!("expected Done, got {other:?}"),
    }
}

#[test]
fn anthropic_stream_accumulator_assembles_message_and_usage() {
    check_stream_assembles_message_and_usage();
}

#[test]
fn anthropic_tests_stream_accumulator_assembles_message_and_usage() {
    check_stream_assembles_message_and_usage();
}

#[test]
fn stream_assembles_thinking_and_a_tool_call_in_index_order() {
    let mut acc = StreamAccumulator::new();
    let events = vec![
        block_start(1, "tool_use"),
        AnthropicEvent {
            index: Some(0),
            block_type: Some("thinking".into()),
            ..event("content_block_start")
        },
        AnthropicEvent {
            index: Some(0),
            delta_type: Some("thinking_delta".into()),
            delta_thinking: Some("hmm".into()),
            ..event("content_block_delta")
        },
        AnthropicEvent {
            index: Some(1),
            delta_type: Some("input_json_delta".into()),
            delta_partial_json: Some("{\"city\":".into()),
            ..event("content_block_delta")
        },
        AnthropicEvent {
            index: Some(1),
            delta_type: Some("input_json_delta".into()),
            delta_partial_json: Some("\"Paris\"}".into()),
            ..event("content_block_delta")
        },
        AnthropicEvent {
            stop_reason: Some("tool_use".into()),
            ..event("message_delta")
        },
    ];
    let mut deltas = Vec::new();
    for ev in &events {
        if let Some(e) = acc.handle(ev) {
            deltas.push(e);
        }
    }
    assert_eq!(
        deltas[0],
        StreamEvent::ThinkingDelta {
            content_index: 0,
            delta: "hmm".into()
        }
    );
    assert_eq!(
        deltas[1],
        StreamEvent::ToolCallDelta {
            content_index: 1,
            id: None,
            name: None,
            arguments_delta: "{\"city\":".into()
        }
    );
    let done = acc.finish();
    match done {
        StreamEvent::Done {
            stop_reason,
            usage,
            message,
        } => {
            assert_eq!(stop_reason, StopReason::ToolUse);
            assert_eq!(usage, Usage { input: 0, output: 0 });
            assert_eq!(message.role, Role::Assistant);
            assert_eq!(
                message.content,
                vec![
                    ContentBlock::Thinking {
                        thinking: "hmm".into()
                    },
                    ContentBlock::ToolCall {
                        id: String::new(),
                        name: String::new(),
                        arguments: json(r#"{"city":"Paris"}"#),
                    }
                ]
            );
        }
        other => panic!("expected Done, got {other:?}"),
    }
    assert!(acc.blocks.is_empty());
}

#[test]
fn stream_tool_block_keeps_its_id_and_name_and_bad_json_stays_text() {
    let mut acc = StreamAccumulator::new();
    acc.handle(&AnthropicEvent {
        index: Some(2),
        block_type: Some("tool_use".into()),
        block_id: Some("toolu_9".into()),
        block_name: Some("ping".into()),
        ..event("content_block_start")
    });
    // Slots before the opened index stay empty.
    assert_eq!(acc.blocks.len(), 3);
    assert!(acc.blocks[0].is_none() && acc.blocks[1].is_none());
    acc.handle(&AnthropicEvent {
        index: Some(2),
        delta_type: Some("input_json_delta".into()),
        delta_partial_json: Some("not json".into()),
        ..event("content_block_delta")
    });
    // A text delta aimed at a tool block is reported but changes nothing.
    let reported = acc.handle(&text_delta(2, "stray"));
    assert_eq!(
        reported,
        Some(StreamEvent::TextDelta {
            content_index: 2,
            delta: "stray".into()
        })
    );
    match acc.handle(&event("message_stop")) {
        Some(StreamEvent::Done { message, stop_reason, .. }) => {
            assert_eq!(stop_reason, StopReason::Error);
            assert_eq!(
                message.content,
                vec![ContentBlock::ToolCall {
                    id: "toolu_9".into(),
                    name: "ping".into(),
                    arguments: serde_json::Value::String("not json".into()),
                }]
            );
        }
        other => panic!("expected Done, got {other:?}"),
    }
}

#[test]
fn stream_ignores_unknown_and_untyped_events() {
    let mut acc = StreamAccumulator::new();
    assert_eq!(acc.handle(&event("ping")), None);
    let untyped = AnthropicEvent {
        kind: None,
        ..event("message_stop")
    };
    assert_eq!(acc.handle(&untyped), None);
    let unknown_delta = AnthropicEvent {
        index: Some(0),
        delta_type: Some("signature_delta".into()),
        ..event("content_block_delta")
    };
    assert_eq!(acc.handle(&unknown_delta), None);
    assert!(acc.blocks.is_empty());
}

#[test]
fn blank_tool_arguments_become_an_empty_object() {
    let mut acc = StreamAccumulator::new();
    acc.handle(&block_start(0, "tool_use"));
    match acc.finish() {
        StreamEvent::Done { message, .. } => {
            assert_eq!(
                message.content,
                vec![ContentBlock::ToolCall {
                    id: String::new(),
                    name: String::new(),
                    arguments: json("{}"),
                }]
            );
        }
        other => panic!("expected Done, got {other:?}"),
    }
}

#[test]
fn request_copies_model_cap_and_tools() {
    let mut ctx = empty_context();
    ctx.tools.push(Tool {
        name: "ping".into(),
        description: "Ping a host".into(),
        parameters: json(r#"{"type":"object"}"#),
    });
    let opts = CompleteOptions {
        max_tokens: Some(99),
        ..Default::default()
    };
    let body = build_request(&model(), &ctx, &opts, true);
    assert_eq!(body.model, "opus-4-8");
    assert_eq!(body.max_tokens, 99);
    assert!(body.stream);
    assert_eq!(body.tools.len(), 1);
    assert_eq!(body.tools[0].name, "ping");
    assert_eq!(body.tools[0].input_schema, json(r#"{"type":"object"}"#));
    let default_cap = build_request(&model(), &ctx, &CompleteOptions::default(), false);
    assert_eq!(default_cap.max_tokens, 4096);
}

#[test]
fn endpoint_and_key_resolution() {
    assert_eq!(
        messages_url("https://api.anthropic.com"),
        "https://api.anthropic.com/v1/messages"
    );
    assert_eq!(API_VERSION, "2023-06-01");
    assert_eq!(
        api_key("anthropic", &Some("k1".into()), Some("k2".into())).unwrap(),
        "k1"
    );
    assert_eq!(api_key("anthropic", &None, Some("k2".into())).unwrap(), "k2");
    match api_key("anthropic", &None, None) {
        Err(ProviderError::Config(m)) => assert_eq!(
            m,
            "missing API key for anthropic: set ANTHROPIC_API_KEY or pass CompleteOptions::api_key"
        ),
        other => panic!("expected a config error, got {other:?}"),
    }
}

#[test]
fn provider_errors_describe_themselves() {
    assert_eq!(
        ProviderError::Api {
            status: 429,
            message: "slow down".into()
        }
        .to_string(),
        "api error 429: slow down"
    );
    assert_eq!(
        ProviderError::Parse("bad".into()).to_string(),
        "parse error: bad"
    );
    assert_eq!(
        ProviderError::Config("no key".into()).to_string(),
        "config error: no key"
    );
    assert_eq!(
        ProviderError::Http("refused".into()).to_string(),
        "http error: refused"
    );
}
