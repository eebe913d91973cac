use spawningpool::ai::{lmstudio_model, CompleteOptions, Model, ProviderError, Reasoning, Role, StopReason};
use spawningpool::message::{ContentBlock, Context, Message, StreamEvent, Tool};
use spawningpool::openai::{
    finish_completion, is_done_marker, bearer_key, build_request, completions_url, constrained_schema, list_models, models_url,
    synthesize_constrained_call, CallDelta, ChunkChoice, ChunkUsage, OpenAiChoice, OpenAiChunk,
    OpenAiReply, OpenAiReplyCall, StreamAccumulator,
};

fn json(text: &str) -> serde_json::Value {
    serde_json::from_str(text).unwrap()
}

fn model() -> Model {
    lmstudio_model("local-model", "http://localhost:1234")
}

fn empty_context() -> Context {
    Context::new(None, vec![])
}

fn forced(tool: &str) -> CompleteOptions {
    CompleteOptions {
        tool_choice: Some(tool.to_string()),
        ..Default::default()
    }
}

fn text_chunk(text: &str) -> OpenAiChunk {
    OpenAiChunk {
        usage: None,
        choice: Some(ChunkChoice {
            finish_reason: None,
            content: Some(text.to_string()),
            tool_calls: vec![],
        }),
    }
}

fn check_system_folded_and_tool_message() {
    let ctx = Context::new(
        Some("be terse".into()),
        vec![Message {
            role: Role::User,
            content: vec![
                ContentBlock::ToolResult {
                    tool_call_id: "call_1".into(),
                    content: "42".into(),
                    is_error: false,
                },
                ContentBlock::text("thanks".into()),
            ],
        }],
    );
    let body = build_request(&model(), &ctx, &CompleteOptions::default(), false);
    let messages = &body.messages;
    assert_eq!(messages[0].role, "system");
    assert_eq!(messages[1].role, "tool");
    assert_eq!(messages[1].tool_call_id.as_deref(), Some("call_1"));
    assert_eq!(messages[2].role, "user");
    assert_eq!(messages[2].content.as_deref(), Some("thanks"));
}

#[test]
fn openai_system_is_folded_into_messages_and_tool_result_is_a_tool_message() {
    check_system_folded_and_tool_message();
}

#[test]
fn openai_tests_system_is_folded_into_messages_and_tool_result_is_a_tool_message() {
    check_system_folded_and_tool_message();
}

fn check_assistant_tool_call() {
    let ctx = Context::new(
        None,
        vec![Message {
            role: Role::Assistant,
            content: vec![ContentBlock::ToolCall {
                id: "call_1".into(),
                name: "get_weather".into(),
                arguments: json(r#"{ "city": "Paris" }"#),
            }],
        }],
    );
    let body = build_request(&model(), &ctx, &CompleteOptions::default(), false);
    let call = &body.messages[0].tool_calls.as_ref().unwrap()[0];
    assert_eq!(call.name, "get_weather");
    assert_eq!(call.arguments, r#"{"city":"Paris"}"#);
}

#[test]
fn openai_assistant_tool_call_serializes_as_function_call() {
    check_assistant_tool_call();
}

#[test]
fn openai_tests_assistant_tool_call_serializes_as_function_call() {
    check_assistant_tool_call();
}

#[test]
fn forced_tool_choice_uses_required_and_default_omits_it() {
    // A forced tool call serializes as the portable "required" string, not
    // the per-function object form that some OpenAI-compatible servers reject.
    let body = build_request(&model(), &empty_context(), &forced("get_weather"), false);
    assert_eq!(body.tool_choice.as_deref(), Some("required"));
    assert!(body.response_format.is_none());

    let default = build_request(&model(), &empty_context(), &CompleteOptions::default(), false);
    assert!(default.tool_choice.is_none());
}

fn classify_context() -> Context {
    let mut ctx = empty_context();
    ctx.tools.push(Tool {
        name: "classify".into(),
        description: "Classify".into(),
        parameters: json(
            r#"{
                "type": "object",
                "properties": { "label": { "type": "string" } },
                "required": ["label"]
            }"#,
        ),
    });
    ctx
}

#[test]
fn constrained_decoding_emits_response_format_and_drops_tools() {
    // With the provider's constrained-decoding capability declared, a forced
    // call is realized via response_format json_schema built from the tool's
    // parameter schema — no tools or tool_choice sent.
    let ctx = classify_context();
    let opts = CompleteOptions {
        tool_choice: Some("classify".into()),
        constrained_decoding: true,
        ..Default::default()
    };
    let body = build_request(&model(), &ctx, &opts, false);
    assert!(body.tools.is_empty());
    assert!(body.tool_choice.is_none());
    let format = body.response_format.unwrap();
    assert_eq!(format.kind, "json_schema");
    assert_eq!(format.name, "classify");
    assert!(format.strict);
    assert_eq!(format.schema["additionalProperties"], false);
    assert_eq!(format.schema["properties"]["label"]["type"], "string");
}

#[test]
fn constrained_decoding_without_the_tool_falls_back_to_required() {
    let opts = CompleteOptions {
        tool_choice: Some("absent".into()),
        constrained_decoding: true,
        ..Default::default()
    };
    let ctx = classify_context();
    assert!(constrained_schema(&ctx, &opts).is_none());
    let body = build_request(&model(), &ctx, &opts, false);
    assert_eq!(body.tool_choice.as_deref(), Some("required"));
    assert_eq!(body.tools.len(), 1);
    assert_eq!(body.tools[0].kind, "function");
    assert_eq!(body.tools[0].name, "classify");
    assert!(body.response_format.is_none());
}

#[test]
fn synthesize_constrained_call_wraps_json_text_as_a_tool_call() {
    let content = vec![ContentBlock::Text {
        text: r#"{"label":"spam"}"#.into(),
    }];
    let call = synthesize_constrained_call(&content, "classify");
    assert_eq!(
        call,
        vec![ContentBlock::ToolCall {
            id: "constrained_classify".into(),
            name: "classify".into(),
            arguments: json(r#"{ "label": "spam" }"#),
        }]
    );
}

#[test]
fn synthesize_without_text_makes_empty_arguments() {
    let content = vec![ContentBlock::Thinking {
        thinking: "...".into(),
    }];
    let call = synthesize_constrained_call(&content, "classify");
    assert_eq!(
        call,
        vec![ContentBlock::ToolCall {
            id: "constrained_classify".into(),
            name: "classify".into(),
            arguments: json("{}"),
        }]
    );
}

fn check_response_with_tool_call() {
    let reply = OpenAiReply {
        choices: vec![OpenAiChoice {
            content: None,
            tool_calls: vec![OpenAiReplyCall {
                id: "call_1".into(),
                name: "get_weather".into(),
                arguments: "{\"city\":\"Paris\"}".into(),
            }],
            finish_reason: Some("tool_calls".into()),
        }],
        prompt_tokens: 8,
        completion_tokens: 4,
    };
    let completion = reply.into_completion().unwrap();
    assert_eq!(completion.stop_reason, StopReason::ToolUse);
    assert_eq!(
        completion.message.content[0],
        ContentBlock::ToolCall {
            id: "call_1".into(),
            name: "get_weather".into(),
            arguments: json(r#"{ "city": "Paris" }"#),
        }
    );
    assert_eq!(completion.usage.input, 8);
    assert_eq!(completion.usage.output, 4);
}

#[test]
fn openai_parses_response_with_tool_call() {
    check_response_with_tool_call();
}

#[test]
fn openai_tests_parses_response_with_tool_call() {
    check_response_with_tool_call();
}

#[test]
fn reasoning_effort_maps_per_level_and_off_is_omitted() {
    let off = build_request(&model(), &empty_context(), &CompleteOptions::default(), false);
    assert!(off.reasoning_effort.is_none());

    for (level, effort) in [
        (Reasoning::Low, "low"),
        (Reasoning::Medium, "medium"),
        (Reasoning::High, "high"),
    ] {
        let opts = CompleteOptions {
            reasoning: level,
            ..Default::default()
        };
        let body = build_request(&model(), &empty_context(), &opts, false);
        assert_eq!(body.reasoning_effort.as_deref(), Some(effort));
    }
}

#[test]
fn parses_text_only_response() {
    let reply = OpenAiReply {
        choices: vec![OpenAiChoice {
            content: Some("hello".into()),
            tool_calls: vec![],
            finish_reason: Some("stop".into()),
        }],
        prompt_tokens: 2,
        completion_tokens: 1,
    };
    let completion = reply.into_completion().unwrap();
    assert_eq!(completion.message.content, vec![ContentBlock::text("hello".into())]);
    assert_eq!(completion.stop_reason, StopReason::Stop);
}

#[test]
fn response_without_choices_is_a_parse_error() {
    let reply = OpenAiReply {
        choices: vec![],
        prompt_tokens: 0,
        completion_tokens: 0,
    };
    assert!(matches!(reply.into_completion(), Err(ProviderError::Parse(_))));
}

fn check_stream_text_then_done() {
    let mut acc = StreamAccumulator::default();
    let mut out = Vec::new();
    let last = OpenAiChunk {
        usage: Some(ChunkUsage {
            prompt_tokens: Some(3),
            completion_tokens: Some(2),
        }),
        choice: Some(ChunkChoice {
            finish_reason: Some("stop".into()),
            content: None,
            tool_calls: vec![],
        }),
    };
    for chunk in [text_chunk("Hel"), text_chunk("lo"), last] {
        out.extend(acc.handle(&chunk));
    }
    out.push(acc.finish());
    assert_eq!(out.len(), 3);
    match out.last().unwrap() {
        StreamEvent::Done {
            stop_reason,
            usage,
            message,
        } => {
            assert_eq!(*stop_reason, StopReason::Stop);
            assert_eq!(usage.output, 2);
            assert_eq!(message.content, vec![ContentBlock::text("Hello".into())]);
        }
        other => panic!("expected Done, got {other:?}"),
    }
}

#[test]
fn openai_stream_accumulator_assembles_text_then_done() {
    check_stream_text_then_done();
}

#[test]
fn openai_tests_stream_accumulator_assembles_text_then_done() {
    check_stream_text_then_done();
}

#[test]
fn stream_assembles_tool_calls_by_index() {
    let mut acc = StreamAccumulator::new();
    let chunk = OpenAiChunk {
        usage: None,
        choice: Some(ChunkChoice {
            finish_reason: None,
            content: Some(String::new()),
            tool_calls: vec![
                CallDelta {
                    index: Some(1),
                    id: Some("call_b".into()),
                    name: Some("ping".into()),
                    arguments: Some("{\"host\":".into()),
                },
                CallDelta {
                    index: None,
                    id: Some("call_a".into()),
                    name: Some("echo".into()),
                    arguments: None,
                },
            ],
        }),
    };
    let events = acc.handle(&chunk);
    // An empty text delta reports nothing; each fragment is reported at its
    // index plus one.
    assert_eq!(
        events,
        vec![
            StreamEvent::ToolCallDelta {
                content_index: 2,
                id: Some("call_b".into()),
                name: Some("ping".into()),
                arguments_delta: "{\"host\":".into(),
            },
            StreamEvent::ToolCallDelta {
                content_index: 1,
                id: Some("call_a".into()),
                name: Some("echo".into()),
                arguments_delta: String::new(),
            },
        ]
    );
    let more = OpenAiChunk {
        usage: None,
        choice: Some(ChunkChoice {
            finish_reason: Some("tool_calls".into()),
            content: None,
            tool_calls: vec![CallDelta {
                index: Some(1),
                id: None,
                name: None,
                arguments: Some("\"a\"}".into()),
            }],
        }),
    };
    acc.handle(&more);
    match acc.finish() {
        StreamEvent::Done {
            stop_reason,
            message,
            ..
        } => {
            assert_eq!(stop_reason, StopReason::ToolUse);
            assert_eq!(
                message.content,
                vec![
                    ContentBlock::ToolCall {
                        id: "call_a".into(),
                        name: "echo".into(),
                        arguments: json("{}"),
                    },
                    ContentBlock::ToolCall {
                        id: "call_b".into(),
                        name: "ping".into(),
                        arguments: json(r#"{"host":"a"}"#),
                    },
                ]
            );
        }
        other => panic!("expected Done, got {other:?}"),
    }
    assert!(acc.tool_calls.is_empty());
    assert!(acc.text.is_empty());
}

#[test]
fn usage_only_chunk_updates_counts_and_reports_nothing() {
    let mut acc = StreamAccumulator::new();
    let chunk = OpenAiChunk {
        usage: Some(ChunkUsage {
            prompt_tokens: Some(11),
            completion_tokens: None,
        }),
        choice: None,
    };
    assert!(acc.handle(&chunk).is_empty());
    assert_eq!(acc.prompt_tokens, 11);
    assert_eq!(acc.completion_tokens, 0);
}

#[test]
fn assistant_text_blocks_join_by_line_and_empty_message_has_no_content() {
    let ctx = Context::new(
        None,
        vec![
            Message {
                role: Role::Assistant,
                content: vec![
                    ContentBlock::text("one".into()),
                    ContentBlock::text("two".into()),
                ],
            },
            Message {
                role: Role::Assistant,
                content: vec![],
            },
            Message {
                role: Role::User,
                content: vec![],
            },
        ],
    );
    let body = build_request(&model(), &ctx, &CompleteOptions::default(), false);
    // The empty user turn sends nothing; the empty assistant turn is still a
    // message, with neither content nor calls.
    assert_eq!(body.messages.len(), 2);
    assert_eq!(body.messages[0].content.as_deref(), Some("one\ntwo"));
    assert!(body.messages[1].content.is_none());
    assert!(body.messages[1].tool_calls.is_none());
}

#[test]
fn endpoints_and_discovery() {
    assert_eq!(
        completions_url("http://localhost:1234/v1"),
        "http://localhost:1234/v1/chat/completions"
    );
    assert_eq!(
        completions_url("http://localhost:1234/v1/v1"),
        "http://localhost:1234/v1/chat/completions"
    );
    assert_eq!(
        completions_url("http://localhost:1234"),
        "http://localhost:1234/v1/chat/completions"
    );
    assert_eq!(models_url("http://localhost:1234"), "http://localhost:1234/v1/models");
    assert_eq!(bearer_key(&Some("a".into()), Some("b".into())), Some("a".into()));
    assert_eq!(bearer_key(&None, Some("b".into())), Some("b".into()));
    assert_eq!(bearer_key(&None, None), None);
    let models = list_models(&vec!["qwen".to_string(), "llama".to_string()], "http://h:1");
    assert_eq!(models.len(), 2);
    assert_eq!(models[1].id, "llama");
    assert_eq!(models[1].base_url, "http://h:1");
    assert_eq!(models[1].provider, "lmstudio");
}

#[test]
fn done_marker_and_constrained_completion() {
    assert!(is_done_marker("[DONE]"));
    assert!(!is_done_marker(" [DONE]"));
    let reply = OpenAiReply {
        choices: vec![OpenAiChoice {
            content: Some(r#"{"label":"ham"}"#.into()),
            tool_calls: vec![],
            finish_reason: Some("stop".into()),
        }],
        prompt_tokens: 1,
        completion_tokens: 2,
    };
    let opts = CompleteOptions {
        tool_choice: Some("classify".into()),
        constrained_decoding: true,
        ..Default::default()
    };
    let completion = finish_completion(reply, &classify_context(), &opts).unwrap();
    assert_eq!(
        completion.message.content,
        vec![ContentBlock::ToolCall {
            id: "constrained_classify".into(),
            name: "classify".into(),
            arguments: json(r#"{"label":"ham"}"#),
        }]
    );
    let plain = OpenAiReply {
        choices: vec![OpenAiChoice {
            content: Some("hi".into()),
            tool_calls: vec![],
            finish_reason: None,
        }],
        prompt_tokens: 0,
        completion_tokens: 0,
    };
    let completion = finish_completion(plain, &classify_context(), &CompleteOptions::default()).unwrap();
    assert_eq!(completion.message.content, vec![ContentBlock::text("hi".into())]);
    assert_eq!(completion.stop_reason, StopReason::Error);
}
