use std::str::FromStr;

use spawningpool::ai::{adapter_for, unexpected_event, unexpected_reply, Adapter, ProviderError};
use spawningpool::anthropic::Anthropic;
use spawningpool::openai::OpenAi;

use spawningpool::ai::{
    lmstudio_base_url, lmstudio_model, map_finish_reason, map_stop_reason, Api, Reasoning,
    StopReason,
};

#[test]
fn model_api_parses_from_protocol_or_brand_name() {
    assert_eq!(
        Api::from_str("anthropic-messages"),
        Ok(Api::AnthropicMessages)
    );
    assert_eq!(Api::from_str("anthropic"), Ok(Api::AnthropicMessages));
    assert_eq!(
        Api::from_str("openai-completions"),
        Ok(Api::OpenAiCompletions)
    );
    assert_eq!(Api::from_str("openai"), Ok(Api::OpenAiCompletions));

    // An unknown api names the valid options rather than just rejecting.
    let err = Api::from_str("nope").unwrap_err();
    assert!(err.contains("anthropic-messages"));
    assert!(err.contains("openai-completions"));
}

#[test]
fn model_tests_api_parses_from_protocol_or_brand_name() {
    assert_eq!(
        Api::from_str("anthropic-messages"),
        Ok(Api::AnthropicMessages)
    );
    assert_eq!(Api::from_str("anthropic"), Ok(Api::AnthropicMessages));
    assert_eq!(
        Api::from_str("openai-completions"),
        Ok(Api::OpenAiCompletions)
    );
    assert_eq!(Api::from_str("openai"), Ok(Api::OpenAiCompletions));

    // An unknown api names the valid options rather than just rejecting.
    let err = Api::from_str("nope").unwrap_err();
    assert!(err.contains("anthropic-messages"));
    assert!(err.contains("openai-completions"));
}

#[test]
fn provider_reasoning_parses_and_displays_each_level() {
    for (text, level) in [
        ("off", Reasoning::Off),
        ("low", Reasoning::Low),
        ("medium", Reasoning::Medium),
        ("high", Reasoning::High),
    ] {
        assert_eq!(text.parse::<Reasoning>(), Ok(level));
        assert_eq!(level.to_string(), text);
    }
    let err = "ultra".parse::<Reasoning>().unwrap_err();
    assert!(err.contains("off|low|medium|high"));
}

#[test]
fn provider_tests_reasoning_parses_and_displays_each_level() {
    for (text, level) in [
        ("off", Reasoning::Off),
        ("low", Reasoning::Low),
        ("medium", Reasoning::Medium),
        ("high", Reasoning::High),
    ] {
        assert_eq!(text.parse::<Reasoning>(), Ok(level));
        assert_eq!(level.to_string(), text);
    }
    let err = "ultra".parse::<Reasoning>().unwrap_err();
    assert!(err.contains("off|low|medium|high"));
}

#[test]
fn stop_reasons_map_to_unified_variants() {
    assert_eq!(map_stop_reason(Some("end_turn")), StopReason::Stop);
    assert_eq!(map_stop_reason(Some("stop_sequence")), StopReason::Stop);
    assert_eq!(map_stop_reason(Some("max_tokens")), StopReason::Length);
    assert_eq!(map_stop_reason(Some("tool_use")), StopReason::ToolUse);
    assert_eq!(map_stop_reason(Some("refusal")), StopReason::Refusal);
    assert_eq!(map_stop_reason(Some("something_new")), StopReason::Error);
    assert_eq!(map_stop_reason(None), StopReason::Error);
}

#[test]
fn finish_reasons_map_to_unified_variants() {
    assert_eq!(map_finish_reason(Some("stop")), StopReason::Stop);
    assert_eq!(map_finish_reason(Some("length")), StopReason::Length);
    assert_eq!(map_finish_reason(Some("tool_calls")), StopReason::ToolUse);
    assert_eq!(
        map_finish_reason(Some("content_filter")),
        StopReason::Refusal
    );
    assert_eq!(map_finish_reason(Some("something_new")), StopReason::Error);
    assert_eq!(map_finish_reason(None), StopReason::Error);
}

#[test]
fn lmstudio_model_is_constructed_on_trust() {
    let model = lmstudio_model("qwen2.5-coder-7b", &lmstudio_base_url(None));
    assert_eq!(model.api, Api::OpenAiCompletions);
    assert_eq!(model.provider, "lmstudio");
    assert_eq!(model.id, "qwen2.5-coder-7b");
}

#[test]
fn lmstudio_base_url_defaults_when_env_unset() {
    // With no LMSTUDIO_BASE_URL configured, the default applies.
    assert_eq!(lmstudio_base_url(None), "http://localhost:1234");
}

#[test]
fn lmstudio_base_url_takes_the_configured_value() {
    assert_eq!(
        lmstudio_base_url(Some("http://box:9000".to_string())),
        "http://box:9000"
    );
    let model = lmstudio_model("m", "http://box:9000");
    assert_eq!(model.base_url, "http://box:9000");
    assert_eq!(model.name, "m");
    assert_eq!(model.max_tokens, 4096);
    assert_eq!(model.context_window, 8192);
}

#[test]
fn reasoning_defaults_to_off() {
    assert_eq!(Reasoning::default(), Reasoning::Off);
}

#[test]
fn every_protocol_has_a_builtin_adapter() {
    assert_eq!(adapter_for(Api::AnthropicMessages), Adapter::Anthropic(Anthropic));
    assert_eq!(adapter_for(Api::OpenAiCompletions), Adapter::OpenAi(OpenAi));
}

#[test]
fn reply_and_event_errors_show_what_came_back() {
    let long = "x".repeat(250);
    match unexpected_reply(&long) {
        ProviderError::Parse(m) => assert_eq!(
            m,
            format!(
                "server response was not in the expected format; got: {}",
                "x".repeat(200)
            )
        ),
        other => panic!("expected a parse error, got {other:?}"),
    }
    match unexpected_reply("<html>") {
        ProviderError::Parse(m) => assert!(m.ends_with("got: <html>")),
        other => panic!("expected a parse error, got {other:?}"),
    }
    match unexpected_event("nope") {
        ProviderError::Parse(m) => assert_eq!(m, "stream contained an unexpected event: nope"),
        other => panic!("expected a parse error, got {other:?}"),
    }
}
