//! The provider-agnostic vocabulary of model requests: wire protocols,
//! reasoning levels, stop reasons, usage, models and per-request options, plus
//! the mapping of each protocol's stop/finish reasons onto the unified ones.

use vstd::prelude::*;

use crate::text::{decimal, owned, push_padded, push_str, str_eq};

verus! {

/// The wire protocol a model speaks; it selects the adapter, independently of
/// the provider's brand.
#[derive(Clone, Copy, Debug, PartialEq, Eq, Hash, Structural)]
pub enum Api {
    AnthropicMessages,
    OpenAiCompletions,
}

pub open spec fn api_error_message(s: Seq<char>) -> Seq<char> {
    "unknown api '"@ + s
        + "'\n\n  Expected one of:\n      anthropic-messages  (alias: anthropic)\n      openai-completions  (alias: openai)"@
}

/// Which protocol a name selects: the protocol's own name or its brand alias.
pub open spec fn api_named(s: Seq<char>) -> Option<Api> {
    if s == "anthropic-messages"@ || s == "anthropic"@ {
        Some(Api::AnthropicMessages)
    } else if s == "openai-completions"@ || s == "openai"@ {
        Some(Api::OpenAiCompletions)
    } else {
        None
    }
}

impl Api {
    /// The protocol's name, as written in the registry file.
    pub open spec fn spec_name(self) -> Seq<char> {
        match self {
            Api::AnthropicMessages => "anthropic-messages"@,
            Api::OpenAiCompletions => "openai-completions"@,
        }
    }

    pub fn name(self) -> (r: String)
        ensures
            r@ == self.spec_name(),
    {
        match self {
            Api::AnthropicMessages => owned("anthropic-messages"),
            Api::OpenAiCompletions => owned("openai-completions"),
        }
    }

    /// Parse a protocol from its name or brand alias; an unknown name is an
    /// error that lists the valid ones.
    pub fn parse(s: &str) -> (r: Result<Api, String>)
        ensures
            api_named(s@) matches Some(a) ==> r == Ok::<Api, String>(a),
            api_named(s@) is None ==> (r matches Err(e) && e@ == api_error_message(s@)),
    {
        if str_eq(s, "anthropic-messages") || str_eq(s, "anthropic") {
            Ok(Api::AnthropicMessages)
        } else if str_eq(s, "openai-completions") || str_eq(s, "openai") {
            Ok(Api::OpenAiCompletions)
        } else {
            let mut e = owned("unknown api '");
            push_str(&mut e, s);
            push_str(
                &mut e,
                "'\n\n  Expected one of:\n      anthropic-messages  (alias: anthropic)\n      openai-completions  (alias: openai)",
            );
            Err(e)
        }
    }
}

impl std::str::FromStr for Api {
    type Err = String;

    fn from_str(s: &str) -> (r: Result<Api, String>)
        ensures
            api_named(s@) matches Some(a) ==> r == Ok::<Api, String>(a),
            api_named(s@) is None ==> (r matches Err(e) && e@ == api_error_message(s@)),
    {
        Api::parse(s)
    }
}

/// How much the model should reason.
#[derive(Clone, Copy, Debug, PartialEq, Eq, Structural)]
pub enum Reasoning {
    Off,
    Low,
    Medium,
    High,
}

impl Default for Reasoning {
    fn default() -> (r: Reasoning)
        ensures
            r == Reasoning::Off,
    {
        Reasoning::Off
    }
}

pub open spec fn reasoning_error_message(s: Seq<char>) -> Seq<char> {
    "unknown reasoning '"@ + s + "' (off|low|medium|high)"@
}

impl Reasoning {
    /// The level's lowercase name.
    pub open spec fn spec_name(self) -> Seq<char> {
        match self {
            Reasoning::Off => "off"@,
            Reasoning::Low => "low"@,
            Reasoning::Medium => "medium"@,
            Reasoning::High => "high"@,
        }
    }

    /// The level a name denotes.
    pub open spec fn named(s: Seq<char>) -> Option<Reasoning> {
        if s == "off"@ {
            Some(Reasoning::Off)
        } else if s == "low"@ {
            Some(Reasoning::Low)
        } else if s == "medium"@ {
            Some(Reasoning::Medium)
        } else if s == "high"@ {
            Some(Reasoning::High)
        } else {
            None
        }
    }

    /// The level's lowercase name, as logs, options and the registry file spell it.
    pub fn to_string(&self) -> (r: String)
        ensures
            r@ == self.spec_name(),
    {
        match self {
            Reasoning::Off => owned("off"),
            Reasoning::Low => owned("low"),
            Reasoning::Medium => owned("medium"),
            Reasoning::High => owned("high"),
        }
    }

    /// Parse a level from its lowercase name.
    pub fn parse(s: &str) -> (r: Result<Reasoning, String>)
        ensures
            Reasoning::named(s@) matches Some(l) ==> r == Ok::<Reasoning, String>(l),
            Reasoning::named(s@) is None ==> (r matches Err(e) && e@ == reasoning_error_message(
                s@,
            )),
    {
        if str_eq(s, "off") {
            Ok(Reasoning::Off)
        } else if str_eq(s, "low") {
            Ok(Reasoning::Low)
        } else if str_eq(s, "medium") {
            Ok(Reasoning::Medium)
        } else if str_eq(s, "high") {
            Ok(Reasoning::High)
        } else {
            let mut e = owned("unknown reasoning '");
            push_str(&mut e, s);
            push_str(&mut e, "' (off|low|medium|high)");
            Err(e)
        }
    }
}

impl std::str::FromStr for Reasoning {
    type Err = String;

    fn from_str(s: &str) -> (r: Result<Reasoning, String>)
        ensures
            Reasoning::named(s@) matches Some(l) ==> r == Ok::<Reasoning, String>(l),
            Reasoning::named(s@) is None ==> (r matches Err(e) && e@ == reasoning_error_message(
                s@,
            )),
    {
        Reasoning::parse(s)
    }
}

/// Every level's name parses back to that level.
pub proof fn law_reasoning_name_round_trip(level: Reasoning)
    ensures
        Reasoning::named(level.spec_name()) == Some(level),
{
    reveal_strlit("off");
    reveal_strlit("low");
    reveal_strlit("medium");
    reveal_strlit("high");
    assert("off"@[0] != "low"@[0]);
    assert("off"@.len() != "medium"@.len());
    assert("off"@.len() != "high"@.len());
    assert("low"@.len() != "medium"@.len());
    assert("low"@.len() != "high"@.len());
    assert("medium"@.len() != "high"@.len());
}

/// Every protocol's name parses back to that protocol.
pub proof fn law_api_name_round_trip(api: Api)
    ensures
        api_named(api.spec_name()) == Some(api),
{
    reveal_strlit("anthropic-messages");
    reveal_strlit("anthropic");
    reveal_strlit("openai-completions");
    reveal_strlit("openai");
    assert("openai-completions"@[0] != "anthropic-messages"@[0]);
    assert("openai-completions"@.len() != "anthropic"@.len());
}

/// Why the model stopped generating, normalized across providers.
#[derive(Clone, Copy, Debug, PartialEq, Eq, Structural)]
pub enum StopReason {
    Stop,
    Length,
    ToolUse,
    Refusal,
    Error,
}

impl StopReason {
    /// The reason's snake-case name, as logs and JSON output spell it.
    pub open spec fn spec_name(self) -> Seq<char> {
        match self {
            StopReason::Stop => "stop"@,
            StopReason::Length => "length"@,
            StopReason::ToolUse => "tool_use"@,
            StopReason::Refusal => "refusal"@,
            StopReason::Error => "error"@,
        }
    }

    pub fn name(self) -> (r: String)
        ensures
            r@ == self.spec_name(),
    {
        match self {
            StopReason::Stop => owned("stop"),
            StopReason::Length => owned("length"),
            StopReason::ToolUse => owned("tool_use"),
            StopReason::Refusal => owned("refusal"),
            StopReason::Error => owned("error"),
        }
    }
}

/// How an Anthropic `stop_reason` maps onto the unified reasons.
pub open spec fn anthropic_stop(reason: Option<Seq<char>>) -> StopReason {
    match reason {
        Some(r) => if r == "end_turn"@ || r == "stop_sequence"@ {
            StopReason::Stop
        } else if r == "max_tokens"@ {
            StopReason::Length
        } else if r == "tool_use"@ {
            StopReason::ToolUse
        } else if r == "refusal"@ {
            StopReason::Refusal
        } else {
            StopReason::Error
        },
        None => StopReason::Error,
    }
}

/// How an OpenAI `finish_reason` maps onto the unified reasons.
pub open spec fn openai_finish(reason: Option<Seq<char>>) -> StopReason {
    match reason {
        Some(r) => if r == "stop"@ {
            StopReason::Stop
        } else if r == "length"@ {
            StopReason::Length
        } else if r == "tool_calls"@ {
            StopReason::ToolUse
        } else if r == "content_filter"@ {
            StopReason::Refusal
        } else {
            StopReason::Error
        },
        None => StopReason::Error,
    }
}

pub open spec fn opt_view(o: Option<&str>) -> Option<Seq<char>> {
    match o {
        Some(s) => Some(s@),
        None => None,
    }
}

/// Map an Anthropic `stop_reason` onto the unified [`StopReason`].
pub fn map_stop_reason(reason: Option<&str>) -> (r: StopReason)
    ensures
        r == anthropic_stop(opt_view(reason)),
{
    match reason {
        Some(s) => if str_eq(s, "end_turn") || str_eq(s, "stop_sequence") {
            StopReason::Stop
        } else if str_eq(s, "max_tokens") {
            StopReason::Length
        } else if str_eq(s, "tool_use") {
            StopReason::ToolUse
        } else if str_eq(s, "refusal") {
            StopReason::Refusal
        } else {
            StopReason::Error
        },
        None => StopReason::Error,
    }
}

/// Map an OpenAI `finish_reason` onto the unified [`StopReason`].
pub fn map_finish_reason(reason: Option<&str>) -> (r: StopReason)
    ensures
        r == openai_finish(opt_view(reason)),
{
    match reason {
        Some(s) => if str_eq(s, "stop") {
            StopReason::Stop
        } else if str_eq(s, "length") {
            StopReason::Length
        } else if str_eq(s, "tool_calls") {
            StopReason::ToolUse
        } else if str_eq(s, "content_filter") {
            StopReason::Refusal
        } else {
            StopReason::Error
        },
        None => StopReason::Error,
    }
}

/// The author of a message.
#[derive(Clone, Copy, Debug, PartialEq, Eq, Structural)]
pub enum Role {
    User,
    Assistant,
}

/// Token usage for one response.
#[derive(Clone, Copy, Debug, PartialEq, Eq, Structural)]
pub struct Usage {
    pub input: u32,
    pub output: u32,
}

impl Default for Usage {
    fn default() -> (r: Usage)
        ensures
            r == (Usage { input: 0, output: 0 }),
    {
        Usage { input: 0, output: 0 }
    }
}

/// A model: which protocol to speak, where to send requests, and its limits.
#[derive(Debug, PartialEq, Eq)]
pub struct Model {
    pub id: String,
    pub name: String,
    pub api: Api,
    pub provider: String,
    pub base_url: String,
    pub max_tokens: u32,
    pub context_window: u32,
}

impl Clone for Model {
    fn clone(&self) -> (r: Model)
        ensures
            r == *self,
    {
        Model {
            id: self.id.clone(),
            name: self.name.clone(),
            api: self.api,
            provider: self.provider.clone(),
            base_url: self.base_url.clone(),
            max_tokens: self.max_tokens,
            context_window: self.context_window,
        }
    }
}

/// Per-request options shared across providers.
#[derive(Debug, PartialEq, Eq)]
pub struct CompleteOptions {
    /// Output token cap; the model's own cap when `None`.
    pub max_tokens: Option<u32>,
    pub reasoning: Reasoning,
    /// A tool the model is forced to call.
    pub tool_choice: Option<String>,
    /// Realize a forced tool choice by constrained decoding.
    pub constrained_decoding: bool,
    /// An explicit API key, overriding the environment.
    pub api_key: Option<String>,
}

impl Default for CompleteOptions {
    fn default() -> (r: CompleteOptions)
        ensures
            r.max_tokens is None,
            r.reasoning == Reasoning::Off,
            r.tool_choice is None,
            !r.constrained_decoding,
            r.api_key is None,
    {
        CompleteOptions {
            max_tokens: None,
            reasoning: Reasoning::Off,
            tool_choice: None,
            constrained_decoding: false,
            api_key: None,
        }
    }
}

/// Where a local LM Studio server listens unless `LMSTUDIO_BASE_URL` says
/// otherwise.
pub const LMSTUDIO_DEFAULT_BASE_URL: &'static str = "http://localhost:1234";

/// Output cap of a locally discovered model, which reports none.
pub const LMSTUDIO_DEFAULT_MAX_TOKENS: u32 = 4096;

/// Context window of a locally discovered model, which reports none.
pub const LMSTUDIO_DEFAULT_CONTEXT_WINDOW: u32 = 8192;

/// The LM Studio base URL: the configured one (the value of
/// `LMSTUDIO_BASE_URL`), or the default when none is configured.
pub fn lmstudio_base_url(configured: Option<String>) -> (r: String)
    ensures
        configured matches Some(u) ==> r@ == u@,
        configured is None ==> r@ == LMSTUDIO_DEFAULT_BASE_URL@,
{
    match configured {
        Some(u) => u,
        None => owned(LMSTUDIO_DEFAULT_BASE_URL),
    }
}

/// A model for a local LM Studio id, trusted as given, at `base_url` with the
/// conservative local defaults.
pub fn lmstudio_model(id: &str, base_url: &str) -> (r: Model)
    ensures
        r.id@ == id@,
        r.name@ == id@,
        r.api == Api::OpenAiCompletions,
        r.provider@ == "lmstudio"@,
        r.base_url@ == base_url@,
        r.max_tokens == LMSTUDIO_DEFAULT_MAX_TOKENS,
        r.context_window == LMSTUDIO_DEFAULT_CONTEXT_WINDOW,
{
    Model {
        id: owned(id),
        name: owned(id),
        api: Api::OpenAiCompletions,
        provider: owned("lmstudio"),
        base_url: owned(base_url),
        max_tokens: LMSTUDIO_DEFAULT_MAX_TOKENS,
        context_window: LMSTUDIO_DEFAULT_CONTEXT_WINDOW,
    }
}

/// Why a model request failed.
#[derive(Debug)]
pub enum ProviderError {
    /// The request could not be sent or its reply not read; the transport's
    /// own message.
    Http(String),
    /// The provider answered with a status other than success.
    Api { status: u16, message: String },
    /// A reply could not be read as the unified types.
    Parse(String),
    /// Misconfiguration: an unknown provider or model, or a missing key.
    Config(String),
}

impl ProviderError {
    pub open spec fn message(self) -> Seq<char> {
        match self {
            ProviderError::Http(e) => "http error: "@ + e@,
            ProviderError::Api { status, message } => "api error "@ + decimal(status as nat) + ": "@
                + message@,
            ProviderError::Parse(m) => "parse error: "@ + m@,
            ProviderError::Config(m) => "config error: "@ + m@,
        }
    }

    /// The error's one-line description.
    pub fn to_string(&self) -> (r: String)
        ensures
            r@ == self.message(),
    {
        match self {
            ProviderError::Http(e) => {
                let mut m = owned("http error: ");
                push_str(&mut m, e.as_str());
                m
            },
            ProviderError::Api { status, message } => {
                let mut m = owned("api error ");
                push_padded(&mut m, *status as u64, 0);
                push_str(&mut m, ": ");
                push_str(&mut m, message.as_str());
                m
            },
            ProviderError::Parse(e) => {
                let mut m = owned("parse error: ");
                push_str(&mut m, e.as_str());
                m
            },
            ProviderError::Config(e) => {
                let mut m = owned("config error: ");
                push_str(&mut m, e.as_str());
                m
            },
        }
    }
}

/// A built-in protocol adapter.
#[derive(Clone, Copy, Debug, PartialEq, Eq, Structural)]
pub enum Adapter {
    Anthropic(crate::anthropic::Anthropic),
    OpenAi(crate::openai::OpenAi),
}

/// The built-in adapter that speaks `api`: every protocol has one.
pub fn adapter_for(api: Api) -> (r: Adapter)
    ensures
        api == Api::AnthropicMessages ==> r == Adapter::Anthropic(crate::anthropic::Anthropic),
        api == Api::OpenAiCompletions ==> r == Adapter::OpenAi(crate::openai::OpenAi),
{
    match api {
        Api::AnthropicMessages => Adapter::Anthropic(crate::anthropic::Anthropic),
        Api::OpenAiCompletions => Adapter::OpenAi(crate::openai::OpenAi),
    }
}

/// How a reply that is not in the protocol's format is reported: with its
/// first 200 characters, to show what came back instead.
pub open spec fn unexpected_reply_message(text: Seq<char>) -> Seq<char> {
    "server response was not in the expected format; got: "@ + text.subrange(
        0,
        if text.len() < 200 {
            text.len() as int
        } else {
            200
        },
    )
}

/// The error for a reply that is not in the protocol's format.
pub fn unexpected_reply(text: &str) -> (r: ProviderError)
    ensures
        r matches ProviderError::Parse(m) && m@ == unexpected_reply_message(text@),
{
    let v = crate::text::chars_of(text);
    let n: usize = if v.len() < 200 {
        v.len()
    } else {
        200
    };
    let mut m = owned("server response was not in the expected format; got: ");
    let preview = crate::text::string_of_range(&v, 0, n);
    push_str(&mut m, preview.as_str());
    ProviderError::Parse(m)
}

/// The error for a stream payload that is not an event of the protocol.
pub fn unexpected_event(payload: &str) -> (r: ProviderError)
    ensures
        r matches ProviderError::Parse(m) && m@ == "stream contained an unexpected event: "@
            + payload@,
{
    let mut m = owned("stream contained an unexpected event: ");
    push_str(&mut m, payload);
    ProviderError::Parse(m)
}

} // verus!
