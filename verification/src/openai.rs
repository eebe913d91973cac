//! The OpenAI Chat Completions protocol (`openai-completions`), spoken by LM
//! Studio and every other OpenAI-compatible server: the unified request
//! lowered into a `/v1/chat/completions` body (the system prompt folded into
//! the messages, tool results as `tool` messages, tool calls as function
//! calls), and the replies, whole or streamed, read back.

use vstd::prelude::*;

use crate::ai::{lmstudio_model, map_finish_reason, openai_finish, CompleteOptions, Model, Reasoning, Role, Usage};
use crate::anthropic::effort_of;
use crate::domain::opt_string_view;
use crate::json::{args_parsed, copy_json, json_bool, json_bool_value, json_insert, json_inserted, json_rendered, parse_args, render_json};
use crate::message::{
    call_parts, result_parts, text_parts, Completion, ContentBlock, Context, Message, StreamEvent, Tool,
};
use crate::text::{owned, push_char, push_str, str_eq};

verus! {

/// The adapter for the OpenAI Chat Completions protocol. It holds no state: a
/// request body is made by [`build_request`], sent by the caller, and the reply
/// read back by [`OpenAiReply::into_completion`] or, when streamed, folded chunk
/// by chunk into a [`StreamAccumulator`].
#[derive(Clone, Copy, Debug, PartialEq, Eq, Structural)]
pub struct OpenAi;

// ---------------------------------------------------------------------------
// Requests
// ---------------------------------------------------------------------------

/// A function call made by the assistant, as sent back in its message.
#[derive(Debug)]
pub struct OpenAiToolCall {
    pub id: String,
    pub kind: String,
    pub name: String,
    pub arguments: String,
}

/// One request message.
#[derive(Debug)]
pub struct OpenAiMessage {
    pub role: String,
    pub content: Option<String>,
    pub tool_calls: Option<Vec<OpenAiToolCall>>,
    pub tool_call_id: Option<String>,
}

/// A tool offered to the model, as a function.
#[derive(Debug)]
pub struct OpenAiTool {
    pub kind: String,
    pub name: String,
    pub description: String,
    pub parameters: serde_json::Value,
}

/// A grammar-constrained `response_format`: the model's output must be
/// valid against `schema`.
#[derive(Debug)]
pub struct ResponseFormat {
    pub kind: String,
    pub name: String,
    pub schema: serde_json::Value,
    pub strict: bool,
}

/// A `/v1/chat/completions` request body.
#[derive(Debug)]
pub struct OpenAiRequest {
    pub model: String,
    pub messages: Vec<OpenAiMessage>,
    pub max_tokens: u32,
    pub tools: Vec<OpenAiTool>,
    pub tool_choice: Option<String>,
    pub response_format: Option<ResponseFormat>,
    pub reasoning_effort: Option<String>,
    pub stream: bool,
}

/// A function call, by its text.
pub struct CallView {
    pub id: Seq<char>,
    pub kind: Seq<char>,
    pub name: Seq<char>,
    pub arguments: Seq<char>,
}

/// A request message, by its text.
pub struct MessageView {
    pub role: Seq<char>,
    pub content: Option<Seq<char>>,
    pub tool_calls: Option<Seq<CallView>>,
    pub tool_call_id: Option<Seq<char>>,
}

pub open spec fn call_view(c: OpenAiToolCall) -> CallView {
    CallView { id: c.id@, kind: c.kind@, name: c.name@, arguments: c.arguments@ }
}

pub open spec fn message_view(m: OpenAiMessage) -> MessageView {
    MessageView {
        role: m.role@,
        content: opt_string_view(m.content),
        tool_calls: match m.tool_calls {
            Some(v) => Some(v@.map_values(|c: OpenAiToolCall| call_view(c))),
            None => None,
        },
        tool_call_id: opt_string_view(m.tool_call_id),
    }
}

pub open spec fn messages_view(v: Seq<OpenAiMessage>) -> Seq<MessageView> {
    v.map_values(|m: OpenAiMessage| message_view(m))
}

/// Texts run together a line apart, an empty one adding no line break of its
/// own at the start.
pub open spec fn joined(texts: Seq<Seq<char>>) -> Seq<char>
    decreases texts.len(),
{
    if texts.len() == 0 {
        Seq::empty()
    } else {
        let a = joined(texts.drop_last());
        if a.len() == 0 {
            texts.last()
        } else {
            a + seq!['\n'] + texts.last()
        }
    }
}

/// The texts of a message's text blocks, in order.
pub open spec fn texts_of(blocks: Seq<ContentBlock>) -> Seq<Seq<char>>
    decreases blocks.len(),
{
    if blocks.len() == 0 {
        Seq::empty()
    } else {
        let r = texts_of(blocks.drop_last());
        match blocks.last() {
            ContentBlock::Text { text } => r.push(text@),
            _ => r,
        }
    }
}

/// The `tool` messages a user turn's tool results become, in order.
pub open spec fn tool_messages(blocks: Seq<ContentBlock>) -> Seq<MessageView>
    decreases blocks.len(),
{
    if blocks.len() == 0 {
        Seq::empty()
    } else {
        let r = tool_messages(blocks.drop_last());
        match blocks.last() {
            ContentBlock::ToolResult { tool_call_id, content, .. } => r.push(
                MessageView {
                    role: "tool"@,
                    content: Some(content@),
                    tool_calls: None,
                    tool_call_id: Some(tool_call_id@),
                },
            ),
            _ => r,
        }
    }
}

/// The function calls an assistant turn's tool calls become, in order, each
/// with its arguments rendered as JSON text.
pub open spec fn calls_of(blocks: Seq<ContentBlock>) -> Seq<CallView>
    decreases blocks.len(),
{
    if blocks.len() == 0 {
        Seq::empty()
    } else {
        let r = calls_of(blocks.drop_last());
        match blocks.last() {
            ContentBlock::ToolCall { id, name, arguments } => r.push(
                CallView { id: id@, kind: "function"@, name: name@, arguments: json_rendered(arguments) },
            ),
            _ => r,
        }
    }
}

/// The request messages one unified message becomes. A user turn is its
/// tool results as `tool` messages, then its text (if any) as one `user`
/// message; an assistant turn is one message holding its text (if any) and
/// its function calls (if any). Thinking is not sent.
pub open spec fn wire_messages(m: Message) -> Seq<MessageView> {
    let text = joined(texts_of(m.content@));
    match m.role {
        Role::User => tool_messages(m.content@) + if text.len() > 0 {
            seq![MessageView { role: "user"@, content: Some(text), tool_calls: None, tool_call_id: None }]
        } else {
            Seq::empty()
        },
        Role::Assistant => {
            let calls = calls_of(m.content@);
            seq![
                MessageView {
                    role: "assistant"@,
                    content: if text.len() > 0 {
                        Some(text)
                    } else {
                        None
                    },
                    tool_calls: if calls.len() > 0 {
                        Some(calls)
                    } else {
                        None
                    },
                    tool_call_id: None,
                },
            ]
        },
    }
}

/// The request messages a conversation becomes, in order.
pub open spec fn all_wire(ms: Seq<Message>) -> Seq<MessageView>
    decreases ms.len(),
{
    if ms.len() == 0 {
        Seq::empty()
    } else {
        all_wire(ms.drop_last()) + wire_messages(ms.last())
    }
}

/// The system prompt as the leading `system` message, if there is one.
pub open spec fn system_part(system: Option<String>) -> Seq<MessageView> {
    match system {
        Some(s) => seq![
            MessageView { role: "system"@, content: Some(s@), tool_calls: None, tool_call_id: None },
        ],
        None => Seq::empty(),
    }
}

/// The first tool named `name`.
pub open spec fn first_named(tools: Seq<Tool>, name: Seq<char>) -> Option<Tool>
    decreases tools.len(),
{
    if tools.len() == 0 {
        None
    } else if tools[0].name@ == name {
        Some(tools[0])
    } else {
        first_named(tools.drop_first(), name)
    }
}

/// The forced tool to realize by constrained decoding, with its parameter
/// schema: only when constrained decoding is asked for, a tool is forced,
/// and the request offers a tool of that name.
pub open spec fn constrained(ctx: Context, opts: CompleteOptions) -> Option<(Seq<char>, serde_json::Value)> {
    if !opts.constrained_decoding {
        None
    } else {
        match opts.tool_choice {
            None => None,
            Some(name) => match first_named(ctx.tools@, name@) {
                Some(t) => Some((name@, t.parameters)),
                None => None,
            },
        }
    }
}

/// How a tool is offered.
pub open spec fn offered(t: Tool) -> (Seq<char>, Seq<char>, Seq<char>, serde_json::Value) {
    ("function"@, t.name@, t.description@, t.parameters)
}

pub open spec fn tool_view(t: OpenAiTool) -> (Seq<char>, Seq<char>, Seq<char>, serde_json::Value) {
    (t.kind@, t.name@, t.description@, t.parameters)
}

/// The `tool` message that carries the tool result with call id `id` and
/// content `content`.
pub open spec fn result_message(id: Seq<char>, content: Seq<char>) -> MessageView {
    MessageView { role: "tool"@, content: Some(content), tool_calls: None, tool_call_id: Some(id) }
}

/// A user turn's tool results are sent first, one `tool` message each, in
/// order: each names the result's call id and carries its content.
pub proof fn law_tool_results_become_tool_messages(m: Message)
    requires
        m.role == Role::User,
    ensures
        wire_messages(m).len() >= result_parts(m.content@).len(),
        forall|i: int|
            0 <= i < result_parts(m.content@).len() ==> #[trigger] wire_messages(m)[i]
                == result_message(result_parts(m.content@)[i].0, result_parts(m.content@)[i].1),
{
    lemma_tool_messages_carry_results(m.content@);
}

proof fn lemma_tool_messages_carry_results(s: Seq<ContentBlock>)
    ensures
        tool_messages(s).len() == result_parts(s).len(),
        forall|i: int|
            0 <= i < result_parts(s).len() ==> #[trigger] tool_messages(s)[i] == result_message(
                result_parts(s)[i].0,
                result_parts(s)[i].1,
            ),
    decreases s.len(),
{
    if s.len() > 0 {
        lemma_tool_messages_carry_results(s.drop_last());
    }
}

/// An assistant turn is one `assistant` message; its function calls, when it
/// makes any, are its tool calls in order, each with the same id and name and
/// its arguments as JSON text; its content is its text when it has any.
pub proof fn law_tool_calls_become_function_calls(m: Message)
    requires
        m.role == Role::Assistant,
    ensures
        wire_messages(m).len() == 1,
        wire_messages(m)[0].role == "assistant"@,
        (wire_messages(m)[0].tool_calls is Some) == (call_parts(m.content@).len() > 0),
        wire_messages(m)[0].tool_calls matches Some(cs) ==> cs.len() == call_parts(m.content@).len()
            && forall|i: int|
            0 <= i < cs.len() ==> (#[trigger] cs[i]).id == call_parts(m.content@)[i].0 && cs[i].kind
                == "function"@ && cs[i].name == call_parts(m.content@)[i].1 && cs[i].arguments
                == json_rendered(call_parts(m.content@)[i].2),
        (wire_messages(m)[0].content is Some) == (joined(text_parts(m.content@)).len() > 0),
{
    lemma_calls_carry_calls(m.content@);
    lemma_texts_are_text_parts(m.content@);
}

proof fn lemma_calls_carry_calls(s: Seq<ContentBlock>)
    ensures
        calls_of(s).len() == call_parts(s).len(),
        forall|i: int|
            0 <= i < call_parts(s).len() ==> (#[trigger] calls_of(s)[i]).id == call_parts(s)[i].0
                && calls_of(s)[i].kind == "function"@ && calls_of(s)[i].name == call_parts(s)[i].1
                && calls_of(s)[i].arguments == json_rendered(call_parts(s)[i].2),
    decreases s.len(),
{
    if s.len() > 0 {
        lemma_calls_carry_calls(s.drop_last());
    }
}

proof fn lemma_texts_are_text_parts(s: Seq<ContentBlock>)
    ensures
        texts_of(s) == text_parts(s),
    decreases s.len(),
{
    if s.len() > 0 {
        lemma_texts_are_text_parts(s.drop_last());
    }
}

/// Appends the request messages `message` becomes.
pub fn append_message(messages: &mut Vec<OpenAiMessage>, message: &Message)
    ensures
        messages_view(final(messages)@) == messages_view(old(messages)@) + wire_messages(*message),
        message.role == Role::User ==> forall|i: int|
            0 <= i < result_parts(message.content@).len() ==> #[trigger] messages_view(
                final(messages)@,
            )[old(messages)@.len() + i] == result_message(
                result_parts(message.content@)[i].0,
                result_parts(message.content@)[i].1,
            ),
{
    proof {
        if message.role == Role::User {
            law_tool_results_become_tool_messages(*message);
        }
    }
    let ghost start = messages_view(messages@);
    let ghost blocks = message.content@;
    let mut text = String::new();
    match message.role {
        Role::User => {
            let mut i: usize = 0;
            while i < message.content.len()
                invariant
                    blocks == message.content@,
                    message.role == Role::User,
                    i <= blocks.len(),
                    messages_view(messages@) == start + tool_messages(blocks.subrange(0, i as int)),
                    text@ == joined(texts_of(blocks.subrange(0, i as int))),
                decreases message.content.len() - i,
            {
                assert(blocks.subrange(0, i + 1).drop_last() =~= blocks.subrange(0, i as int));
                match &message.content[i] {
                    ContentBlock::Text { text: t } => {
                        let ghost a = text@;
                        let ghost prev = texts_of(blocks.subrange(0, i as int));
                        assert(texts_of(blocks.subrange(0, i + 1)) == prev.push(t@));
                        assert(prev.push(t@).drop_last() =~= prev);
                        if text.as_str().unicode_len() > 0 {
                            push_char(&mut text, '\n');
                        }
                        push_str(&mut text, t.as_str());
                        assert(text@ =~= if a.len() == 0 {
                            t@
                        } else {
                            a + seq!['\n'] + t@
                        });
                    },
                    ContentBlock::ToolResult { tool_call_id, content, .. } => {
                        let ghost before = messages@;
                        messages.push(
                            OpenAiMessage {
                                role: owned("tool"),
                                content: Some(content.clone()),
                                tool_calls: None,
                                tool_call_id: Some(tool_call_id.clone()),
                            },
                        );
                        assert(messages_view(messages@) =~= messages_view(before).push(
                            message_view(messages@.last()),
                        ));
                    },
                    _ => {},
                }
                i += 1;
            }
            assert(blocks.subrange(0, blocks.len() as int) =~= blocks);
            if text.as_str().unicode_len() > 0 {
                let ghost before = messages@;
                messages.push(
                    OpenAiMessage {
                        role: owned("user"),
                        content: Some(text),
                        tool_calls: None,
                        tool_call_id: None,
                    },
                );
                assert(messages_view(messages@) =~= messages_view(before).push(
                    message_view(messages@.last()),
                ));
            }
            assert(messages_view(messages@) =~= start + wire_messages(*message));
        },
        Role::Assistant => {
            let mut calls: Vec<OpenAiToolCall> = Vec::new();
            let mut i: usize = 0;
            while i < message.content.len()
                invariant
                    blocks == message.content@,
                    i <= blocks.len(),
                    messages_view(messages@) == start,
                    calls@.map_values(|c: OpenAiToolCall| call_view(c)) == calls_of(
                        blocks.subrange(0, i as int),
                    ),
                    text@ == joined(texts_of(blocks.subrange(0, i as int))),
                decreases message.content.len() - i,
            {
                assert(blocks.subrange(0, i + 1).drop_last() =~= blocks.subrange(0, i as int));
                match &message.content[i] {
                    ContentBlock::Text { text: t } => {
                        let ghost a = text@;
                        let ghost prev = texts_of(blocks.subrange(0, i as int));
                        assert(texts_of(blocks.subrange(0, i + 1)) == prev.push(t@));
                        assert(prev.push(t@).drop_last() =~= prev);
                        if text.as_str().unicode_len() > 0 {
                            push_char(&mut text, '\n');
                        }
                        push_str(&mut text, t.as_str());
                        assert(text@ =~= if a.len() == 0 {
                            t@
                        } else {
                            a + seq!['\n'] + t@
                        });
                    },
                    ContentBlock::ToolCall { id, name, arguments } => {
                        let ghost before = calls@;
                        calls.push(
                            OpenAiToolCall {
                                id: id.clone(),
                                kind: owned("function"),
                                name: name.clone(),
                                arguments: render_json(arguments),
                            },
                        );
                        assert(calls@.map_values(|c: OpenAiToolCall| call_view(c)) =~= before.map_values(
                            |c: OpenAiToolCall| call_view(c),
                        ).push(call_view(calls@.last())));
                    },
                    _ => {},
                }
                i += 1;
            }
            assert(blocks.subrange(0, blocks.len() as int) =~= blocks);
            let content = if text.as_str().unicode_len() > 0 {
                Some(text)
            } else {
                None
            };
            let tool_calls = if calls.len() > 0 {
                Some(calls)
            } else {
                None
            };
            let ghost before = messages@;
            messages.push(
                OpenAiMessage { role: owned("assistant"), content, tool_calls, tool_call_id: None },
            );
            assert(messages_view(messages@) =~= messages_view(before).push(
                message_view(messages@.last()),
            ));
            assert(messages_view(messages@) =~= start + wire_messages(*message));
        },
    }
}

/// The forced tool's name and parameter schema, when the forced call is to be
/// realized by constrained decoding.
pub fn constrained_schema(ctx: &Context, opts: &CompleteOptions) -> (r: Option<(String, serde_json::Value)>)
    ensures
        match constrained(*ctx, *opts) {
            Some((name, schema)) => r matches Some((n, s)) && n@ == name && s == schema,
            None => r is None,
        },
{
    if !opts.constrained_decoding {
        return None;
    }
    let name = match &opts.tool_choice {
        Some(n) => n,
        None => {
            return None;
        },
    };
    let ghost tools = ctx.tools@;
    assert(tools.subrange(0, tools.len() as int) =~= tools);
    let mut i: usize = 0;
    while i < ctx.tools.len()
        invariant
            tools == ctx.tools@,
            opts.constrained_decoding,
            opts.tool_choice == Some(*name),
            i <= tools.len(),
            first_named(tools.subrange(i as int, tools.len() as int), name@) == first_named(
                tools,
                name@,
            ),
        decreases ctx.tools.len() - i,
    {
        let ghost rest = tools.subrange(i as int, tools.len() as int);
        assert(rest[0] == tools[i as int]);
        if str_eq(ctx.tools[i].name.as_str(), name.as_str()) {
            assert(first_named(rest, name@) == Some(tools[i as int]));
            return Some((name.clone(), copy_json(&ctx.tools[i].parameters)));
        }
        assert(rest.drop_first() =~= tools.subrange(i + 1, tools.len() as int));
        i += 1;
    }
    assert(tools.subrange(i as int, tools.len() as int).len() == 0);
    None
}

/// `schema` closed to properties it does not list: an object schema gets
/// `"additionalProperties": false`; any other value is left as it is.
pub open spec fn closed_schema(schema: serde_json::Value) -> serde_json::Value {
    json_inserted(schema, "additionalProperties"@, json_bool_value(false))
}

/// A strict `json_schema` response format built from a tool's parameter
/// schema, closed to properties the schema does not list, so the model's
/// output is grammar-constrained to valid arguments.
pub fn json_schema_format(name: &str, schema: serde_json::Value) -> (r: ResponseFormat)
    ensures
        r.kind@ == "json_schema"@,
        r.name@ == name@,
        r.schema == closed_schema(schema),
        r.strict,
{
    // Strict mode asks for `additionalProperties: false` on the object.
    let closed = json_insert(schema, owned("additionalProperties"), json_bool(false));
    ResponseFormat { kind: owned("json_schema"), name: owned(name), schema: closed, strict: true }
}

/// The request body for `ctx` under `opts`. The system prompt leads the
/// messages. A forced tool call is realized either by constrained decoding —
/// a `response_format` from the tool's schema, and no tools sent — or, when
/// that does not apply, as `tool_choice: "required"` over the tools offered.
/// A reasoning level is sent as `reasoning_effort`; the output cap is the
/// options' own, else the model's.
pub fn build_request(model: &Model, ctx: &Context, opts: &CompleteOptions, stream: bool) -> (r:
    OpenAiRequest)
    ensures
        r.model == model.id,
        r.max_tokens == (match opts.max_tokens {
            Some(n) => n,
            None => model.max_tokens,
        }),
        messages_view(r.messages@) == system_part(ctx.system) + all_wire(ctx.messages@),
        match constrained(*ctx, *opts) {
            Some((name, schema)) => {
                &&& r.tools@.len() == 0
                &&& r.tool_choice is None
                &&& r.response_format matches Some(f)
                &&& f.kind@ == "json_schema"@ && f.name@ == name && f.schema == closed_schema(schema)
                    && f.strict
            },
            None => {
                &&& r.tools@.map_values(|t: OpenAiTool| tool_view(t)) == ctx.tools@.map_values(
                    |t: Tool| offered(t),
                )
                &&& r.response_format is None
                &&& if opts.tool_choice is Some {
                    r.tool_choice matches Some(c) && c@ == "required"@
                } else {
                    r.tool_choice is None
                }
            },
        },
        opt_string_view(r.reasoning_effort) == effort_of(opts.reasoning),
        r.stream == stream,
{
    let mut messages: Vec<OpenAiMessage> = Vec::new();
    match &ctx.system {
        Some(system) => {
            messages.push(
                OpenAiMessage {
                    role: owned("system"),
                    content: Some(system.clone()),
                    tool_calls: None,
                    tool_call_id: None,
                },
            );
        },
        None => {},
    }
    assert(messages_view(messages@) =~= system_part(ctx.system));
    let ghost ms = ctx.messages@;
    let mut i: usize = 0;
    while i < ctx.messages.len()
        invariant
            ms == ctx.messages@,
            i <= ms.len(),
            messages_view(messages@) == system_part(ctx.system) + all_wire(ms.subrange(0, i as int)),
        decreases ctx.messages.len() - i,
    {
        append_message(&mut messages, &ctx.messages[i]);
        assert(ms.subrange(0, i + 1).drop_last() =~= ms.subrange(0, i as int));
        i += 1;
    }
    assert(ms.subrange(0, ms.len() as int) =~= ms);
    let reasoning_effort = match opts.reasoning {
        Reasoning::Off => None,
        Reasoning::Low => Some(owned("low")),
        Reasoning::Medium => Some(owned("medium")),
        Reasoning::High => Some(owned("high")),
    };
    let max_tokens = match opts.max_tokens {
        Some(n) => n,
        None => model.max_tokens,
    };
    let (tools, tool_choice, response_format) = match constrained_schema(ctx, opts) {
        Some((name, schema)) => (Vec::new(), None, Some(json_schema_format(name.as_str(), schema))),
        None => {
            let tools = offered_tools(&ctx.tools);
            let choice = if opts.tool_choice.is_some() {
                Some(owned("required"))
            } else {
                None
            };
            (tools, choice, None)
        },
    };
    OpenAiRequest {
        model: model.id.clone(),
        messages,
        max_tokens,
        tools,
        tool_choice,
        response_format,
        reasoning_effort,
        stream,
    }
}

/// Every tool, offered as a function.
fn offered_tools(tools: &Vec<Tool>) -> (r: Vec<OpenAiTool>)
    ensures
        r@.map_values(|t: OpenAiTool| tool_view(t)) == tools@.map_values(|t: Tool| offered(t)),
{
    let mut out: Vec<OpenAiTool> = Vec::new();
    let mut k: usize = 0;
    while k < tools.len()
        invariant
            k <= tools@.len(),
            out@.map_values(|t: OpenAiTool| tool_view(t)) == tools@.subrange(0, k as int).map_values(
                |t: Tool| offered(t),
            ),
        decreases tools.len() - k,
    {
        let t = &tools[k];
        let ghost before = out@;
        out.push(
            OpenAiTool {
                kind: owned("function"),
                name: t.name.clone(),
                description: t.description.clone(),
                parameters: copy_json(&t.parameters),
            },
        );
        assert(out@.map_values(|t: OpenAiTool| tool_view(t)) =~= before.map_values(
            |t: OpenAiTool| tool_view(t),
        ).push(tool_view(out@.last())));
        assert(tools@.subrange(0, k + 1).map_values(|t: Tool| offered(t)) =~= tools@.subrange(
            0,
            k as int,
        ).map_values(|t: Tool| offered(t)).push(offered(tools@[k as int])));
        k += 1;
    }
    assert(tools@.subrange(0, tools@.len() as int) =~= tools@);
    out
}

/// The text of the first text block, or nothing when there is none.
pub open spec fn first_text(blocks: Seq<ContentBlock>) -> Seq<char>
    decreases blocks.len(),
{
    if blocks.len() == 0 {
        Seq::empty()
    } else {
        match blocks[0] {
            ContentBlock::Text { text } => text@,
            _ => first_text(blocks.drop_first()),
        }
    }
}

/// The text of the first text block, or the empty string.
fn first_text_in(content: &Vec<ContentBlock>) -> (r: String)
    ensures
        r@ == first_text(content@),
{
    let ghost blocks = content@;
    assert(blocks.subrange(0, blocks.len() as int) =~= blocks);
    let mut i: usize = 0;
    while i < content.len()
        invariant
            blocks == content@,
            i <= blocks.len(),
            first_text(blocks.subrange(i as int, blocks.len() as int)) == first_text(blocks),
        decreases content.len() - i,
    {
        let ghost rest = blocks.subrange(i as int, blocks.len() as int);
        assert(rest[0] == blocks[i as int]);
        match &content[i] {
            ContentBlock::Text { text } => {
                return text.clone();
            },
            _ => {},
        }
        assert(rest.drop_first() =~= blocks.subrange(i + 1, blocks.len() as int));
        i += 1;
    }
    assert(blocks.subrange(i as int, blocks.len() as int).len() == 0);
    String::new()
}

/// Under constrained decoding the model answers with the tool's arguments as
/// JSON text rather than a tool call; this makes the call the run loop
/// expects, from the first text block (id `constrained_<tool>`).
pub fn synthesize_constrained_call(content: &Vec<ContentBlock>, tool: &str) -> (r: Vec<ContentBlock>)
    ensures
        r@.len() == 1,
        r@[0] matches ContentBlock::ToolCall { id, name, arguments } && id@ == "constrained_"@ + tool@
            && name@ == tool@ && args_parsed(first_text(content@), arguments),
{
    let args = first_text_in(content);
    let mut id = owned("constrained_");
    push_str(&mut id, tool);
    let arguments = parse_args(args.as_str());
    let mut out: Vec<ContentBlock> = Vec::new();
    out.push(ContentBlock::ToolCall { id, name: owned(tool), arguments });
    out
}

// ---------------------------------------------------------------------------
// Whole replies
// ---------------------------------------------------------------------------

/// A function call in a whole reply; its arguments are JSON text.
#[derive(Debug)]
pub struct OpenAiReplyCall {
    pub id: String,
    pub name: String,
    pub arguments: String,
}

/// One choice of a whole reply.
#[derive(Debug)]
pub struct OpenAiChoice {
    pub content: Option<String>,
    pub tool_calls: Vec<OpenAiReplyCall>,
    pub finish_reason: Option<String>,
}

/// A whole `/v1/chat/completions` reply.
#[derive(Debug)]
pub struct OpenAiReply {
    pub choices: Vec<OpenAiChoice>,
    pub prompt_tokens: u32,
    pub completion_tokens: u32,
}

/// Whether a choice opens with text: it has some, and it is not empty.
pub open spec fn has_text(content: Option<String>) -> bool {
    match content {
        Some(t) => t@.len() > 0,
        None => false,
    }
}

/// `b` is the tool call a reply's function call reads as.
pub open spec fn reply_call(w: OpenAiReplyCall, b: ContentBlock) -> bool {
    b matches ContentBlock::ToolCall { id, name, arguments } && id@ == w.id@ && name@ == w.name@
        && args_parsed(w.arguments@, arguments)
}

/// Where a choice's function calls start among the blocks it reads as: after
/// its text, when it has any.
pub open spec fn calls_start(c: OpenAiChoice) -> int {
    if has_text(c.content) {
        1
    } else {
        0
    }
}

/// `content` is what a choice reads as: its text (when not empty), then its
/// function calls in order.
pub open spec fn choice_content(c: OpenAiChoice, content: Seq<ContentBlock>) -> bool {
    let lead = calls_start(c);
    &&& content.len() == lead + c.tool_calls@.len()
    &&& has_text(c.content) ==> (content[0] matches ContentBlock::Text { text } && Some(text@)
        == opt_string_view(c.content))
    &&& forall|j: int|
        0 <= j < c.tool_calls@.len() ==> #[trigger] reply_call(c.tool_calls@[j], content[lead + j])
}

/// A choice read back keeps its text first, when it has any, and then every
/// function call in order as a tool call with the same id and name.
pub proof fn law_choice_keeps_text_and_calls(c: OpenAiChoice, content: Seq<ContentBlock>)
    requires
        choice_content(c, content),
    ensures
        has_text(c.content) ==> (content[0] matches ContentBlock::Text { text } && Some(text@)
            == opt_string_view(c.content)),
        forall|j: int|
            0 <= j < c.tool_calls@.len() ==> ((#[trigger] content[calls_start(c) + j]) matches ContentBlock::ToolCall {
                id,
                name,
                ..
            } && id@ == c.tool_calls@[j].id@ && name@ == c.tool_calls@[j].name@),
        content.len() == c.tool_calls@.len() + calls_start(c),
{
    assert forall|j: int| 0 <= j < c.tool_calls@.len() implies ((#[trigger] content[calls_start(c) + j]) matches ContentBlock::ToolCall {
        id,
        name,
        ..
    } && id@ == c.tool_calls@[j].id@ && name@ == c.tool_calls@[j].name@) by {
        assert(reply_call(c.tool_calls@[j], content[calls_start(c) + j]));
    }
}

/// The message text of a reply with no choices.
pub open spec fn no_choices_message() -> Seq<char> {
    "response had no choices"@
}

impl OpenAiReply {
    /// The reply's first choice as a unified completion; a reply with no
    /// choice is a parse error.
    pub fn into_completion(self) -> (r: Result<Completion, crate::ai::ProviderError>)
        ensures
            (self.choices@.len() == 0) == (r is Err),
            r matches Err(e) ==> e matches crate::ai::ProviderError::Parse(m) && m@
                == no_choices_message(),
            r matches Ok(c) ==> {
                &&& c.message.role == Role::Assistant
                &&& choice_content(self.choices@[0], c.message.content@)
                &&& c.stop_reason == openai_finish(opt_string_view(self.choices@[0].finish_reason))
                &&& c.usage == (Usage { input: self.prompt_tokens, output: self.completion_tokens })
            },
    {
        if self.choices.len() == 0 {
            return Err(crate::ai::ProviderError::Parse(owned("response had no choices")));
        }
        let choice = &self.choices[0];
        let mut content: Vec<ContentBlock> = Vec::new();
        match &choice.content {
            Some(text) => {
                if text.as_str().unicode_len() > 0 {
                    content.push(ContentBlock::Text { text: text.clone() });
                }
            },
            None => {},
        }
        let ghost lead: int = content@.len() as int;
        let mut j: usize = 0;
        while j < choice.tool_calls.len()
            invariant
                j <= choice.tool_calls@.len(),
                lead == (if has_text(choice.content) {
                    1int
                } else {
                    0
                }),
                content@.len() == lead + j,
                has_text(choice.content) ==> (content@[0] matches ContentBlock::Text { text } && Some(
                    text@,
                ) == opt_string_view(choice.content)),
                forall|k: int| 0 <= k < j ==> #[trigger] reply_call(choice.tool_calls@[k], content@[lead + k]),
            decreases choice.tool_calls.len() - j,
        {
            let call = &choice.tool_calls[j];
            let arguments = parse_args(call.arguments.as_str());
            content.push(ContentBlock::ToolCall { id: call.id.clone(), name: call.name.clone(), arguments });
            assert(reply_call(choice.tool_calls@[j as int], content@[lead + j]));
            j += 1;
        }
        let finish: Option<&str> = match &choice.finish_reason {
            Some(f) => Some(f.as_str()),
            None => None,
        };
        Ok(
            Completion {
                message: Message { role: Role::Assistant, content },
                stop_reason: map_finish_reason(finish),
                usage: Usage { input: self.prompt_tokens, output: self.completion_tokens },
            },
        )
    }
}

// ---------------------------------------------------------------------------
// Streamed replies
// ---------------------------------------------------------------------------

/// One function-call fragment of a streamed chunk: which call it extends
/// (`index`), and the `id`, `function.name` and `function.arguments` it
/// carries, each `None` where absent or not a string (an absent index is 0).
#[derive(Debug)]
pub struct CallDelta {
    pub index: Option<u64>,
    pub id: Option<String>,
    pub name: Option<String>,
    pub arguments: Option<String>,
}

/// A chunk's `usage` object.
#[derive(Debug)]
pub struct ChunkUsage {
    pub prompt_tokens: Option<u64>,
    pub completion_tokens: Option<u64>,
}

/// A chunk's first choice: its `finish_reason` and its `delta`'s `content`
/// and `tool_calls` (empty where the delta has none).
#[derive(Debug)]
pub struct ChunkChoice {
    pub finish_reason: Option<String>,
    pub content: Option<String>,
    pub tool_calls: Vec<CallDelta>,
}

/// One streamed chunk, by the fields this crate reads: `usage` where the
/// chunk has a usage object, `choice` where it has a first choice.
#[derive(Debug)]
pub struct OpenAiChunk {
    pub usage: Option<ChunkUsage>,
    pub choice: Option<ChunkChoice>,
}

/// A function call being assembled from a stream.
#[derive(Debug)]
pub struct CallBuild {
    pub id: String,
    pub name: String,
    pub args: String,
}

/// A stream in progress: the text and the function calls assembled so far,
/// the last finish reason and the token counts.
#[derive(Debug)]
pub struct StreamAccumulator {
    pub text: String,
    pub tool_calls: Vec<CallBuild>,
    pub finish_reason: Option<String>,
    pub prompt_tokens: u32,
    pub completion_tokens: u32,
}

pub open spec fn build_of(b: CallBuild) -> (Seq<char>, Seq<char>, Seq<char>) {
    (b.id@, b.name@, b.args@)
}

/// The call a fragment extends (0 when it names none).
pub open spec fn delta_index(d: CallDelta) -> int {
    match d.index {
        Some(i) => (i as usize) as int,
        None => 0,
    }
}

/// A string field's text, or nothing when it is absent.
pub open spec fn text_of(o: Option<String>) -> Seq<char> {
    match o {
        Some(s) => s@,
        None => Seq::empty(),
    }
}

/// The calls, extended by empty ones so that call `i` exists.
pub open spec fn reaching(s: Seq<(Seq<char>, Seq<char>, Seq<char>)>, i: int) -> Seq<
    (Seq<char>, Seq<char>, Seq<char>),
> {
    if i < s.len() {
        s
    } else {
        s + Seq::new(
            (i + 1 - s.len()) as nat,
            |j: int| (Seq::<char>::empty(), Seq::<char>::empty(), Seq::<char>::empty()),
        )
    }
}

/// The calls after fragment `d`: the call it names takes the fragment's id
/// and name where given, and its argument text grows by the fragment's.
pub open spec fn call_step(s: Seq<(Seq<char>, Seq<char>, Seq<char>)>, d: CallDelta) -> Seq<
    (Seq<char>, Seq<char>, Seq<char>),
> {
    let i = delta_index(d);
    let p = reaching(s, i);
    let c = p[i];
    p.update(
        i,
        (
            match d.id {
                Some(x) => x@,
                None => c.0,
            },
            match d.name {
                Some(x) => x@,
                None => c.1,
            },
            c.2 + text_of(d.arguments),
        ),
    )
}

/// The calls after the fragments `ds`, in order.
pub open spec fn calls_after(s: Seq<(Seq<char>, Seq<char>, Seq<char>)>, ds: Seq<CallDelta>) -> Seq<
    (Seq<char>, Seq<char>, Seq<char>),
>
    decreases ds.len(),
{
    if ds.len() == 0 {
        s
    } else {
        call_step(calls_after(s, ds.drop_last()), ds.last())
    }
}

/// `e` reports fragment `d`: call `d`'s index is content index `index + 1`,
/// the text being index 0.
pub open spec fn call_event(d: CallDelta, e: StreamEvent) -> bool {
    e matches StreamEvent::ToolCallDelta { content_index, id, name, arguments_delta }
        && content_index == delta_index(d) + 1 && opt_string_view(id) == opt_string_view(d.id)
        && opt_string_view(name) == opt_string_view(d.name) && arguments_delta@ == text_of(
        d.arguments,
    )
}

/// A token count from a chunk's usage, or the count so far.
pub open spec fn count_after(n: Option<u64>, so_far: u32) -> u32 {
    match n {
        Some(x) => x as u32,
        None => so_far,
    }
}

/// The fragments of a chunk all name calls that can be counted and reported.
pub open spec fn chunk_fits(chunk: OpenAiChunk) -> bool {
    chunk.choice matches Some(c) ==> forall|j: int|
        0 <= j < c.tool_calls@.len() ==> delta_index(#[trigger] c.tool_calls@[j]) < usize::MAX
}

/// The assembled text and calls, finished: the text (when not empty), then
/// each call with its argument text read as JSON.
pub open spec fn finished_content(
    text: Seq<char>,
    calls: Seq<(Seq<char>, Seq<char>, Seq<char>)>,
    content: Seq<ContentBlock>,
) -> bool {
    let lead: int = if text.len() > 0 {
        1
    } else {
        0
    };
    &&& content.len() == lead + calls.len()
    &&& text.len() > 0 ==> (content[0] matches ContentBlock::Text { text: t } && t@ == text)
    &&& forall|j: int|
        0 <= j < calls.len() ==> #[trigger] finished_call(calls[j], content[lead + j])
}

pub open spec fn finished_call(c: (Seq<char>, Seq<char>, Seq<char>), b: ContentBlock) -> bool {
    b matches ContentBlock::ToolCall { id, name, arguments } && id@ == c.0 && name@ == c.1
        && args_parsed(c.2, arguments)
}

impl StreamAccumulator {
    /// The calls, by their text.
    pub open spec fn calls(self) -> Seq<(Seq<char>, Seq<char>, Seq<char>)> {
        self.tool_calls@.map_values(|b: CallBuild| build_of(b))
    }

    /// A stream before its first chunk.
    pub fn new() -> (r: StreamAccumulator)
        ensures
            r.text@.len() == 0,
            r.tool_calls@.len() == 0,
            r.finish_reason is None,
            r.prompt_tokens == 0,
            r.completion_tokens == 0,
    {
        StreamAccumulator {
            text: String::new(),
            tool_calls: Vec::new(),
            finish_reason: None,
            prompt_tokens: 0,
            completion_tokens: 0,
        }
    }

    /// Folds one chunk into the stream and reports what it added: its text
    /// (when not empty) as content index 0, then each function-call fragment.
    pub fn handle(&mut self, chunk: &OpenAiChunk) -> (r: Vec<StreamEvent>)
        requires
            chunk_fits(*chunk),
        ensures
            final(self).prompt_tokens == (match chunk.usage {
                Some(u) => count_after(u.prompt_tokens, old(self).prompt_tokens),
                None => old(self).prompt_tokens,
            }),
            final(self).completion_tokens == (match chunk.usage {
                Some(u) => count_after(u.completion_tokens, old(self).completion_tokens),
                None => old(self).completion_tokens,
            }),
            match chunk.choice {
                None => {
                    &&& r@.len() == 0
                    &&& final(self).text@ == old(self).text@
                    &&& final(self).calls() == old(self).calls()
                    &&& final(self).finish_reason == old(self).finish_reason
                },
                Some(c) => {
                    let lead: int = if has_text(c.content) {
                        1
                    } else {
                        0
                    };
                    &&& final(self).finish_reason == (if c.finish_reason is Some {
                        c.finish_reason
                    } else {
                        old(self).finish_reason
                    })
                    &&& final(self).text@ == old(self).text@ + (if has_text(c.content) {
                        text_of(c.content)
                    } else {
                        Seq::empty()
                    })
                    &&& final(self).calls() == calls_after(old(self).calls(), c.tool_calls@)
                    &&& r@.len() == lead + c.tool_calls@.len()
                    &&& has_text(c.content) ==> (r@[0] matches StreamEvent::TextDelta {
                        content_index,
                        delta,
                    } && content_index == 0 && delta@ == text_of(c.content))
                    &&& forall|j: int|
                        0 <= j < c.tool_calls@.len() ==> #[trigger] call_event(
                            c.tool_calls@[j],
                            r@[lead + j],
                        )
                },
            },
    {
        match &chunk.usage {
            Some(u) => {
                match u.prompt_tokens {
                    Some(n) => {
                        self.prompt_tokens = #[verifier::truncate] (n as u32);
                    },
                    None => {},
                }
                match u.completion_tokens {
                    Some(n) => {
                        self.completion_tokens = #[verifier::truncate] (n as u32);
                    },
                    None => {},
                }
            },
            None => {},
        }
        let mut events: Vec<StreamEvent> = Vec::new();
        let choice = match &chunk.choice {
            Some(c) => c,
            None => {
                return events;
            },
        };
        match &choice.finish_reason {
            Some(reason) => {
                self.finish_reason = Some(reason.clone());
            },
            None => {},
        }
        match &choice.content {
            Some(text) => {
                if text.as_str().unicode_len() > 0 {
                    push_str(&mut self.text, text.as_str());
                    events.push(StreamEvent::TextDelta { content_index: 0, delta: text.clone() });
                }
            },
            None => {},
        }
        let ghost lead: int = events@.len() as int;
        let ghost start = self.calls();
        let ghost text_now = self.text;
        let ghost finish_now = self.finish_reason;
        let ghost prompt_now = self.prompt_tokens;
        let ghost completion_now = self.completion_tokens;
        let ghost ds = choice.tool_calls@;
        let mut j: usize = 0;
        while j < choice.tool_calls.len()
            invariant
                ds == choice.tool_calls@,
                j <= ds.len(),
                forall|k: int| 0 <= k < ds.len() ==> delta_index(#[trigger] ds[k]) < usize::MAX,
                lead == (if has_text(choice.content) {
                    1int
                } else {
                    0
                }),
                events@.len() == lead + j,
                has_text(choice.content) ==> (events@[0] matches StreamEvent::TextDelta {
                    content_index,
                    delta,
                } && content_index == 0 && delta@ == text_of(choice.content)),
                forall|k: int| 0 <= k < j ==> #[trigger] call_event(ds[k], events@[lead + k]),
                self.calls() == calls_after(start, ds.subrange(0, j as int)),
                self.text == text_now,
                self.finish_reason == finish_now,
                self.prompt_tokens == prompt_now,
                self.completion_tokens == completion_now,
            decreases choice.tool_calls.len() - j,
        {
            let d = &choice.tool_calls[j];
            assert(delta_index(ds[j as int]) < usize::MAX);
            let index: usize = match d.index {
                Some(i) => #[verifier::truncate] (i as usize),
                None => 0,
            };
            self.extend_call(index, d);
            assert(ds.subrange(0, j + 1).drop_last() =~= ds.subrange(0, j as int));
            let id = match &d.id {
                Some(x) => Some(x.clone()),
                None => None,
            };
            let name = match &d.name {
                Some(x) => Some(x.clone()),
                None => None,
            };
            let args = match &d.arguments {
                Some(x) => x.clone(),
                None => String::new(),
            };
            events.push(
                StreamEvent::ToolCallDelta { content_index: index + 1, id, name, arguments_delta: args },
            );
            assert(call_event(ds[j as int], events@[lead + j]));
            j += 1;
        }
        assert(ds.subrange(0, ds.len() as int) =~= ds);
        events
    }

    /// Applies fragment `d` to call `index`, creating empty calls up to it.
    fn extend_call(&mut self, index: usize, d: &CallDelta)
        requires
            index < usize::MAX,
            delta_index(*d) == index,
        ensures
            final(self).calls() == call_step(old(self).calls(), *d),
            final(self).text == old(self).text,
            final(self).finish_reason == old(self).finish_reason,
            final(self).prompt_tokens == old(self).prompt_tokens,
            final(self).completion_tokens == old(self).completion_tokens,
    {
        let ghost s0 = old(self).calls();
        let ghost n0 = s0.len();
        while self.tool_calls.len() <= index
            invariant
                index < usize::MAX,
                n0 == old(self).tool_calls@.len(),
                n0 <= self.tool_calls@.len(),
                n0 < index + 1 ==> self.tool_calls@.len() <= index + 1,
                n0 >= index + 1 ==> self.tool_calls@.len() == n0,
                self.calls() == s0 + Seq::new(
                    (self.tool_calls@.len() - n0) as nat,
                    |j: int| (Seq::<char>::empty(), Seq::<char>::empty(), Seq::<char>::empty()),
                ),
                self.text == old(self).text,
                self.finish_reason == old(self).finish_reason,
                self.prompt_tokens == old(self).prompt_tokens,
                self.completion_tokens == old(self).completion_tokens,
            decreases index + 1 - self.tool_calls@.len(),
        {
            let ghost before = self.calls();
            self.tool_calls.push(CallBuild { id: String::new(), name: String::new(), args: String::new() });
            assert(self.calls() =~= before.push(
                (Seq::<char>::empty(), Seq::<char>::empty(), Seq::<char>::empty()),
            ));
            assert(self.calls() =~= s0 + Seq::new(
                (self.tool_calls@.len() - n0) as nat,
                |j: int| (Seq::<char>::empty(), Seq::<char>::empty(), Seq::<char>::empty()),
            ));
        }
        assert(self.calls() =~= reaching(s0, index as int));
        let mut slot = CallBuild { id: String::new(), name: String::new(), args: String::new() };
        self.tool_calls.set_and_swap(index, &mut slot);
        match &d.id {
            Some(x) => {
                slot.id = x.clone();
            },
            None => {},
        }
        match &d.name {
            Some(x) => {
                slot.name = x.clone();
            },
            None => {},
        }
        match &d.arguments {
            Some(x) => {
                push_str(&mut slot.args, x.as_str());
            },
            None => {
                assert(slot.args@ =~= slot.args@ + text_of(d.arguments));
            },
        }
        self.tool_calls.set(index, slot);
        assert(self.calls() =~= call_step(s0, *d));
    }

    /// Closes the stream: the text (when not empty) then each call, its
    /// argument text read as JSON, as an assistant message, with the finish
    /// reason and counts. The text and calls are emptied.
    pub fn finish(&mut self) -> (r: StreamEvent)
        ensures
            r matches StreamEvent::Done { stop_reason, usage, message } && stop_reason
                == openai_finish(opt_string_view(old(self).finish_reason)) && usage == (Usage {
                input: old(self).prompt_tokens,
                output: old(self).completion_tokens,
            }) && message.role == Role::Assistant && finished_content(
                old(self).text@,
                old(self).calls(),
                message.content@,
            ),
            final(self).text@.len() == 0,
            final(self).tool_calls@.len() == 0,
            final(self).finish_reason == old(self).finish_reason,
            final(self).prompt_tokens == old(self).prompt_tokens,
            final(self).completion_tokens == old(self).completion_tokens,
    {
        let ghost text = self.text@;
        let ghost calls = self.calls();
        let mut content: Vec<ContentBlock> = Vec::new();
        if self.text.as_str().unicode_len() > 0 {
            let mut taken = String::new();
            core::mem::swap(&mut taken, &mut self.text);
            content.push(ContentBlock::Text { text: taken });
        }
        let ghost lead: int = content@.len() as int;
        let mut j: usize = 0;
        while j < self.tool_calls.len()
            invariant
                calls == self.calls(),
                j <= calls.len(),
                lead == (if text.len() > 0 {
                    1int
                } else {
                    0
                }),
                content@.len() == lead + j,
                text.len() > 0 ==> (content@[0] matches ContentBlock::Text { text: t } && t@ == text),
                forall|k: int| 0 <= k < j ==> #[trigger] finished_call(calls[k], content@[lead + k]),
                self.text@.len() == 0 || self.text@ == text,
                text.len() == 0 ==> self.text@.len() == 0,
                self.finish_reason == old(self).finish_reason,
                self.prompt_tokens == old(self).prompt_tokens,
                self.completion_tokens == old(self).completion_tokens,
            decreases self.tool_calls.len() - j,
        {
            let c = &self.tool_calls[j];
            let arguments = parse_args(c.args.as_str());
            content.push(ContentBlock::ToolCall { id: c.id.clone(), name: c.name.clone(), arguments });
            assert(finished_call(calls[j as int], content@[lead + j]));
            j += 1;
        }
        self.tool_calls = Vec::new();
        if self.text.as_str().unicode_len() > 0 {
            self.text = String::new();
        }
        let finish: Option<&str> = match &self.finish_reason {
            Some(f) => Some(f.as_str()),
            None => None,
        };
        StreamEvent::Done {
            stop_reason: map_finish_reason(finish),
            usage: Usage { input: self.prompt_tokens, output: self.completion_tokens },
            message: Message { role: Role::Assistant, content },
        }
    }
}

impl Default for StreamAccumulator {
    fn default() -> (r: StreamAccumulator)
        ensures
            r.text@.len() == 0,
            r.tool_calls@.len() == 0,
            r.finish_reason is None,
            r.prompt_tokens == 0,
            r.completion_tokens == 0,
    {
        StreamAccumulator::new()
    }
}

// ---------------------------------------------------------------------------
// Endpoints and discovery
// ---------------------------------------------------------------------------

/// `s` with every trailing copy of `suffix` removed (`str::trim_end_matches`).
pub open spec fn trim_suffixes(s: Seq<char>, suffix: Seq<char>) -> Seq<char>
    decreases s.len(),
{
    if suffix.len() > 0 && s.len() >= suffix.len() && s.subrange(s.len() - suffix.len(), s.len() as int)
        == suffix {
        trim_suffixes(s.subrange(0, s.len() - suffix.len()), suffix)
    } else {
        s
    }
}

/// The chat-completions endpoint under a base URL that may or may not
/// already end in `/v1`.
pub fn completions_url(base_url: &str) -> (r: String)
    ensures
        r@ == trim_suffixes(base_url@, "/v1"@) + "/v1/chat/completions"@,
{
    proof {
        reveal_strlit("/v1");
    }
    let v = crate::text::chars_of(base_url);
    let ghost suffix = "/v1"@;
    let mut end: usize = v.len();
    assert(v@.subrange(0, end as int) =~= base_url@);
    while end >= 3 && v[end - 3] == '/' && v[end - 2] == 'v' && v[end - 1] == '1'
        invariant
            end <= v@.len(),
            v@ == base_url@,
            suffix =~= seq!['/', 'v', '1'],
            trim_suffixes(v@.subrange(0, end as int), suffix) == trim_suffixes(base_url@, suffix),
        decreases end,
    {
        let ghost s = v@.subrange(0, end as int);
        assert(s.subrange(s.len() - 3, s.len() as int) =~= suffix);
        assert(s.subrange(0, s.len() - 3) =~= v@.subrange(0, end - 3));
        end = end - 3;
    }
    proof {
        let s = v@.subrange(0, end as int);
        if s.len() >= 3 {
            assert(!(s.subrange(s.len() - 3, s.len() as int) =~= suffix) ==> true);
            if s.subrange(s.len() - 3, s.len() as int) == suffix {
                assert(s.subrange(s.len() - 3, s.len() as int)[0] == v@[end - 3]);
                assert(s.subrange(s.len() - 3, s.len() as int)[1] == v@[end - 2]);
                assert(s.subrange(s.len() - 3, s.len() as int)[2] == v@[end - 1]);
            }
        }
    }
    let mut r = crate::text::string_of_range(&v, 0, end);
    push_str(&mut r, "/v1/chat/completions");
    r
}

/// The model-listing endpoint under a base URL.
pub fn models_url(base_url: &str) -> (r: String)
    ensures
        r@ == base_url@ + "/v1/models"@,
{
    let mut r = owned(base_url);
    push_str(&mut r, "/v1/models");
    r
}

/// The key to send as a bearer token: the explicit one, else the one the
/// environment holds (`LMSTUDIO_API_KEY`); none when neither is set, as an
/// OpenAI-compatible local server needs none.
pub fn bearer_key(explicit: &Option<String>, from_env: Option<String>) -> (r: Option<String>)
    ensures
        explicit is Some ==> r == *explicit,
        explicit is None ==> r == from_env,
{
    match explicit {
        Some(k) => Some(k.clone()),
        None => from_env,
    }
}

/// The models a server reports (by their ids, in order), each taken as a
/// local model at `base_url` with the conservative local limits.
pub fn list_models(ids: &Vec<String>, base_url: &str) -> (r: Vec<Model>)
    ensures
        r@.len() == ids@.len(),
        forall|i: int|
            0 <= i < ids@.len() ==> {
                &&& (#[trigger] r@[i]).id@ == ids@[i]@
                &&& r@[i].name@ == ids@[i]@
                &&& r@[i].api == crate::ai::Api::OpenAiCompletions
                &&& r@[i].provider@ == "lmstudio"@
                &&& r@[i].base_url@ == base_url@
                &&& r@[i].max_tokens == crate::ai::LMSTUDIO_DEFAULT_MAX_TOKENS
                &&& r@[i].context_window == crate::ai::LMSTUDIO_DEFAULT_CONTEXT_WINDOW
            },
{
    let mut out: Vec<Model> = Vec::new();
    let mut i: usize = 0;
    while i < ids.len()
        invariant
            i <= ids@.len(),
            out@.len() == i,
            forall|k: int|
                0 <= k < i ==> {
                    &&& (#[trigger] out@[k]).id@ == ids@[k]@
                    &&& out@[k].name@ == ids@[k]@
                    &&& out@[k].api == crate::ai::Api::OpenAiCompletions
                    &&& out@[k].provider@ == "lmstudio"@
                    &&& out@[k].base_url@ == base_url@
                    &&& out@[k].max_tokens == crate::ai::LMSTUDIO_DEFAULT_MAX_TOKENS
                    &&& out@[k].context_window == crate::ai::LMSTUDIO_DEFAULT_CONTEXT_WINDOW
                },
        decreases ids.len() - i,
    {
        out.push(lmstudio_model(ids[i].as_str(), base_url));
        i += 1;
    }
    out
}

/// Fragments of one call accumulate: two fragments naming call `i`, the
/// first with id and name, the second with neither, leave call `i` with that
/// id and name and the two argument texts joined in order.
pub proof fn law_call_fragments_accumulate(
    s: Seq<(Seq<char>, Seq<char>, Seq<char>)>,
    first: CallDelta,
    second: CallDelta,
)
    requires
        delta_index(first) == delta_index(second),
        first.id is Some,
        first.name is Some,
        second.id is None,
        second.name is None,
        delta_index(first) >= s.len() || s[delta_index(first)].2.len() == 0,
    ensures
        ({
            let i = delta_index(first);
            let after = calls_after(s, seq![first, second]);
            after[i] == (text_of(first.id), text_of(first.name), text_of(first.arguments) + text_of(
                second.arguments,
            ))
        }),
{
    let i = delta_index(first);
    assert(seq![first, second].drop_last() =~= seq![first]);
    assert(seq![first].drop_last() =~= Seq::<CallDelta>::empty());
    assert(calls_after(s, Seq::<CallDelta>::empty()) == s);
    assert(calls_after(s, seq![first]) == call_step(s, first));
    let one = call_step(s, first);
    assert(calls_after(s, seq![first, second]) == call_step(one, second));
    let c = reaching(s, i)[i];
    assert(c.2.len() == 0);
    assert(c.2 + text_of(first.arguments) =~= text_of(first.arguments));
    assert(one[i] == (text_of(first.id), text_of(first.name), text_of(first.arguments)));
    assert(reaching(one, i) == one);
    let after = call_step(one, second);
    assert(after[i] == (one[i].0, one[i].1, one[i].2 + text_of(second.arguments)));
}

/// The payload that ends a stream.
pub open spec fn done_marker() -> Seq<char> {
    "[DONE]"@
}

/// Whether a stream payload is the `[DONE]` sentinel rather than a chunk.
pub fn is_done_marker(payload: &str) -> (r: bool)
    ensures
        r == (payload@ == done_marker()),
{
    str_eq(payload, "[DONE]")
}

/// A whole reply read back for the request made from `ctx` under `opts`:
/// the first choice as a completion and, when the forced call was realized by
/// constrained decoding, its content replaced by the call synthesized from it.
pub fn finish_completion(reply: OpenAiReply, ctx: &Context, opts: &CompleteOptions) -> (r: Result<
    Completion,
    crate::ai::ProviderError,
>)
    ensures
        (reply.choices@.len() == 0) == (r is Err),
        r matches Err(e) ==> e matches crate::ai::ProviderError::Parse(m) && m@
            == no_choices_message(),
        r matches Ok(c) ==> {
            &&& c.message.role == Role::Assistant
            &&& c.stop_reason == openai_finish(opt_string_view(reply.choices@[0].finish_reason))
            &&& c.usage == (Usage { input: reply.prompt_tokens, output: reply.completion_tokens })
            &&& match constrained(*ctx, *opts) {
                None => choice_content(reply.choices@[0], c.message.content@),
                Some((name, _)) => exists|read: Seq<ContentBlock>| {
                    &&& choice_content(reply.choices@[0], read)
                    &&& c.message.content@.len() == 1
                    &&& c.message.content@[0] matches ContentBlock::ToolCall { id, name: n, arguments }
                    &&& id@ == "constrained_"@ + name && n@ == name && args_parsed(first_text(read), arguments)
                },
            }
        },
{
    let ghost choice = if reply.choices@.len() > 0 { Some(reply.choices@[0]) } else { None };
    let mut completion = match reply.into_completion() {
        Ok(c) => c,
        Err(e) => {
            return Err(e);
        },
    };
    match constrained_schema(ctx, opts) {
        Some((name, _)) => {
            let ghost read = completion.message.content@;
            let content = synthesize_constrained_call(&completion.message.content, name.as_str());
            completion.message.content = content;
            assert(choice_content(choice.unwrap(), read));
        },
        None => {},
    }
    Ok(completion)
}

} // verus!
