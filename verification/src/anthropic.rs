//! The Anthropic Messages protocol (`anthropic-messages`): the unified request
//! lowered into a `/v1/messages` body, and the replies (whole or streamed)
//! read back into the unified types. Sending and receiving bytes is the
//! caller's part; every decision about what goes on the wire and what a reply
//! means is made here.

use vstd::prelude::*;

use crate::ai::{anthropic_stop, map_stop_reason, CompleteOptions, Model, Reasoning, Role, Usage};
use crate::domain::{clone_opt_string, opt_string_view};
use crate::json::{args_parsed, copy_json, parse_args};
use crate::message::{
    call_parts, result_parts, text_parts, thinking_parts, unthought_count, Completion, ContentBlock,
    Context, Message, StreamEvent, Tool,
};
use crate::text::{owned, push_str, str_eq};

verus! {

/// The version of the Messages API these requests are written against (the
/// `anthropic-version` header).
pub const API_VERSION: &'static str = "2023-06-01";

/// The adapter for the Anthropic Messages protocol. It holds no state: a
/// request body is made by [`build_request`], sent by the caller, and the reply
/// read back by [`AnthropicReply::into_completion`] or, when streamed, folded
/// event by event into a [`StreamAccumulator`].
#[derive(Clone, Copy, Debug, PartialEq, Eq, Structural)]
pub struct Anthropic;

// ---------------------------------------------------------------------------
// Requests
// ---------------------------------------------------------------------------

/// One content block of a request message, as the API spells it.
#[derive(Debug)]
pub enum AnthropicBlock {
    Text { text: String },
    ToolUse { id: String, name: String, input: serde_json::Value },
    ToolResult { tool_use_id: String, content: String, is_error: bool },
}

/// One request message.
#[derive(Debug)]
pub struct AnthropicMessage {
    pub role: String,
    pub content: Vec<AnthropicBlock>,
}

/// A tool offered to the model.
#[derive(Debug)]
pub struct AnthropicTool {
    pub name: String,
    pub description: String,
    pub input_schema: serde_json::Value,
}

/// A forced tool call (`tool_choice`).
#[derive(Debug)]
pub struct AnthropicToolChoice {
    pub kind: String,
    pub name: String,
}

/// A `/v1/messages` request body. `thinking` is the thinking mode's type and
/// `effort` the `output_config` effort; both are absent when reasoning is off.
#[derive(Debug)]
pub struct AnthropicRequest {
    pub model: String,
    pub max_tokens: u32,
    pub system: Option<String>,
    pub messages: Vec<AnthropicMessage>,
    pub tools: Vec<AnthropicTool>,
    pub tool_choice: Option<AnthropicToolChoice>,
    pub thinking: Option<String>,
    pub effort: Option<String>,
    pub stream: bool,
}

/// The wire name of a role.
pub open spec fn role_name(role: Role) -> Seq<char> {
    match role {
        Role::User => "user"@,
        Role::Assistant => "assistant"@,
    }
}

/// How a unified block is sent: thinking is not echoed back to the API.
pub open spec fn wire_block(b: ContentBlock) -> Option<AnthropicBlock> {
    match b {
        ContentBlock::Text { text } => Some(AnthropicBlock::Text { text }),
        ContentBlock::Thinking { .. } => None,
        ContentBlock::ToolCall { id, name, arguments } => Some(
            AnthropicBlock::ToolUse { id, name, input: arguments },
        ),
        ContentBlock::ToolResult { tool_call_id, content, is_error } => Some(
            AnthropicBlock::ToolResult { tool_use_id: tool_call_id, content, is_error },
        ),
    }
}

/// The blocks a message sends, in order.
pub open spec fn wire_blocks(s: Seq<ContentBlock>) -> Seq<AnthropicBlock>
    decreases s.len(),
{
    if s.len() == 0 {
        Seq::empty()
    } else {
        let r = wire_blocks(s.drop_last());
        match wire_block(s.last()) {
            Some(b) => r.push(b),
            None => r,
        }
    }
}

/// How a tool is offered.
pub open spec fn wire_tool(t: Tool) -> AnthropicTool {
    AnthropicTool { name: t.name, description: t.description, input_schema: t.parameters }
}

/// The effort a reasoning level asks for; none when reasoning is off.
pub open spec fn effort_of(level: Reasoning) -> Option<Seq<char>> {
    match level {
        Reasoning::Off => None,
        _ => Some(level.spec_name()),
    }
}

/// The texts of the text blocks a request sends, in order.
pub open spec fn sent_texts(w: Seq<AnthropicBlock>) -> Seq<Seq<char>>
    decreases w.len(),
{
    if w.len() == 0 {
        Seq::empty()
    } else {
        match w.last() {
            AnthropicBlock::Text { text } => sent_texts(w.drop_last()).push(text@),
            _ => sent_texts(w.drop_last()),
        }
    }
}

/// The id, tool name and input of the tool uses a request sends, in order.
pub open spec fn sent_calls(w: Seq<AnthropicBlock>) -> Seq<(Seq<char>, Seq<char>, serde_json::Value)>
    decreases w.len(),
{
    if w.len() == 0 {
        Seq::empty()
    } else {
        match w.last() {
            AnthropicBlock::ToolUse { id, name, input } => sent_calls(w.drop_last()).push(
                (id@, name@, input),
            ),
            _ => sent_calls(w.drop_last()),
        }
    }
}

/// The tool-use id, content and error flag of the tool results a request
/// sends, in order.
pub open spec fn sent_results(w: Seq<AnthropicBlock>) -> Seq<(Seq<char>, Seq<char>, bool)>
    decreases w.len(),
{
    if w.len() == 0 {
        Seq::empty()
    } else {
        match w.last() {
            AnthropicBlock::ToolResult { tool_use_id, content, is_error } => sent_results(
                w.drop_last(),
            ).push((tool_use_id@, content@, is_error)),
            _ => sent_results(w.drop_last()),
        }
    }
}

/// A request message carries everything of its unified message but its
/// thinking: every text, every tool call (same id, name and arguments) and
/// every tool result (same call id, content and error flag), each kind in its
/// order, and nothing else.
pub proof fn law_request_keeps_all_but_thinking(s: Seq<ContentBlock>)
    ensures
        sent_texts(wire_blocks(s)) == text_parts(s),
        sent_calls(wire_blocks(s)) == call_parts(s),
        sent_results(wire_blocks(s)) == result_parts(s),
        wire_blocks(s).len() == unthought_count(s),
    decreases s.len(),
{
    if s.len() > 0 {
        law_request_keeps_all_but_thinking(s.drop_last());
        let w = wire_blocks(s.drop_last());
        match wire_block(s.last()) {
            Some(b) => {
                assert(w.push(b).drop_last() =~= w);
            },
            None => {},
        }
    }
}

/// A message lowered for the API: its role, and its blocks without thinking.
pub fn to_wire_message(message: &Message) -> (r: AnthropicMessage)
    ensures
        r.role@ == role_name(message.role),
        r.content@ == wire_blocks(message.content@),
        sent_texts(r.content@) == text_parts(message.content@),
        sent_calls(r.content@) == call_parts(message.content@),
        sent_results(r.content@) == result_parts(message.content@),
        r.content@.len() == unthought_count(message.content@),
{
    proof {
        law_request_keeps_all_but_thinking(message.content@);
    }
    let role = match message.role {
        Role::User => owned("user"),
        Role::Assistant => owned("assistant"),
    };
    let mut content: Vec<AnthropicBlock> = Vec::new();
    let mut i: usize = 0;
    while i < message.content.len()
        invariant
            i <= message.content@.len(),
            content@ == wire_blocks(message.content@.subrange(0, i as int)),
        decreases message.content.len() - i,
    {
        assert(message.content@.subrange(0, i + 1).drop_last() =~= message.content@.subrange(
            0,
            i as int,
        ));
        match &message.content[i] {
            ContentBlock::Text { text } => {
                content.push(AnthropicBlock::Text { text: text.clone() });
            },
            ContentBlock::Thinking { .. } => {},
            ContentBlock::ToolCall { id, name, arguments } => {
                content.push(
                    AnthropicBlock::ToolUse {
                        id: id.clone(),
                        name: name.clone(),
                        input: copy_json(arguments),
                    },
                );
            },
            ContentBlock::ToolResult { tool_call_id, content: c, is_error } => {
                content.push(
                    AnthropicBlock::ToolResult {
                        tool_use_id: tool_call_id.clone(),
                        content: c.clone(),
                        is_error: *is_error,
                    },
                );
            },
        }
        i += 1;
    }
    assert(message.content@.subrange(0, message.content@.len() as int) =~= message.content@);
    AnthropicMessage { role, content }
}

/// The request body for `ctx` under `opts`: the system prompt at top level,
/// every message lowered, every tool offered, a forced tool as a `tool`
/// choice, and a reasoning level as adaptive thinking with that effort. The
/// output cap is the options' own, else the model's.
pub fn build_request(model: &Model, ctx: &Context, opts: &CompleteOptions, stream: bool) -> (r:
    AnthropicRequest)
    ensures
        r.model == model.id,
        r.max_tokens == (match opts.max_tokens {
            Some(n) => n,
            None => model.max_tokens,
        }),
        r.system == ctx.system,
        r.messages@.len() == ctx.messages@.len(),
        forall|i: int|
            0 <= i < ctx.messages@.len() ==> (#[trigger] r.messages@[i]).role@ == role_name(
                ctx.messages@[i].role,
            ) && r.messages@[i].content@ == wire_blocks(ctx.messages@[i].content@),
        forall|i: int|
            0 <= i < ctx.messages@.len() ==> sent_results((#[trigger] r.messages@[i]).content@)
                == result_parts(ctx.messages@[i].content@) && sent_texts(r.messages@[i].content@)
                == text_parts(ctx.messages@[i].content@) && sent_calls(r.messages@[i].content@)
                == call_parts(ctx.messages@[i].content@),
        r.tools@ == ctx.tools@.map_values(|t: Tool| wire_tool(t)),
        (r.tool_choice is Some) == (opts.tool_choice is Some),
        r.tool_choice matches Some(c) ==> c.kind@ == "tool"@ && opts.tool_choice == Some(c.name),
        (r.thinking is Some) == (opts.reasoning != Reasoning::Off),
        r.thinking matches Some(t) ==> t@ == "adaptive"@,
        opt_string_view(r.effort) == effort_of(opts.reasoning),
        r.stream == stream,
{
    let (thinking, effort) = match opts.reasoning {
        Reasoning::Off => (None, None),
        Reasoning::Low => (Some(owned("adaptive")), Some(owned("low"))),
        Reasoning::Medium => (Some(owned("adaptive")), Some(owned("medium"))),
        Reasoning::High => (Some(owned("adaptive")), Some(owned("high"))),
    };
    let mut messages: Vec<AnthropicMessage> = Vec::new();
    let mut i: usize = 0;
    while i < ctx.messages.len()
        invariant
            i <= ctx.messages@.len(),
            messages@.len() == i,
            forall|j: int|
                0 <= j < i ==> (#[trigger] messages@[j]).role@ == role_name(ctx.messages@[j].role)
                    && messages@[j].content@ == wire_blocks(ctx.messages@[j].content@),
            forall|j: int|
                0 <= j < i ==> sent_results((#[trigger] messages@[j]).content@) == result_parts(
                    ctx.messages@[j].content@,
                ) && sent_texts(messages@[j].content@) == text_parts(ctx.messages@[j].content@)
                    && sent_calls(messages@[j].content@) == call_parts(ctx.messages@[j].content@),
        decreases ctx.messages.len() - i,
    {
        messages.push(to_wire_message(&ctx.messages[i]));
        i += 1;
    }
    let mut tools: Vec<AnthropicTool> = Vec::new();
    let mut k: usize = 0;
    while k < ctx.tools.len()
        invariant
            k <= ctx.tools@.len(),
            tools@ == ctx.tools@.subrange(0, k as int).map_values(|t: Tool| wire_tool(t)),
        decreases ctx.tools.len() - k,
    {
        let t = &ctx.tools[k];
        tools.push(
            AnthropicTool {
                name: t.name.clone(),
                description: t.description.clone(),
                input_schema: copy_json(&t.parameters),
            },
        );
        assert(ctx.tools@.subrange(0, k + 1).map_values(|t: Tool| wire_tool(t)) =~= ctx.tools@.subrange(
            0,
            k as int,
        ).map_values(|t: Tool| wire_tool(t)).push(wire_tool(ctx.tools@[k as int])));
        k += 1;
    }
    assert(ctx.tools@.subrange(0, ctx.tools@.len() as int) =~= ctx.tools@);
    let tool_choice = match &opts.tool_choice {
        Some(name) => Some(AnthropicToolChoice { kind: owned("tool"), name: name.clone() }),
        None => None,
    };
    let max_tokens = match opts.max_tokens {
        Some(n) => n,
        None => model.max_tokens,
    };
    AnthropicRequest {
        model: model.id.clone(),
        max_tokens,
        system: clone_opt_string(&ctx.system),
        messages,
        tools,
        tool_choice,
        thinking,
        effort,
        stream,
    }
}

// ---------------------------------------------------------------------------
// Whole replies
// ---------------------------------------------------------------------------

/// One content block of a whole reply; a block of a type this crate does not
/// know reads as `Unknown` and is dropped.
#[derive(Debug)]
pub enum AnthropicReplyBlock {
    Text { text: String },
    Thinking { thinking: String },
    ToolUse { id: String, name: String, input: serde_json::Value },
    Unknown,
}

/// A whole `/v1/messages` reply.
#[derive(Debug)]
pub struct AnthropicReply {
    pub content: Vec<AnthropicReplyBlock>,
    pub stop_reason: Option<String>,
    pub input_tokens: u32,
    pub output_tokens: u32,
}

/// The unified block a reply block reads as.
pub open spec fn reply_block(b: AnthropicReplyBlock) -> Option<ContentBlock> {
    match b {
        AnthropicReplyBlock::Text { text } => Some(ContentBlock::Text { text }),
        AnthropicReplyBlock::Thinking { thinking } => Some(ContentBlock::Thinking { thinking }),
        AnthropicReplyBlock::ToolUse { id, name, input } => Some(
            ContentBlock::ToolCall { id, name, arguments: input },
        ),
        AnthropicReplyBlock::Unknown => None,
    }
}

/// The unified blocks of a reply, in order, unknown ones left out.
pub open spec fn reply_blocks(s: Seq<AnthropicReplyBlock>) -> Seq<ContentBlock>
    decreases s.len(),
{
    if s.len() == 0 {
        Seq::empty()
    } else {
        let r = reply_blocks(s.drop_last());
        match reply_block(s.last()) {
            Some(b) => r.push(b),
            None => r,
        }
    }
}

/// The texts of a reply's text blocks, in order.
pub open spec fn replied_texts(s: Seq<AnthropicReplyBlock>) -> Seq<Seq<char>>
    decreases s.len(),
{
    if s.len() == 0 {
        Seq::empty()
    } else {
        match s.last() {
            AnthropicReplyBlock::Text { text } => replied_texts(s.drop_last()).push(text@),
            _ => replied_texts(s.drop_last()),
        }
    }
}

/// The texts of a reply's thinking blocks, in order.
pub open spec fn replied_thinking(s: Seq<AnthropicReplyBlock>) -> Seq<Seq<char>>
    decreases s.len(),
{
    if s.len() == 0 {
        Seq::empty()
    } else {
        match s.last() {
            AnthropicReplyBlock::Thinking { thinking } => replied_thinking(s.drop_last()).push(thinking@),
            _ => replied_thinking(s.drop_last()),
        }
    }
}

/// The id, tool name and input of a reply's tool uses, in order.
pub open spec fn replied_calls(s: Seq<AnthropicReplyBlock>) -> Seq<(Seq<char>, Seq<char>, serde_json::Value)>
    decreases s.len(),
{
    if s.len() == 0 {
        Seq::empty()
    } else {
        match s.last() {
            AnthropicReplyBlock::ToolUse { id, name, input } => replied_calls(s.drop_last()).push(
                (id@, name@, input),
            ),
            _ => replied_calls(s.drop_last()),
        }
    }
}

/// How many of a reply's blocks are of a known type.
pub open spec fn known_count(s: Seq<AnthropicReplyBlock>) -> nat
    decreases s.len(),
{
    if s.len() == 0 {
        0
    } else {
        match s.last() {
            AnthropicReplyBlock::Unknown => known_count(s.drop_last()),
            _ => known_count(s.drop_last()) + 1,
        }
    }
}

/// A whole reply read back keeps every block of a known type: every text,
/// every thinking text and every tool use (same id, name and input), each
/// kind in its order; only blocks of unknown type are dropped, and no tool
/// result appears.
pub proof fn law_reply_keeps_every_known_block(s: Seq<AnthropicReplyBlock>)
    ensures
        text_parts(reply_blocks(s)) == replied_texts(s),
        thinking_parts(reply_blocks(s)) == replied_thinking(s),
        call_parts(reply_blocks(s)) == replied_calls(s),
        result_parts(reply_blocks(s)).len() == 0,
        reply_blocks(s).len() == known_count(s),
    decreases s.len(),
{
    if s.len() > 0 {
        law_reply_keeps_every_known_block(s.drop_last());
        let c = reply_blocks(s.drop_last());
        match reply_block(s.last()) {
            Some(b) => {
                assert(c.push(b).drop_last() =~= c);
            },
            None => {},
        }
    }
}

/// The view of an optional string as a borrowed `str`.
fn as_str_opt(o: &Option<String>) -> (r: Option<&str>)
    ensures
        crate::ai::opt_view(r) == opt_string_view(*o),
{
    match o {
        Some(s) => Some(s.as_str()),
        None => None,
    }
}

impl AnthropicReply {
    /// The reply as a unified completion: an assistant turn of its known
    /// blocks, its stop reason mapped, and its token counts.
    pub fn into_completion(self) -> (r: Completion)
        ensures
            r.message.role == Role::Assistant,
            r.message.content@ == reply_blocks(self.content@),
            text_parts(r.message.content@) == replied_texts(self.content@),
            thinking_parts(r.message.content@) == replied_thinking(self.content@),
            call_parts(r.message.content@) == replied_calls(self.content@),
            r.message.content@.len() == known_count(self.content@),
            r.stop_reason == anthropic_stop(opt_string_view(self.stop_reason)),
            r.usage == (Usage { input: self.input_tokens, output: self.output_tokens }),
    {
        proof {
            law_reply_keeps_every_known_block(self.content@);
        }
        let mut content: Vec<ContentBlock> = Vec::new();
        let mut i: usize = 0;
        while i < self.content.len()
            invariant
                i <= self.content@.len(),
                content@ == reply_blocks(self.content@.subrange(0, i as int)),
            decreases self.content.len() - i,
        {
            assert(self.content@.subrange(0, i + 1).drop_last() =~= self.content@.subrange(
                0,
                i as int,
            ));
            match &self.content[i] {
                AnthropicReplyBlock::Text { text } => {
                    content.push(ContentBlock::Text { text: text.clone() });
                },
                AnthropicReplyBlock::Thinking { thinking } => {
                    content.push(ContentBlock::Thinking { thinking: thinking.clone() });
                },
                AnthropicReplyBlock::ToolUse { id, name, input } => {
                    content.push(
                        ContentBlock::ToolCall {
                            id: id.clone(),
                            name: name.clone(),
                            arguments: copy_json(input),
                        },
                    );
                },
                AnthropicReplyBlock::Unknown => {},
            }
            i += 1;
        }
        assert(self.content@.subrange(0, self.content@.len() as int) =~= self.content@);
        let stop_reason = map_stop_reason(as_str_opt(&self.stop_reason));
        Completion {
            message: Message { role: Role::Assistant, content },
            stop_reason,
            usage: Usage { input: self.input_tokens, output: self.output_tokens },
        }
    }
}

// ---------------------------------------------------------------------------
// Streamed replies
// ---------------------------------------------------------------------------

/// One server-sent event of a streamed reply, by the fields this crate reads:
/// `kind` is the event's `type`, and each other field is read from where the
/// event carries it (`index`; `message.usage.input_tokens`; the
/// `content_block`'s `type`, `id` and `name`; the `delta`'s `type`, `text`,
/// `thinking`, `partial_json` and `stop_reason`; `usage.output_tokens`). A
/// field is `None` where the event lacks it or holds another JSON type there.
#[derive(Debug)]
pub struct AnthropicEvent {
    pub kind: Option<String>,
    pub index: Option<u64>,
    pub input_tokens: Option<u64>,
    pub block_type: Option<String>,
    pub block_id: Option<String>,
    pub block_name: Option<String>,
    pub delta_type: Option<String>,
    pub delta_text: Option<String>,
    pub delta_thinking: Option<String>,
    pub delta_partial_json: Option<String>,
    pub stop_reason: Option<String>,
    pub output_tokens: Option<u64>,
}

/// A content block being assembled from a stream.
#[derive(Debug)]
pub enum BlockBuild {
    Text(String),
    Thinking(String),
    ToolUse { id: String, name: String, args: String },
}

/// A block under assembly, by the text it holds so far.
pub enum BuildView {
    Text(Seq<char>),
    Thinking(Seq<char>),
    ToolUse(Seq<char>, Seq<char>, Seq<char>),
}

/// Which part of a block a delta extends.
#[derive(Clone, Copy, Debug, PartialEq, Eq, Structural)]
pub enum DeltaKind {
    Text,
    Thinking,
    Args,
}

pub open spec fn build_view(b: BlockBuild) -> BuildView {
    match b {
        BlockBuild::Text(t) => BuildView::Text(t@),
        BlockBuild::Thinking(t) => BuildView::Thinking(t@),
        BlockBuild::ToolUse { id, name, args } => BuildView::ToolUse(id@, name@, args@),
    }
}

pub open spec fn slot_view(o: Option<BlockBuild>) -> Option<BuildView> {
    match o {
        Some(b) => Some(build_view(b)),
        None => None,
    }
}

/// A stream in progress: the blocks started so far (by index; a gap holds
/// `None`), the token counts and the stop reason reported so far.
#[derive(Debug)]
pub struct StreamAccumulator {
    pub blocks: Vec<Option<BlockBuild>>,
    pub input_tokens: u32,
    pub output_tokens: u32,
    pub stop_reason: Option<String>,
}

/// A string field's text, or nothing when it is absent.
pub open spec fn or_empty(o: Option<String>) -> Seq<char> {
    match o {
        Some(s) => s@,
        None => Seq::empty(),
    }
}

/// The block index an event names (0 when it names none).
pub open spec fn event_index(ev: AnthropicEvent) -> int {
    match ev.index {
        Some(i) => (i as usize) as int,
        None => 0,
    }
}

/// The block a `content_block_start` event opens: text unless it says
/// thinking or tool use.
pub open spec fn started_block(ev: AnthropicEvent) -> BuildView {
    let t = opt_string_view(ev.block_type);
    if t == Some("thinking"@) {
        BuildView::Thinking(Seq::empty())
    } else if t == Some("tool_use"@) {
        BuildView::ToolUse(or_empty(ev.block_id), or_empty(ev.block_name), Seq::empty())
    } else {
        BuildView::Text(Seq::empty())
    }
}

/// Slot `i` set to `b`, the slots extended by empty ones as far as `i`.
pub open spec fn placed(s: Seq<Option<BuildView>>, i: int, b: BuildView) -> Seq<Option<BuildView>> {
    if i < s.len() {
        s.update(i, Some(b))
    } else {
        (s + Seq::new((i - s.len()) as nat, |j: int| None::<BuildView>)).push(Some(b))
    }
}

/// Slot `i` with `t` appended to the part `which` names, where slot `i` holds
/// a block of the matching kind; otherwise the slots as they were.
pub open spec fn grown(s: Seq<Option<BuildView>>, i: int, t: Seq<char>, which: DeltaKind) -> Seq<
    Option<BuildView>,
> {
    if 0 <= i < s.len() {
        match (which, s[i]) {
            (DeltaKind::Text, Some(BuildView::Text(x))) => s.update(i, Some(BuildView::Text(x + t))),
            (DeltaKind::Thinking, Some(BuildView::Thinking(x))) => s.update(
                i,
                Some(BuildView::Thinking(x + t)),
            ),
            (DeltaKind::Args, Some(BuildView::ToolUse(id, name, a))) => s.update(
                i,
                Some(BuildView::ToolUse(id, name, a + t)),
            ),
            _ => s,
        }
    } else {
        s
    }
}

/// The blocks present among the slots, in index order.
pub open spec fn present(s: Seq<Option<BuildView>>) -> Seq<BuildView>
    decreases s.len(),
{
    if s.len() == 0 {
        Seq::empty()
    } else {
        let r = present(s.drop_last());
        match s.last() {
            Some(b) => r.push(b),
            None => r,
        }
    }
}

/// `b` is the finished form of the assembled block `v`; a tool call's
/// arguments are its accumulated text read as JSON.
pub open spec fn finished_block(v: BuildView, b: ContentBlock) -> bool {
    match v {
        BuildView::Text(t) => b matches ContentBlock::Text { text } && text@ == t,
        BuildView::Thinking(t) => b matches ContentBlock::Thinking { thinking } && thinking@ == t,
        BuildView::ToolUse(id, name, args) => b matches ContentBlock::ToolCall {
            id: i,
            name: n,
            arguments,
        } && i@ == id && n@ == name && args_parsed(args, arguments),
    }
}

/// `content` is the slots' present blocks, each finished.
pub open spec fn assembled(s: Seq<Option<BuildView>>, content: Seq<ContentBlock>) -> bool {
    &&& content.len() == present(s).len()
    &&& forall|j: int|
        0 <= j < content.len() ==> #[trigger] finished_block(present(s)[j], content[j])
}

/// The closing event of a stream with these slots, counts and stop reason.
pub open spec fn done_event(
    s: Seq<Option<BuildView>>,
    input: u32,
    output: u32,
    stop: Option<Seq<char>>,
    e: StreamEvent,
) -> bool {
    e matches StreamEvent::Done { stop_reason, usage, message } && stop_reason == anthropic_stop(
        stop,
    ) && usage == (Usage { input, output }) && message.role == Role::Assistant && assembled(
        s,
        message.content@,
    )
}

/// How a `content_block_delta` event moves the slots, and what it reports.
pub open spec fn delta_handled(
    s: Seq<Option<BuildView>>,
    ev: AnthropicEvent,
    t: Seq<Option<BuildView>>,
    r: Option<StreamEvent>,
) -> bool {
    let d = opt_string_view(ev.delta_type);
    let i = event_index(ev);
    if d == Some("text_delta"@) {
        let x = or_empty(ev.delta_text);
        &&& t == grown(s, i, x, DeltaKind::Text)
        &&& r matches Some(StreamEvent::TextDelta { content_index, delta })
        &&& content_index == i && delta@ == x
    } else if d == Some("thinking_delta"@) {
        let x = or_empty(ev.delta_thinking);
        &&& t == grown(s, i, x, DeltaKind::Thinking)
        &&& r matches Some(StreamEvent::ThinkingDelta { content_index, delta })
        &&& content_index == i && delta@ == x
    } else if d == Some("input_json_delta"@) {
        let x = or_empty(ev.delta_partial_json);
        &&& t == grown(s, i, x, DeltaKind::Args)
        &&& r matches Some(StreamEvent::ToolCallDelta { content_index, id, name, arguments_delta })
        &&& content_index == i && id is None && name is None && arguments_delta@ == x
    } else {
        t == s && r is None
    }
}

impl StreamAccumulator {
    /// The slots, by the text each block holds.
    pub open spec fn slots(self) -> Seq<Option<BuildView>> {
        self.blocks@.map_values(|o: Option<BlockBuild>| slot_view(o))
    }

    /// The counts and stop reason of `self` and `other` agree.
    pub open spec fn same_counts(self, other: StreamAccumulator) -> bool {
        &&& self.input_tokens == other.input_tokens
        &&& self.output_tokens == other.output_tokens
        &&& self.stop_reason == other.stop_reason
    }

    /// What handling `ev` does to the stream `old`, giving `new`, and what it
    /// reports.
    pub open spec fn handled(old: StreamAccumulator, ev: AnthropicEvent, new: StreamAccumulator, r: Option<
        StreamEvent,
    >) -> bool {
        let k = opt_string_view(ev.kind);
        let i = event_index(ev);
        if k == Some("message_start"@) {
            &&& r is None
            &&& new.slots() == old.slots()
            &&& new.input_tokens == (match ev.input_tokens {
                Some(n) => n as u32,
                None => 0u32,
            })
            &&& new.output_tokens == old.output_tokens
            &&& new.stop_reason == old.stop_reason
        } else if k == Some("content_block_start"@) {
            &&& r is None
            &&& new.slots() == placed(old.slots(), i, started_block(ev))
            &&& new.same_counts(old)
        } else if k == Some("content_block_delta"@) {
            &&& new.same_counts(old)
            &&& delta_handled(old.slots(), ev, new.slots(), r)
        } else if k == Some("message_delta"@) {
            &&& r is None
            &&& new.slots() == old.slots()
            &&& new.input_tokens == old.input_tokens
            &&& new.stop_reason == (if ev.stop_reason is Some {
                ev.stop_reason
            } else {
                old.stop_reason
            })
            &&& new.output_tokens == (match ev.output_tokens {
                Some(n) => n as u32,
                None => old.output_tokens,
            })
        } else if k == Some("message_stop"@) {
            &&& r matches Some(e) && done_event(
                old.slots(),
                old.input_tokens,
                old.output_tokens,
                opt_string_view(old.stop_reason),
                e,
            )
            &&& new.slots().len() == 0
            &&& new.same_counts(old)
        } else {
            r is None && new == old
        }
    }

    /// A stream before its first event.
    pub fn new() -> (r: StreamAccumulator)
        ensures
            r.blocks@.len() == 0,
            r.input_tokens == 0,
            r.output_tokens == 0,
            r.stop_reason is None,
    {
        StreamAccumulator { blocks: Vec::new(), input_tokens: 0, output_tokens: 0, stop_reason: None }
    }

    /// Folds one event into the stream; a delta is reported as it comes, and
    /// `message_stop` closes the stream with the assembled message.
    pub fn handle(&mut self, ev: &AnthropicEvent) -> (r: Option<StreamEvent>)
        requires
            opt_string_view(ev.kind) == Some("content_block_start"@) ==> event_index(*ev)
                < usize::MAX,
        ensures
            StreamAccumulator::handled(*old(self), *ev, *final(self), r),
    {
        let kind = match &ev.kind {
            Some(k) => k.as_str(),
            None => {
                return None;
            },
        };
        let index: usize = match ev.index {
            Some(i) => #[verifier::truncate] (i as usize),
            None => 0,
        };
        if str_eq(kind, "message_start") {
            self.input_tokens = match ev.input_tokens {
                Some(n) => #[verifier::truncate] (n as u32),
                None => 0,
            };
            None
        } else if str_eq(kind, "content_block_start") {
            let build = if opt_is(&ev.block_type, "thinking") {
                BlockBuild::Thinking(String::new())
            } else if opt_is(&ev.block_type, "tool_use") {
                BlockBuild::ToolUse {
                    id: text_or_empty(&ev.block_id),
                    name: text_or_empty(&ev.block_name),
                    args: String::new(),
                }
            } else {
                BlockBuild::Text(String::new())
            };
            self.set_block(index, build);
            None
        } else if str_eq(kind, "content_block_delta") {
            if opt_is(&ev.delta_type, "text_delta") {
                let text = text_or_empty(&ev.delta_text);
                self.grow(index, text.as_str(), DeltaKind::Text);
                Some(StreamEvent::TextDelta { content_index: index, delta: text })
            } else if opt_is(&ev.delta_type, "thinking_delta") {
                let text = text_or_empty(&ev.delta_thinking);
                self.grow(index, text.as_str(), DeltaKind::Thinking);
                Some(StreamEvent::ThinkingDelta { content_index: index, delta: text })
            } else if opt_is(&ev.delta_type, "input_json_delta") {
                let partial = text_or_empty(&ev.delta_partial_json);
                self.grow(index, partial.as_str(), DeltaKind::Args);
                Some(
                    StreamEvent::ToolCallDelta {
                        content_index: index,
                        id: None,
                        name: None,
                        arguments_delta: partial,
                    },
                )
            } else {
                None
            }
        } else if str_eq(kind, "message_delta") {
            match &ev.stop_reason {
                Some(reason) => {
                    self.stop_reason = Some(reason.clone());
                },
                None => {},
            }
            match ev.output_tokens {
                Some(n) => {
                    self.output_tokens = #[verifier::truncate] (n as u32);
                },
                None => {},
            }
            None
        } else if str_eq(kind, "message_stop") {
            Some(self.finish())
        } else {
            None
        }
    }

    /// Opens block `index` as `build`, extending the slots with empty ones as
    /// far as `index`.
    fn set_block(&mut self, index: usize, build: BlockBuild)
        requires
            index < usize::MAX,
        ensures
            final(self).slots() == placed(old(self).slots(), index as int, build_view(build)),
            final(self).same_counts(*old(self)),
    {
        let ghost n0 = old(self).blocks@.len();
        while self.blocks.len() <= index
            invariant
                index < usize::MAX,
                n0 == old(self).blocks@.len(),
                n0 <= self.blocks@.len(),
                n0 < index + 1 ==> self.blocks@.len() <= index + 1,
                n0 >= index + 1 ==> self.blocks@.len() == n0,
                self.blocks@ == old(self).blocks@ + Seq::new(
                    (self.blocks@.len() - n0) as nat,
                    |j: int| None::<BlockBuild>,
                ),
                self.same_counts(*old(self)),
            decreases index + 1 - self.blocks@.len(),
        {
            self.blocks.push(None);
            assert(self.blocks@ =~= old(self).blocks@ + Seq::new(
                (self.blocks@.len() - n0) as nat,
                |j: int| None::<BlockBuild>,
            ));
        }
        self.blocks.set(index, Some(build));
        proof {
            let s0 = old(self).slots();
            if (index as int) < s0.len() {
                assert(self.slots() =~= s0.update(index as int, Some(build_view(build))));
            } else {
                assert(self.slots() =~= (s0 + Seq::new(
                    (index - s0.len()) as nat,
                    |j: int| None::<BuildView>,
                )).push(Some(build_view(build))));
            }
        }
    }

    /// Appends `t` to the part `which` names of block `index`, when that block
    /// is of the matching kind.
    fn grow(&mut self, index: usize, t: &str, which: DeltaKind)
        ensures
            final(self).slots() == grown(old(self).slots(), index as int, t@, which),
            final(self).same_counts(*old(self)),
    {
        if index >= self.blocks.len() {
            return;
        }
        let mut slot: Option<BlockBuild> = None;
        self.blocks.set_and_swap(index, &mut slot);
        let next = match (which, slot) {
            (DeltaKind::Text, Some(BlockBuild::Text(s))) => {
                let mut s = s;
                push_str(&mut s, t);
                Some(BlockBuild::Text(s))
            },
            (DeltaKind::Thinking, Some(BlockBuild::Thinking(s))) => {
                let mut s = s;
                push_str(&mut s, t);
                Some(BlockBuild::Thinking(s))
            },
            (DeltaKind::Args, Some(BlockBuild::ToolUse { id, name, args })) => {
                let mut args = args;
                push_str(&mut args, t);
                Some(BlockBuild::ToolUse { id, name, args })
            },
            (_, other) => other,
        };
        self.blocks.set(index, next);
        assert(self.slots() =~= grown(old(self).slots(), index as int, t@, which));
    }

    /// Closes the stream: the present blocks, in index order, finished into
    /// an assistant message, with the stop reason and counts so far. The slots
    /// are emptied.
    pub fn finish(&mut self) -> (r: StreamEvent)
        ensures
            done_event(
                old(self).slots(),
                old(self).input_tokens,
                old(self).output_tokens,
                opt_string_view(old(self).stop_reason),
                r,
            ),
            final(self).slots().len() == 0,
            final(self).same_counts(*old(self)),
    {
        let ghost s = self.slots();
        let mut content: Vec<ContentBlock> = Vec::new();
        let mut i: usize = 0;
        while i < self.blocks.len()
            invariant
                s == self.slots(),
                i <= self.blocks@.len(),
                assembled(s.subrange(0, i as int), content@),
            decreases self.blocks.len() - i,
        {
            let ghost before = content@;
            assert(s.subrange(0, i + 1).drop_last() =~= s.subrange(0, i as int));
            match &self.blocks[i] {
                Some(BlockBuild::Text(t)) => {
                    content.push(ContentBlock::Text { text: t.clone() });
                },
                Some(BlockBuild::Thinking(t)) => {
                    content.push(ContentBlock::Thinking { thinking: t.clone() });
                },
                Some(BlockBuild::ToolUse { id, name, args }) => {
                    let arguments = parse_args(args.as_str());
                    content.push(ContentBlock::ToolCall { id: id.clone(), name: name.clone(), arguments });
                },
                None => {},
            }
            assert forall|j: int| 0 <= j < content@.len() implies #[trigger] finished_block(
                present(s.subrange(0, i + 1))[j],
                content@[j],
            ) by {
                if j < before.len() {
                    assert(finished_block(present(s.subrange(0, i as int))[j], before[j]));
                }
            }
            i += 1;
        }
        assert(s.subrange(0, s.len() as int) =~= s);
        self.blocks = Vec::new();
        assert(self.slots() =~= Seq::<Option<BuildView>>::empty());
        let stop_reason = map_stop_reason(as_str_opt(&self.stop_reason));
        StreamEvent::Done {
            stop_reason,
            usage: Usage { input: self.input_tokens, output: self.output_tokens },
            message: Message { role: Role::Assistant, content },
        }
    }
}

impl Default for StreamAccumulator {
    fn default() -> (r: StreamAccumulator)
        ensures
            r.blocks@.len() == 0,
            r.input_tokens == 0,
            r.output_tokens == 0,
            r.stop_reason is None,
    {
        StreamAccumulator::new()
    }
}

/// Whether an optional string field holds exactly `lit`.
fn opt_is(o: &Option<String>, lit: &str) -> (r: bool)
    ensures
        r == (opt_string_view(*o) == Some(lit@)),
{
    match o {
        Some(s) => str_eq(s.as_str(), lit),
        None => false,
    }
}

/// An optional string field's text, or the empty string.
fn text_or_empty(o: &Option<String>) -> (r: String)
    ensures
        r@ == or_empty(*o),
{
    match o {
        Some(s) => s.clone(),
        None => String::new(),
    }
}

// ---------------------------------------------------------------------------
// Endpoint and key
// ---------------------------------------------------------------------------

/// The messages endpoint under a base URL.
pub fn messages_url(base_url: &str) -> (r: String)
    ensures
        r@ == base_url@ + "/v1/messages"@,
{
    let mut r = owned(base_url);
    push_str(&mut r, "/v1/messages");
    r
}

pub open spec fn missing_key_message(provider: Seq<char>) -> Seq<char> {
    "missing API key for "@ + provider + ": set ANTHROPIC_API_KEY or pass CompleteOptions::api_key"@
}

/// The API key to send: the explicit one, else the one the environment
/// holds (`ANTHROPIC_API_KEY`); with neither, a configuration error naming
/// the provider and both remedies.
pub fn api_key(provider: &str, explicit: &Option<String>, from_env: Option<String>) -> (r: Result<
    String,
    crate::ai::ProviderError,
>)
    ensures
        *explicit matches Some(k) ==> r == Ok::<String, crate::ai::ProviderError>(k),
        explicit is None ==> match from_env {
            Some(k) => r == Ok::<String, crate::ai::ProviderError>(k),
            None => r matches Err(crate::ai::ProviderError::Config(m)) && m@ == missing_key_message(
                provider@,
            ),
        },
{
    match explicit {
        Some(k) => Ok(k.clone()),
        None => match from_env {
            Some(k) => Ok(k),
            None => {
                let mut m = owned("missing API key for ");
                push_str(&mut m, provider);
                push_str(&mut m, ": set ANTHROPIC_API_KEY or pass CompleteOptions::api_key");
                Err(crate::ai::ProviderError::Config(m))
            },
        },
    }
}

/// Deltas extend the block they name, in the order they arrive: a text block
/// opened at index `i` and then given the text deltas `x` and `y` holds
/// `x + y`, and every other slot is as before.
pub proof fn law_text_deltas_accumulate(s: Seq<Option<BuildView>>, i: int, x: Seq<char>, y: Seq<char>)
    requires
        0 <= i,
    ensures
        ({
            let opened = placed(s, i, BuildView::Text(Seq::empty()));
            let after = grown(grown(opened, i, x, DeltaKind::Text), i, y, DeltaKind::Text);
            &&& after[i] == Some(BuildView::Text(x + y))
            &&& after.len() == opened.len()
            &&& forall|j: int| 0 <= j < after.len() && j != i ==> after[j] == opened[j]
        }),
{
    let opened = placed(s, i, BuildView::Text(Seq::empty()));
    assert(opened[i] == Some(BuildView::Text(Seq::<char>::empty())));
    assert(Seq::<char>::empty() + x =~= x);
}

} // verus!
