//! Conversation content as every provider adapter sees it: typed content
//! blocks, messages, and the tools a model may call. Tool-call arguments and
//! tool schemas are JSON values, carried through as they are.

use vstd::prelude::*;

use crate::ai::{Role, StopReason, Usage};
use crate::json::copy_json;

verus! {

/// A JSON value, as `serde_json` holds it.
#[verifier::external_type_specification]
#[verifier::external_body]
pub struct ExJsonValue(serde_json::Value);

/// A single typed piece of message content.
#[derive(Debug, PartialEq)]
pub enum ContentBlock {
    Text { text: String },
    Thinking { thinking: String },
    ToolCall { id: String, name: String, arguments: serde_json::Value },
    ToolResult { tool_call_id: String, content: String, is_error: bool },
}

impl ContentBlock {
    /// A text block.
    pub fn text(text: String) -> (r: ContentBlock)
        ensures
            r == (ContentBlock::Text { text }),
    {
        ContentBlock::Text { text }
    }

    /// A successful tool result to feed back to the model.
    pub fn tool_result(tool_call_id: String, content: String) -> (r: ContentBlock)
        ensures
            r == (ContentBlock::ToolResult { tool_call_id, content, is_error: false }),
    {
        ContentBlock::ToolResult { tool_call_id, content, is_error: false }
    }

    /// An error tool result (such as a failed validation) to feed back to the
    /// model so it can retry.
    pub fn tool_error(tool_call_id: String, content: String) -> (r: ContentBlock)
        ensures
            r == (ContentBlock::ToolResult { tool_call_id, content, is_error: true }),
    {
        ContentBlock::ToolResult { tool_call_id, content, is_error: true }
    }
}

/// One turn of a conversation.
#[derive(Debug, PartialEq)]
pub struct Message {
    pub role: Role,
    pub content: Vec<ContentBlock>,
}

impl Message {
    /// A user turn holding one text block.
    pub fn user(text: String) -> (r: Message)
        ensures
            r.role == Role::User,
            r.content@ == seq![ContentBlock::Text { text }],
    {
        let mut content = Vec::new();
        content.push(ContentBlock::text(text));
        Message { role: Role::User, content }
    }

    /// An assistant turn holding one text block.
    pub fn assistant(text: String) -> (r: Message)
        ensures
            r.role == Role::Assistant,
            r.content@ == seq![ContentBlock::Text { text }],
    {
        let mut content = Vec::new();
        content.push(ContentBlock::text(text));
        Message { role: Role::Assistant, content }
    }
}

/// A tool the model may call: its name, what it does, and the JSON Schema of
/// its arguments.
#[derive(Debug, PartialEq)]
pub struct Tool {
    pub name: String,
    pub description: String,
    pub parameters: serde_json::Value,
}

/// Everything that goes into one request, whichever provider serves it.
#[derive(Debug)]
pub struct Context {
    pub system: Option<String>,
    pub messages: Vec<Message>,
    pub tools: Vec<Tool>,
}

impl Context {
    /// A context with a system prompt and messages and no tools.
    pub fn new(system: Option<String>, messages: Vec<Message>) -> (r: Context)
        ensures
            r.system == system,
            r.messages == messages,
            r.tools@.len() == 0,
    {
        Context { system, messages, tools: Vec::new() }
    }
}

/// A whole (non-streamed) reply.
#[derive(Debug, PartialEq)]
pub struct Completion {
    /// The assistant turn: text, thinking and tool calls.
    pub message: Message,
    pub stop_reason: StopReason,
    pub usage: Usage,
}

/// One event of a streamed reply. Events are not grouped by block: text and
/// tool-call deltas may interleave, and `content_index` tells them apart.
#[derive(Debug, PartialEq)]
pub enum StreamEvent {
    TextDelta { content_index: usize, delta: String },
    ThinkingDelta { content_index: usize, delta: String },
    ToolCallDelta {
        content_index: usize,
        id: Option<String>,
        name: Option<String>,
        arguments_delta: String,
    },
    /// The last event: the assembled message and the turn's usage.
    Done { stop_reason: StopReason, usage: Usage, message: Message },
}

/// A copy of a content block, equal to it.
pub fn copy_block(b: &ContentBlock) -> (r: ContentBlock)
    ensures
        r == *b,
{
    match b {
        ContentBlock::Text { text } => ContentBlock::Text { text: text.clone() },
        ContentBlock::Thinking { thinking } => ContentBlock::Thinking { thinking: thinking.clone() },
        ContentBlock::ToolCall { id, name, arguments } => ContentBlock::ToolCall {
            id: id.clone(),
            name: name.clone(),
            arguments: copy_json(arguments),
        },
        ContentBlock::ToolResult { tool_call_id, content, is_error } => ContentBlock::ToolResult {
            tool_call_id: tool_call_id.clone(),
            content: content.clone(),
            is_error: *is_error,
        },
    }
}

/// A copy of a message, equal to it block by block.
pub fn copy_message(m: &Message) -> (r: Message)
    ensures
        r.role == m.role,
        r.content@ == m.content@,
{
    let mut content: Vec<ContentBlock> = Vec::new();
    let mut i: usize = 0;
    while i < m.content.len()
        invariant
            i <= m.content@.len(),
            content@ == m.content@.subrange(0, i as int),
        decreases m.content.len() - i,
    {
        content.push(copy_block(&m.content[i]));
        i += 1;
    }
    Message { role: m.role, content }
}


// ---------------------------------------------------------------------------
// What a sequence of blocks carries, kind by kind
// ---------------------------------------------------------------------------

/// The texts of the text blocks among `s`, in order.
pub open spec fn text_parts(s: Seq<ContentBlock>) -> Seq<Seq<char>>
    decreases s.len(),
{
    if s.len() == 0 {
        Seq::empty()
    } else {
        match s.last() {
            ContentBlock::Text { text } => text_parts(s.drop_last()).push(text@),
            _ => text_parts(s.drop_last()),
        }
    }
}

/// The texts of the thinking blocks among `s`, in order.
pub open spec fn thinking_parts(s: Seq<ContentBlock>) -> Seq<Seq<char>>
    decreases s.len(),
{
    if s.len() == 0 {
        Seq::empty()
    } else {
        match s.last() {
            ContentBlock::Thinking { thinking } => thinking_parts(s.drop_last()).push(thinking@),
            _ => thinking_parts(s.drop_last()),
        }
    }
}

/// The id, tool name and arguments of the tool calls among `s`, in order.
pub open spec fn call_parts(s: Seq<ContentBlock>) -> Seq<(Seq<char>, Seq<char>, serde_json::Value)>
    decreases s.len(),
{
    if s.len() == 0 {
        Seq::empty()
    } else {
        match s.last() {
            ContentBlock::ToolCall { id, name, arguments } => call_parts(s.drop_last()).push(
                (id@, name@, arguments),
            ),
            _ => call_parts(s.drop_last()),
        }
    }
}

/// The call id, content and error flag of the tool results among `s`, in
/// order.
pub open spec fn result_parts(s: Seq<ContentBlock>) -> Seq<(Seq<char>, Seq<char>, bool)>
    decreases s.len(),
{
    if s.len() == 0 {
        Seq::empty()
    } else {
        match s.last() {
            ContentBlock::ToolResult { tool_call_id, content, is_error } => result_parts(
                s.drop_last(),
            ).push((tool_call_id@, content@, is_error)),
            _ => result_parts(s.drop_last()),
        }
    }
}

/// How many of `s` are not thinking blocks.
pub open spec fn unthought_count(s: Seq<ContentBlock>) -> nat
    decreases s.len(),
{
    if s.len() == 0 {
        0
    } else {
        match s.last() {
            ContentBlock::Thinking { .. } => unthought_count(s.drop_last()),
            _ => unthought_count(s.drop_last()) + 1,
        }
    }
}

} // verus!
