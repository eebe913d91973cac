//! Running a specialist: the agentic loop that drives a specialist against a
//! prompt, executing the tools it calls and feeding the results back until it
//! settles. The loop's decisions live here as a state machine; the caller
//! performs each model turn and each tool run and hands the outcome back.

use vstd::prelude::*;

use crate::ai::{Role, StopReason, Usage};
use crate::domain::Specialist;
use crate::message::{ContentBlock, Message};
use crate::script::ScriptRun;
use crate::json::{field_views, json_entries, json_entries_of, json_rendered, json_text, json_text_of, render_json};
use crate::names::{has_in, NameMap};
use crate::text::{owned, push_str};

verus! {

/// Cap on model turns, so a specialist that keeps calling tools without
/// settling on an answer stops instead of looping forever.
pub const MAX_TURNS: u32 = 16;

/// What a streamed turn that ends before its closing event fails with.
pub const STREAM_ENDED_EARLY: &'static str = "stream ended without a final event";

/// Progress reported as a run unfolds; borrowed data lives only for the
/// observer call.
#[derive(Debug)]
pub enum RunEvent<'a> {
    /// A chunk of assistant text as it streams.
    TextDelta(&'a str),
    /// A complete assistant text block.
    Text(&'a str),
    /// A chunk of thinking text as it streams.
    ThinkingDelta(&'a str),
    /// A complete thinking block.
    Thinking(&'a str),
    /// The stop reason of the turn that just completed, before its usage.
    TurnDone { stop_reason: StopReason },
    /// Token usage of the turn that just completed.
    Usage(Usage),
    /// A tool ran (perhaps exiting non-zero); carries its combined output.
    ToolRan { name: &'a str, output: &'a str, success: bool },
    /// A tool couldn't be executed; `message` is the error fed back.
    ToolFailed { name: &'a str, message: &'a str },
}

/// A tool call the model made, to be run by the caller.
#[derive(Debug)]
pub struct ToolCallRequest {
    pub id: String,
    pub name: String,
}

/// What follows a model turn.
#[derive(Debug)]
pub enum TurnStep {
    /// The model answered without calling tools, or a constrained
    /// specialist's single forced call was made: the run is over.
    Settled,
    /// Run these tool calls, in order, then report their results.
    RunTools(Vec<ToolCallRequest>),
}

/// What follows a round of tool results.
#[derive(Debug)]
pub enum AfterTools {
    /// The run is over (a constrained specialist's single call ran).
    Settled,
    /// Ask the model for another turn over [`SpecialistRun::history`].
    NextTurn,
    /// The turn budget is spent; the run fails with this message.
    GaveUp(String),
}

/// A run in progress: the conversation so far and the totals the run reports
/// when it settles.
pub struct SpecialistRun {
    pub specialist: String,
    /// A specialist without a constraint runs agentically, turn after turn; a
    /// constrained one makes a single forced call.
    pub agentic: bool,
    /// Whether turns are streamed (never when constrained decoding is on).
    pub stream: bool,
    pub history: Vec<Message>,
    pub turns: u32,
    pub input_tokens: u32,
    pub output_tokens: u32,
    pub last_stop: StopReason,
    /// The assistant turn whose tool calls are being run.
    pub pending: Option<Message>,
}

pub open spec fn gave_up_message(name: Seq<char>) -> Seq<char> {
    "specialist '"@ + name
        + "' did not finish within 16 turns.\n  It kept calling tools without settling on an answer \u{2014} inspect the tool outputs above, tighten its system prompt, or reduce the tools it can call."@
}

/// The tool calls among a message's blocks, by id and name, in order.
pub open spec fn calls_in(blocks: Seq<ContentBlock>) -> Seq<(Seq<char>, Seq<char>)>
    decreases blocks.len(),
{
    if blocks.len() == 0 {
        Seq::empty()
    } else {
        let r = calls_in(blocks.drop_last());
        match blocks.last() {
            ContentBlock::ToolCall { id, name, .. } => r.push((id@, name@)),
            _ => r,
        }
    }
}

pub open spec fn request_views(v: Seq<ToolCallRequest>) -> Seq<(Seq<char>, Seq<char>)> {
    v.map_values(|r: ToolCallRequest| (r.id@, r.name@))
}

impl SpecialistRun {
    /// Starts a run of `specialist` on `prompt`: the conversation opens with
    /// the prompt as a user turn.
    pub fn start(specialist: &Specialist, prompt: String, constrained_decoding: bool) -> (r: SpecialistRun)
        ensures
            r.specialist@ == specialist.name@,
            r.agentic == (specialist.constraint is None),
            r.stream == (specialist.stream && !constrained_decoding),
            r.history@.len() == 1,
            r.history@[0].role == Role::User,
            r.history@[0].content@ == seq![ContentBlock::Text { text: prompt }],
            r.turns == 0,
            r.input_tokens == 0,
            r.output_tokens == 0,
            r.last_stop == StopReason::Stop,
            r.pending is None,
    {
        let mut history = Vec::new();
        history.push(Message::user(prompt));
        SpecialistRun {
            specialist: specialist.name.clone(),
            agentic: specialist.constraint.is_none(),
            stream: specialist.stream && !constrained_decoding,
            history,
            turns: 0,
            input_tokens: 0,
            output_tokens: 0,
            last_stop: StopReason::Stop,
            pending: None,
        }
    }

    /// Takes a completed model turn: counts it and its tokens, and decides
    /// whether the run settles (no tool calls) or the calls must be run.
    pub fn turn_done(&mut self, message: Message, usage: Usage, stop_reason: StopReason) -> (r: TurnStep)
        requires
            old(self).turns < MAX_TURNS,
            old(self).input_tokens + usage.input <= u32::MAX,
            old(self).output_tokens + usage.output <= u32::MAX,
        ensures
            final(self).turns == old(self).turns + 1,
            final(self).input_tokens == old(self).input_tokens + usage.input,
            final(self).output_tokens == old(self).output_tokens + usage.output,
            final(self).last_stop == stop_reason,
            final(self).history == old(self).history,
            final(self).specialist == old(self).specialist,
            final(self).agentic == old(self).agentic,
            final(self).stream == old(self).stream,
            calls_in(message.content@).len() == 0 <==> r is Settled,
            r is Settled ==> final(self).pending is None,
            r matches TurnStep::RunTools(calls) ==> request_views(calls@) == calls_in(message.content@)
                && final(self).pending == Some(message),
    {
        self.turns = self.turns + 1;
        self.input_tokens = self.input_tokens + usage.input;
        self.output_tokens = self.output_tokens + usage.output;
        self.last_stop = stop_reason;
        let mut calls: Vec<ToolCallRequest> = Vec::new();
        let mut i: usize = 0;
        while i < message.content.len()
            invariant
                i <= message.content@.len(),
                request_views(calls@) == calls_in(message.content@.subrange(0, i as int)),
            decreases message.content.len() - i,
        {
            let ghost prefix = message.content@.subrange(0, i + 1);
            assert(prefix.drop_last() =~= message.content@.subrange(0, i as int));
            match &message.content[i] {
                ContentBlock::ToolCall { id, name, .. } => {
                    let ghost before = calls@;
                    calls.push(ToolCallRequest { id: id.clone(), name: name.clone() });
                    assert(request_views(calls@) =~= request_views(before).push((id@, name@)));
                },
                _ => {},
            }
            i += 1;
        }
        assert(message.content@.subrange(0, message.content@.len() as int) =~= message.content@);
        if calls.len() == 0 {
            self.pending = None;
            TurnStep::Settled
        } else {
            self.pending = Some(message);
            TurnStep::RunTools(calls)
        }
    }

    /// Takes the results of the tool calls, in call order. A constrained
    /// specialist settles after its single forced call; an agentic one feeds
    /// its turn and the results back for another turn — unless the turn
    /// budget is spent, which fails the run.
    pub fn tools_done(&mut self, results: Vec<ContentBlock>) -> (r: AfterTools)
        requires
            old(self).pending is Some,
        ensures
            final(self).turns == old(self).turns,
            final(self).input_tokens == old(self).input_tokens,
            final(self).output_tokens == old(self).output_tokens,
            final(self).last_stop == old(self).last_stop,
            final(self).pending is None,
            !old(self).agentic ==> r is Settled && final(self).history == old(self).history,
            old(self).agentic ==> {
                &&& final(self).history@.len() == old(self).history@.len() + 2
                &&& final(self).history@.subrange(0, old(self).history@.len() as int) == old(self).history@
                &&& final(self).history@[old(self).history@.len() as int] == old(self).pending.unwrap()
                &&& final(self).history@[old(self).history@.len() + 1int].role == Role::User
                &&& final(self).history@[old(self).history@.len() + 1int].content == results
                &&& if old(self).turns < MAX_TURNS {
                    r is NextTurn
                } else {
                    r matches AfterTools::GaveUp(m) && m@ == gave_up_message(old(self).specialist@)
                }
            },
    {
        let message = match self.pending.take() {
            Some(m) => m,
            None => {
                return AfterTools::Settled;
            },
        };
        if !self.agentic {
            return AfterTools::Settled;
        }
        self.history.push(message);
        self.history.push(Message { role: Role::User, content: results });
        if self.turns < MAX_TURNS {
            AfterTools::NextTurn
        } else {
            let mut m = owned("specialist '");
            push_str(&mut m, self.specialist.as_str());
            push_str(
                &mut m,
                "' did not finish within 16 turns.\n  It kept calling tools without settling on an answer \u{2014} inspect the tool outputs above, tighten its system prompt, or reduce the tools it can call.",
            );
            AfterTools::GaveUp(m)
        }
    }
}

// ---------------------------------------------------------------------------
// Tool outcomes
// ---------------------------------------------------------------------------

pub open spec fn unknown_tool_message(name: Seq<char>) -> Seq<char> {
    "unknown tool: "@ + name
}

pub open spec fn launch_failure_message(name: Seq<char>, path: Seq<char>, err: Seq<char>) -> Seq<char> {
    "tool '"@ + name + "' could not run its script "@ + path + ": "@ + err
        + "\n  Ensure it exists, is executable (chmod +x "@ + path
        + "), and has a shebang (e.g. #!/bin/sh)."@
}

/// The reply to a call of a tool the specialist doesn't have: an error result
/// for the model, and the message the observer is told.
pub fn unknown_tool_reply(id: String, name: &str) -> (r: (ContentBlock, String))
    ensures
        r.1@ == unknown_tool_message(name@),
        r.0 matches ContentBlock::ToolResult { tool_call_id, content, is_error } && tool_call_id == id
            && content@ == r.1@ && is_error,
{
    let mut m = owned("unknown tool: ");
    push_str(&mut m, name);
    let c = m.clone();
    (ContentBlock::tool_error(id, c), m)
}

/// The reply to a tool whose script ran: its output, as a result when it
/// succeeded and as an error when it exited non-zero.
pub fn script_reply(id: String, run: &ScriptRun) -> (r: ContentBlock)
    ensures
        r matches ContentBlock::ToolResult { tool_call_id, content, is_error } && tool_call_id == id
            && content@ == run.output@ && is_error == !run.success,
{
    if run.success {
        ContentBlock::tool_result(id, run.output.clone())
    } else {
        ContentBlock::tool_error(id, run.output.clone())
    }
}

/// The reply to a tool whose script couldn't be launched: an error result
/// naming the fix, and the message the observer is told.
pub fn launch_failure_reply(id: String, name: &str, path: &str, err: &str) -> (r: (ContentBlock, String))
    ensures
        r.1@ == launch_failure_message(name@, path@, err@),
        r.0 matches ContentBlock::ToolResult { tool_call_id, content, is_error } && tool_call_id == id
            && content@ == r.1@ && is_error,
{
    let mut m = owned("tool '");
    push_str(&mut m, name);
    push_str(&mut m, "' could not run its script ");
    push_str(&mut m, path);
    push_str(&mut m, ": ");
    push_str(&mut m, err);
    push_str(&mut m, "\n  Ensure it exists, is executable (chmod +x ");
    push_str(&mut m, path);
    push_str(&mut m, "), and has a shebang (e.g. #!/bin/sh).");
    let c = m.clone();
    (ContentBlock::tool_error(id, c), m)
}

// ---------------------------------------------------------------------------
// Tool arguments
// ---------------------------------------------------------------------------

/// The text a tool script receives for an argument: a string as it is, any
/// other value as its JSON text.
pub open spec fn var_value(v: serde_json::Value) -> Seq<char> {
    match json_text_of(v) {
        Some(t) => t,
        None => json_rendered(v),
    }
}

/// The variables of a map, by text.
pub open spec fn vars_view(m: NameMap<String>) -> Seq<(Seq<char>, Seq<char>)> {
    m@.map_values(|e: (Seq<char>, String)| (e.0, e.1@))
}

/// The variables a tool call's arguments pass to its script, one per
/// argument, named by the argument's key; arguments that are not an object
/// pass none.
pub fn args_to_vars(arguments: &serde_json::Value) -> (r: NameMap<String>)
    ensures
        match json_entries_of(*arguments) {
            Some(es) => vars_view(r) == es.map_values(
                |e: (Seq<char>, serde_json::Value)| (e.0, var_value(e.1)),
            ),
            None => r@.len() == 0,
        },
{
    let mut vars: NameMap<String> = NameMap::new();
    let entries = match json_entries(arguments) {
        Some(es) => es,
        None => {
            return vars;
        },
    };
    let ghost es = field_views(entries@);
    assert forall|a: int, b: int| 0 <= a < b < es.len() implies #[trigger] es[a].0 != #[trigger] es[b].0 by {
        assert(es[a].0 == entries@[a].0@);
        assert(es[b].0 == entries@[b].0@);
    }
    let mut i: usize = 0;
    while i < entries.len()
        invariant
            i <= entries@.len(),
            es == field_views(entries@),
            forall|a: int, b: int| 0 <= a < b < es.len() ==> #[trigger] es[a].0 != #[trigger] es[b].0,
            vars_view(vars) == es.subrange(0, i as int).map_values(
                |e: (Seq<char>, serde_json::Value)| (e.0, var_value(e.1)),
            ),
        decreases entries.len() - i,
    {
        let (key, value) = &entries[i];
        let text = match json_text(value) {
            Some(t) => t,
            None => render_json(value),
        };
        let ghost before = vars@;
        let ghost prev = es.subrange(0, i as int).map_values(
            |e: (Seq<char>, serde_json::Value)| (e.0, var_value(e.1)),
        );
        assert(before.map_values(|e: (Seq<char>, String)| (e.0, e.1@)) == prev);
        proof {
            assert(vars_view(vars).len() == vars@.len());
            assert(vars@.len() == i);
            assert(es[i as int] == (key@, *value));
            if has_in(before, key@) {
                let j = choose|j: int| 0 <= j < before.len() && #[trigger] before[j].0 == key@;
                assert(vars_view(vars)[j].0 == before[j].0);
                assert(es.subrange(0, i as int)[j].0 == es[j].0);
                assert(es[j].0 == es[i as int].0);
                assert(false);
            }
            assert(text@ == var_value(*value));
        }
        vars.insert(key.clone(), text);
        assert(vars@ == before.push((key@, text)));
        assert(vars_view(vars) =~= prev.push((key@, text@)));
        assert(es.subrange(0, i + 1).map_values(
            |e: (Seq<char>, serde_json::Value)| (e.0, var_value(e.1)),
        ) =~= prev.push((es[i as int].0, var_value(es[i as int].1))));
        assert(vars_view(vars) =~= es.subrange(0, i + 1).map_values(
            |e: (Seq<char>, serde_json::Value)| (e.0, var_value(e.1)),
        ));
        i += 1;
    }
    assert(es.subrange(0, es.len() as int) =~= es);
    vars
}

} // verus!
