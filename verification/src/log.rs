//! Structured run logging: each event is a JSON object carrying `event`, the
//! workflow it belongs to (`wf`) and its own fields. The front end's sink adds
//! the two fields it owns — `ts`, the time of emission, and `run`, fixed per
//! invocation — and writes one NDJSON line per event.

use vstd::prelude::*;

use crate::ai::StopReason;
use crate::clock::{rfc3339_millis, rfc3339_text};
use crate::json::{
    json_bool, json_bool_value, json_i64, json_i64_value, json_insert, json_inserted, json_null,
    json_null_value, json_object, json_object_of, json_string, json_string_value, json_u64,
    json_u64_value, field_views,
};
use crate::text::owned;

verus! {

/// A text field that may be absent: the string, or null.
pub open spec fn opt_text_json(o: Option<Seq<char>>) -> serde_json::Value {
    match o {
        Some(s) => json_string_value(s),
        None => json_null_value(),
    }
}

pub open spec fn opt_str_view(o: Option<&str>) -> Option<Seq<char>> {
    match o {
        Some(s) => Some(s@),
        None => None,
    }
}

fn opt_text(o: Option<&str>) -> (r: serde_json::Value)
    ensures
        r == opt_text_json(opt_str_view(o)),
{
    match o {
        Some(s) => json_string(owned(s)),
        None => json_null(),
    }
}

fn text(s: &str) -> (r: serde_json::Value)
    ensures
        r == json_string_value(s@),
{
    json_string(owned(s))
}

/// A field of an event.
fn field(key: &str, value: serde_json::Value) -> (r: (String, serde_json::Value))
    ensures
        r.0@ == key@,
        r.1 == value,
{
    (owned(key), value)
}

/// The `event` field naming an event.
pub open spec fn named(name: Seq<char>) -> (Seq<char>, serde_json::Value) {
    ("event"@, json_string_value(name))
}

/// An exit code that may be absent: the number, or null.
pub open spec fn opt_code_json(o: Option<i32>) -> serde_json::Value {
    match o {
        Some(c) => json_i64_value(c as i64),
        None => json_null_value(),
    }
}

/// A workflow run began, with its inputs.
pub fn workflow_start(wf: &str, inputs: &serde_json::Value) -> (r: serde_json::Value)
    ensures
        r == json_object_of(
            seq![named("workflow.start"@), ("wf"@, json_string_value(wf@)), ("inputs"@, *inputs)],
        ),
{
    let mut f: Vec<(String, serde_json::Value)> = Vec::new();
    f.push(field("event", text("workflow.start")));
    f.push(field("wf", text(wf)));
    f.push(field("inputs", crate::json::copy_json(inputs)));
    assert(field_views(f@) =~= seq![
        named("workflow.start"@),
        ("wf"@, json_string_value(wf@)),
        ("inputs"@, *inputs),
    ]);
    json_object(f)
}

/// A workflow run finished after `elapsed_ms`.
pub fn workflow_done(wf: &str, elapsed_ms: u64) -> (r: serde_json::Value)
    ensures
        r == json_object_of(
            seq![
                named("workflow.done"@),
                ("wf"@, json_string_value(wf@)),
                ("elapsed_ms"@, json_u64_value(elapsed_ms)),
            ],
        ),
{
    let mut f: Vec<(String, serde_json::Value)> = Vec::new();
    f.push(field("event", text("workflow.done")));
    f.push(field("wf", text(wf)));
    f.push(field("elapsed_ms", json_u64(elapsed_ms)));
    assert(field_views(f@) =~= seq![
        named("workflow.done"@),
        ("wf"@, json_string_value(wf@)),
        ("elapsed_ms"@, json_u64_value(elapsed_ms)),
    ]);
    json_object(f)
}

/// A workflow run failed after `elapsed_ms`.
pub fn workflow_error(wf: &str, elapsed_ms: u64, error: &str) -> (r: serde_json::Value)
    ensures
        r == json_object_of(
            seq![
                named("workflow.error"@),
                ("wf"@, json_string_value(wf@)),
                ("elapsed_ms"@, json_u64_value(elapsed_ms)),
                ("error"@, json_string_value(error@)),
            ],
        ),
{
    let mut f: Vec<(String, serde_json::Value)> = Vec::new();
    f.push(field("event", text("workflow.error")));
    f.push(field("wf", text(wf)));
    f.push(field("elapsed_ms", json_u64(elapsed_ms)));
    f.push(field("error", text(error)));
    assert(field_views(f@) =~= seq![
        named("workflow.error"@),
        ("wf"@, json_string_value(wf@)),
        ("elapsed_ms"@, json_u64_value(elapsed_ms)),
        ("error"@, json_string_value(error@)),
    ]);
    json_object(f)
}

/// A specialist was invoked; `wf` and `stmt` are null for a bare run.
pub fn specialist_start(
    wf: Option<&str>,
    stmt: Option<&str>,
    specialist: &str,
    model: &str,
    prompt: &str,
) -> (r: serde_json::Value)
    ensures
        r == json_object_of(
            seq![
                named("specialist.start"@),
                ("wf"@, opt_text_json(opt_str_view(wf))),
                ("stmt"@, opt_text_json(opt_str_view(stmt))),
                ("specialist"@, json_string_value(specialist@)),
                ("model"@, json_string_value(model@)),
                ("prompt"@, json_string_value(prompt@)),
            ],
        ),
{
    let mut f: Vec<(String, serde_json::Value)> = Vec::new();
    f.push(field("event", text("specialist.start")));
    f.push(field("wf", opt_text(wf)));
    f.push(field("stmt", opt_text(stmt)));
    f.push(field("specialist", text(specialist)));
    f.push(field("model", text(model)));
    f.push(field("prompt", text(prompt)));
    assert(field_views(f@) =~= seq![
        named("specialist.start"@),
        ("wf"@, opt_text_json(opt_str_view(wf))),
        ("stmt"@, opt_text_json(opt_str_view(stmt))),
        ("specialist"@, json_string_value(specialist@)),
        ("model"@, json_string_value(model@)),
        ("prompt"@, json_string_value(prompt@)),
    ]);
    json_object(f)
}

/// A specialist settled: how it stopped, over how many turns, the tokens it
/// used in all, and how long it took.
pub fn specialist_done(
    wf: Option<&str>,
    stmt: Option<&str>,
    specialist: &str,
    stop_reason: StopReason,
    turns: u32,
    input_tokens: u32,
    output_tokens: u32,
    elapsed_ms: u64,
) -> (r: serde_json::Value)
    ensures
        r == json_object_of(
            seq![
                named("specialist.done"@),
                ("wf"@, opt_text_json(opt_str_view(wf))),
                ("stmt"@, opt_text_json(opt_str_view(stmt))),
                ("specialist"@, json_string_value(specialist@)),
                ("stop_reason"@, json_string_value(stop_reason.spec_name())),
                ("turns"@, json_u64_value(turns as u64)),
                ("input_tokens"@, json_u64_value(input_tokens as u64)),
                ("output_tokens"@, json_u64_value(output_tokens as u64)),
                ("elapsed_ms"@, json_u64_value(elapsed_ms)),
            ],
        ),
{
    let mut f: Vec<(String, serde_json::Value)> = Vec::new();
    f.push(field("event", text("specialist.done")));
    f.push(field("wf", opt_text(wf)));
    f.push(field("stmt", opt_text(stmt)));
    f.push(field("specialist", text(specialist)));
    f.push(field("stop_reason", json_string(stop_reason.name())));
    f.push(field("turns", json_u64(turns as u64)));
    f.push(field("input_tokens", json_u64(input_tokens as u64)));
    f.push(field("output_tokens", json_u64(output_tokens as u64)));
    f.push(field("elapsed_ms", json_u64(elapsed_ms)));
    assert(field_views(f@) =~= seq![
        named("specialist.done"@),
        ("wf"@, opt_text_json(opt_str_view(wf))),
        ("stmt"@, opt_text_json(opt_str_view(stmt))),
        ("specialist"@, json_string_value(specialist@)),
        ("stop_reason"@, json_string_value(stop_reason.spec_name())),
        ("turns"@, json_u64_value(turns as u64)),
        ("input_tokens"@, json_u64_value(input_tokens as u64)),
        ("output_tokens"@, json_u64_value(output_tokens as u64)),
        ("elapsed_ms"@, json_u64_value(elapsed_ms)),
    ]);
    json_object(f)
}

/// A tool was called, with its arguments; `specialist` is null for a call a
/// workflow makes itself.
pub fn tool_call(
    wf: Option<&str>,
    stmt: Option<&str>,
    specialist: Option<&str>,
    tool: &str,
    args: &serde_json::Value,
) -> (r: serde_json::Value)
    ensures
        r == json_object_of(
            seq![
                named("tool.call"@),
                ("wf"@, opt_text_json(opt_str_view(wf))),
                ("stmt"@, opt_text_json(opt_str_view(stmt))),
                ("specialist"@, opt_text_json(opt_str_view(specialist))),
                ("tool"@, json_string_value(tool@)),
                ("args"@, *args),
            ],
        ),
{
    let mut f: Vec<(String, serde_json::Value)> = Vec::new();
    f.push(field("event", text("tool.call")));
    f.push(field("wf", opt_text(wf)));
    f.push(field("stmt", opt_text(stmt)));
    f.push(field("specialist", opt_text(specialist)));
    f.push(field("tool", text(tool)));
    f.push(field("args", crate::json::copy_json(args)));
    assert(field_views(f@) =~= seq![
        named("tool.call"@),
        ("wf"@, opt_text_json(opt_str_view(wf))),
        ("stmt"@, opt_text_json(opt_str_view(stmt))),
        ("specialist"@, opt_text_json(opt_str_view(specialist))),
        ("tool"@, json_string_value(tool@)),
        ("args"@, *args),
    ]);
    json_object(f)
}

/// A tool call ended: whether it succeeded, its exit code (null when its
/// script did not run or was stopped by a signal), and how long it took.
pub fn tool_done(
    wf: Option<&str>,
    stmt: Option<&str>,
    specialist: Option<&str>,
    tool: &str,
    success: bool,
    exit_code: Option<i32>,
    elapsed_ms: u64,
) -> (r: serde_json::Value)
    ensures
        r == json_object_of(
            seq![
                named("tool.done"@),
                ("wf"@, opt_text_json(opt_str_view(wf))),
                ("stmt"@, opt_text_json(opt_str_view(stmt))),
                ("specialist"@, opt_text_json(opt_str_view(specialist))),
                ("tool"@, json_string_value(tool@)),
                ("success"@, json_bool_value(success)),
                ("exit_code"@, opt_code_json(exit_code)),
                ("elapsed_ms"@, json_u64_value(elapsed_ms)),
            ],
        ),
{
    let code = match exit_code {
        Some(c) => json_i64(c as i64),
        None => json_null(),
    };
    let mut f: Vec<(String, serde_json::Value)> = Vec::new();
    f.push(field("event", text("tool.done")));
    f.push(field("wf", opt_text(wf)));
    f.push(field("stmt", opt_text(stmt)));
    f.push(field("specialist", opt_text(specialist)));
    f.push(field("tool", text(tool)));
    f.push(field("success", json_bool(success)));
    f.push(field("exit_code", code));
    f.push(field("elapsed_ms", json_u64(elapsed_ms)));
    assert(field_views(f@) =~= seq![
        named("tool.done"@),
        ("wf"@, opt_text_json(opt_str_view(wf))),
        ("stmt"@, opt_text_json(opt_str_view(stmt))),
        ("specialist"@, opt_text_json(opt_str_view(specialist))),
        ("tool"@, json_string_value(tool@)),
        ("success"@, json_bool_value(success)),
        ("exit_code"@, opt_code_json(exit_code)),
        ("elapsed_ms"@, json_u64_value(elapsed_ms)),
    ]);
    json_object(f)
}

/// A workflow asked the user something.
pub fn ask_prompt(wf: Option<&str>, stmt: Option<&str>, prompt: &str) -> (r: serde_json::Value)
    ensures
        r == json_object_of(
            seq![
                named("ask.prompt"@),
                ("wf"@, opt_text_json(opt_str_view(wf))),
                ("stmt"@, opt_text_json(opt_str_view(stmt))),
                ("prompt"@, json_string_value(prompt@)),
            ],
        ),
{
    let mut f: Vec<(String, serde_json::Value)> = Vec::new();
    f.push(field("event", text("ask.prompt")));
    f.push(field("wf", opt_text(wf)));
    f.push(field("stmt", opt_text(stmt)));
    f.push(field("prompt", text(prompt)));
    assert(field_views(f@) =~= seq![
        named("ask.prompt"@),
        ("wf"@, opt_text_json(opt_str_view(wf))),
        ("stmt"@, opt_text_json(opt_str_view(stmt))),
        ("prompt"@, json_string_value(prompt@)),
    ]);
    json_object(f)
}

/// Whether the user answered what a workflow asked.
pub fn ask_answer(wf: Option<&str>, stmt: Option<&str>, answered: bool) -> (r: serde_json::Value)
    ensures
        r == json_object_of(
            seq![
                named("ask.answer"@),
                ("wf"@, opt_text_json(opt_str_view(wf))),
                ("stmt"@, opt_text_json(opt_str_view(stmt))),
                ("answered"@, json_bool_value(answered)),
            ],
        ),
{
    let mut f: Vec<(String, serde_json::Value)> = Vec::new();
    f.push(field("event", text("ask.answer")));
    f.push(field("wf", opt_text(wf)));
    f.push(field("stmt", opt_text(stmt)));
    f.push(field("answered", json_bool(answered)));
    assert(field_views(f@) =~= seq![
        named("ask.answer"@),
        ("wf"@, opt_text_json(opt_str_view(wf))),
        ("stmt"@, opt_text_json(opt_str_view(stmt))),
        ("answered"@, json_bool_value(answered)),
    ]);
    json_object(f)
}

/// An event as the sink writes it: with `ts`, the RFC 3339 time of emission
/// (`secs` and `millis` after the epoch), and `run`, the invocation's id. A
/// value that is not an object is written as it is.
pub fn enrich(run: &str, secs: u64, millis: u32, event: serde_json::Value) -> (r: serde_json::Value)
    ensures
        r == json_inserted(
            json_inserted(event, "ts"@, json_string_value(rfc3339_text(secs as nat, millis as nat))),
            "run"@,
            json_string_value(run@),
        ),
{
    let stamped = json_insert(event, owned("ts"), json_string(rfc3339_millis(secs, millis)));
    json_insert(stamped, owned("run"), json_string(owned(run)))
}

} // verus!
