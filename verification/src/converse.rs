//! Turn-taking around a one-turn workflow. A workflow runs straight through
//! to its result; the conversation loop lives here instead: the mode the
//! human picks each turn, the window of conversation carried from one turn to
//! the next, and the decision to stop. The caller reads the lines, evaluates
//! the workflow and stores the run; these functions decide what happens next.
//!
//! The workflow's contract: exactly the inputs `MODE`, `MESSAGE` and
//! `WINDOW`, each a `string`, and a result object with the string fields
//! `window` (carried into the next turn) and `reply` (shown to the human).

use vstd::prelude::*;

use crate::json::{
    field_views, json_entries, json_entries_of, json_object, json_object_of, json_parse_error,
    json_parsed, json_rendered, json_string, json_string_value, json_text, json_text_of,
    parse_json, render_json,
};
use crate::text::{lowercase, owned, push_padded, push_str, str_eq, to_lowercase, trim, trim_seq, decimal, padded};

verus! {

// ---------------------------------------------------------------------------
// Modes
// ---------------------------------------------------------------------------

/// What the human asks of one turn.
#[derive(Clone, Copy, Debug, PartialEq, Eq, Structural)]
pub enum TurnMode {
    /// Take another turn of conversation, with a message.
    Discuss,
    /// Condense the conversation window; no message.
    Summarize,
}

impl TurnMode {
    pub open spec fn spec_name(self) -> Seq<char> {
        match self {
            TurnMode::Discuss => "discuss"@,
            TurnMode::Summarize => "summarize"@,
        }
    }

    /// The mode's name, as the workflow receives it in `MODE`.
    pub fn name(self) -> (r: &'static str)
        ensures
            r@ == self.spec_name(),
    {
        match self {
            TurnMode::Discuss => "discuss",
            TurnMode::Summarize => "summarize",
        }
    }
}

/// What a line typed at the mode prompt asks for.
#[derive(Debug, PartialEq, Eq)]
pub enum ModeChoice {
    /// Run a turn in this mode.
    Turn(TurnMode),
    /// Stop taking turns.
    Finish,
    /// A blank line: ask again.
    Again,
    /// Not a mode; carries the word as it was read (trimmed, lowercased).
    Unknown(String),
}

/// The word a mode line is read as: trimmed and lowercased.
pub open spec fn mode_word(line: Seq<char>) -> Seq<char> {
    lowercase(trim_seq(line))
}

/// `c` is what `line` asks for at the mode prompt: `discuss`/`d`,
/// `summarize`/`s`, `continue`/`c`/`quit`/`q` to finish, blank to ask again.
pub open spec fn is_mode_choice(line: Seq<char>, c: ModeChoice) -> bool {
    let w = mode_word(line);
    if w == "discuss"@ || w == "d"@ {
        c == ModeChoice::Turn(TurnMode::Discuss)
    } else if w == "summarize"@ || w == "s"@ {
        c == ModeChoice::Turn(TurnMode::Summarize)
    } else if w == "continue"@ || w == "c"@ || w == "quit"@ || w == "q"@ {
        c is Finish
    } else if w.len() == 0 {
        c is Again
    } else {
        c matches ModeChoice::Unknown(t) && t@ == w
    }
}

/// Reads a line typed at the mode prompt.
pub fn choose_mode(line: &str) -> (r: ModeChoice)
    ensures
        is_mode_choice(line@, r),
{
    let t = trim(line);
    let w = to_lowercase(t.as_str());
    let s = w.as_str();
    if str_eq(s, "discuss") || str_eq(s, "d") {
        ModeChoice::Turn(TurnMode::Discuss)
    } else if str_eq(s, "summarize") || str_eq(s, "s") {
        ModeChoice::Turn(TurnMode::Summarize)
    } else if str_eq(s, "continue") || str_eq(s, "c") || str_eq(s, "quit") || str_eq(s, "q") {
        ModeChoice::Finish
    } else if s.unicode_len() == 0 {
        ModeChoice::Again
    } else {
        ModeChoice::Unknown(w)
    }
}

/// The warning for a word that names no mode.
pub open spec fn unknown_mode_message(word: Seq<char>) -> Seq<char> {
    "unknown mode '"@ + word + "'; pick discuss, summarize, or continue"@
}

// ---------------------------------------------------------------------------
// The input contract
// ---------------------------------------------------------------------------

/// The declared type of the first input of `inputs` (from `i` on) named
/// `name`.
pub open spec fn input_type_from(inputs: Seq<(Seq<char>, Seq<char>)>, name: Seq<char>, i: nat) -> Option<Seq<char>>
    decreases inputs.len() - i,
{
    if i >= inputs.len() {
        None
    } else if inputs[i as int].0 == name {
        Some(inputs[i as int].1)
    } else {
        input_type_from(inputs, name, i + 1)
    }
}

/// One of the inputs the runner supplies.
pub open spec fn is_supplied(name: Seq<char>) -> bool {
    name == "MODE"@ || name == "MESSAGE"@ || name == "WINDOW"@
}

/// The name of the first input of `inputs` (from `i` on) that the runner does
/// not supply.
pub open spec fn unsupplied_from(inputs: Seq<(Seq<char>, Seq<char>)>, i: nat) -> Option<Seq<char>>
    decreases inputs.len() - i,
{
    if i >= inputs.len() {
        None
    } else if !is_supplied(inputs[i as int].0) {
        Some(inputs[i as int].0)
    } else {
        unsupplied_from(inputs, i + 1)
    }
}

pub open spec fn wrong_type_message(name: Seq<char>, ty: Seq<char>) -> Seq<char> {
    "converse workflow input `"@ + name + "` must be `string`, found `"@ + ty + "`"@
}

pub open spec fn undeclared_message(name: Seq<char>) -> Seq<char> {
    "converse workflow must declare a `string` input `"@ + name
        + "` (the contract is `# inputs: MODE:string, MESSAGE:string, WINDOW:string`)"@
}

pub open spec fn unsupplied_message(name: Seq<char>) -> Seq<char> {
    "converse workflow declares unsupported input `"@ + name
        + "`; the runner only supplies MODE, MESSAGE, and WINDOW"@
}

/// What is wrong with how `inputs` declares the supplied input `name`.
pub open spec fn required_problem(inputs: Seq<(Seq<char>, Seq<char>)>, name: Seq<char>) -> Option<Seq<char>> {
    match input_type_from(inputs, name, 0) {
        None => Some(undeclared_message(name)),
        Some(ty) => if ty == "string"@ {
            None
        } else {
            Some(wrong_type_message(name, ty))
        },
    }
}

/// The first thing wrong with a workflow's inputs, each a name and its
/// declared type: `MODE`, `MESSAGE` and `WINDOW` in that order must each be
/// declared as `string`, and nothing else may be declared.
pub open spec fn contract_problem(inputs: Seq<(Seq<char>, Seq<char>)>) -> Option<Seq<char>> {
    if required_problem(inputs, "MODE"@) is Some {
        required_problem(inputs, "MODE"@)
    } else if required_problem(inputs, "MESSAGE"@) is Some {
        required_problem(inputs, "MESSAGE"@)
    } else if required_problem(inputs, "WINDOW"@) is Some {
        required_problem(inputs, "WINDOW"@)
    } else {
        match unsupplied_from(inputs, 0) {
            Some(n) => Some(unsupplied_message(n)),
            None => None,
        }
    }
}

pub open spec fn input_views(inputs: Seq<(String, String)>) -> Seq<(Seq<char>, Seq<char>)> {
    inputs.map_values(|p: (String, String)| (p.0@, p.1@))
}

/// The declared type of the first input named `name`.
fn input_type(inputs: &Vec<(String, String)>, name: &str) -> (r: Option<String>)
    ensures
        match input_type_from(input_views(inputs@), name@, 0) {
            Some(t) => r matches Some(s) && s@ == t,
            None => r is None,
        },
{
    let ghost v = input_views(inputs@);
    let mut i: usize = 0;
    while i < inputs.len()
        invariant
            i <= inputs@.len(),
            v == input_views(inputs@),
            input_type_from(v, name@, 0) == input_type_from(v, name@, i as nat),
        decreases inputs.len() - i,
    {
        if str_eq(inputs[i].0.as_str(), name) {
            return Some(inputs[i].1.clone());
        }
        assert(input_type_from(v, name@, i as nat) == input_type_from(v, name@, (i + 1) as nat));
        i += 1;
    }
    None
}

/// What is wrong with the declaration of the supplied input `name`.
fn check_required(inputs: &Vec<(String, String)>, name: &str) -> (r: Result<(), String>)
    ensures
        match required_problem(input_views(inputs@), name@) {
            Some(m) => r matches Err(e) && e@ == m,
            None => r is Ok,
        },
{
    match input_type(inputs, name) {
        None => {
            let mut e = owned("converse workflow must declare a `string` input `");
            push_str(&mut e, name);
            push_str(&mut e, "` (the contract is `# inputs: MODE:string, MESSAGE:string, WINDOW:string`)");
            Err(e)
        },
        Some(ty) => {
            if str_eq(ty.as_str(), "string") {
                Ok(())
            } else {
                let mut e = owned("converse workflow input `");
                push_str(&mut e, name);
                push_str(&mut e, "` must be `string`, found `");
                push_str(&mut e, ty.as_str());
                push_str(&mut e, "`");
                Err(e)
            }
        },
    }
}

/// Checks that a workflow's inputs, each a name and its declared type, are
/// exactly the `string` inputs `MODE`, `MESSAGE` and `WINDOW` the runner
/// supplies, so that a mismatch is reported before the first turn.
pub fn check_contract(inputs: &Vec<(String, String)>) -> (r: Result<(), String>)
    ensures
        match contract_problem(input_views(inputs@)) {
            Some(m) => r matches Err(e) && e@ == m,
            None => r is Ok,
        },
{
    match check_required(inputs, "MODE") {
        Ok(()) => {},
        Err(e) => {
            return Err(e);
        },
    }
    match check_required(inputs, "MESSAGE") {
        Ok(()) => {},
        Err(e) => {
            return Err(e);
        },
    }
    match check_required(inputs, "WINDOW") {
        Ok(()) => {},
        Err(e) => {
            return Err(e);
        },
    }
    let ghost v = input_views(inputs@);
    let mut i: usize = 0;
    while i < inputs.len()
        invariant
            i <= inputs@.len(),
            v == input_views(inputs@),
            unsupplied_from(v, 0) == unsupplied_from(v, i as nat),
            required_problem(v, "MODE"@) is None,
            required_problem(v, "MESSAGE"@) is None,
            required_problem(v, "WINDOW"@) is None,
        decreases inputs.len() - i,
    {
        let n = inputs[i].0.as_str();
        assert(v[i as int].0 == n@);
        if !(str_eq(n, "MODE") || str_eq(n, "MESSAGE") || str_eq(n, "WINDOW")) {
            assert(unsupplied_from(v, i as nat) == Some(n@));
            let mut e = owned("converse workflow declares unsupported input `");
            push_str(&mut e, n);
            push_str(&mut e, "`; the runner only supplies MODE, MESSAGE, and WINDOW");
            return Err(e);
        }
        assert(unsupplied_from(v, i as nat) == unsupplied_from(v, (i + 1) as nat));
        i += 1;
    }
    Ok(())
}

// ---------------------------------------------------------------------------
// Reading string fields of a JSON object
// ---------------------------------------------------------------------------

/// The text of the entry keyed `key` among `entries` (from `i` on), when it
/// is a string.
pub open spec fn entry_text_from(entries: Seq<(Seq<char>, serde_json::Value)>, key: Seq<char>, i: nat) -> Option<Seq<char>>
    decreases entries.len() - i,
{
    if i >= entries.len() {
        None
    } else if entries[i as int].0 == key {
        json_text_of(entries[i as int].1)
    } else {
        entry_text_from(entries, key, i + 1)
    }
}

/// The string field `key` of `value`: `None` where `value` is not an object,
/// has no such field, or holds something other than a string there.
pub open spec fn field_text(value: serde_json::Value, key: Seq<char>) -> Option<Seq<char>> {
    match json_entries_of(value) {
        Some(es) => entry_text_from(es, key, 0),
        None => None,
    }
}

/// The string field `key` of `value`.
fn field_string(value: &serde_json::Value, key: &str) -> (r: Option<String>)
    ensures
        match field_text(*value, key@) {
            Some(t) => r matches Some(s) && s@ == t,
            None => r is None,
        },
{
    let entries = match json_entries(value) {
        Some(es) => es,
        None => {
            return None;
        },
    };
    let ghost es = field_views(entries@);
    let mut i: usize = 0;
    while i < entries.len()
        invariant
            i <= entries@.len(),
            es == field_views(entries@),
            json_entries_of(*value) == Some(es),
            entry_text_from(es, key@, 0) == entry_text_from(es, key@, i as nat),
        decreases entries.len() - i,
    {
        assert(es[i as int] == (entries@[i as int].0@, entries@[i as int].1));
        if str_eq(entries[i].0.as_str(), key) {
            return json_text(&entries[i].1);
        }
        assert(entry_text_from(es, key@, i as nat) == entry_text_from(es, key@, (i + 1) as nat));
        i += 1;
    }
    None
}

pub open spec fn missing_result_field_message(key: Seq<char>) -> Seq<char> {
    "workflow result is missing string field `"@ + key + "` (expected { window, reply })"@
}

/// The string field `key` of a turn's result, or the error naming the
/// contract field that is missing or not a string.
pub fn result_field(result: &serde_json::Value, key: &str) -> (r: Result<String, String>)
    ensures
        match field_text(*result, key@) {
            Some(t) => r matches Ok(s) && s@ == t,
            None => r matches Err(e) && e@ == missing_result_field_message(key@),
        },
{
    match field_string(result, key) {
        Some(s) => Ok(s),
        None => {
            let mut e = owned("workflow result is missing string field `");
            push_str(&mut e, key);
            push_str(&mut e, "` (expected { window, reply })");
            Err(e)
        },
    }
}

// ---------------------------------------------------------------------------
// A conversation
// ---------------------------------------------------------------------------

/// A conversation run: its id, the workflow it drives and the window carried
/// between turns. This is all there is to resume: re-seeding the window
/// continues where an earlier session left off.
#[derive(Debug)]
pub struct Conversation {
    pub id: String,
    pub workflow: String,
    pub window: String,
}

/// What the caller does next.
#[derive(Debug)]
pub enum ConverseStep {
    /// Read a line at the mode prompt and hand it to `on_mode_line`.
    AskMode,
    /// Read the human's message and hand it to `on_message_line`.
    AskMessage,
    /// Show this warning, then ask for a mode again.
    Warn(String),
    /// Evaluate the workflow once on these inputs and hand its result to
    /// `on_turn_result`.
    Evaluate(Vec<(String, serde_json::Value)>),
    /// Stop taking turns; store the run.
    Finish,
}

/// The inputs of one turn: the mode, the message and the window, each a JSON
/// string.
pub open spec fn turn_fields(mode: TurnMode, message: Seq<char>, window: Seq<char>) -> Seq<(Seq<char>, serde_json::Value)> {
    seq![
        ("MODE"@, json_string_value(mode.spec_name())),
        ("MESSAGE"@, json_string_value(message)),
        ("WINDOW"@, json_string_value(window)),
    ]
}

/// `step` evaluates the workflow on `fields`.
pub open spec fn evaluates(step: ConverseStep, fields: Seq<(Seq<char>, serde_json::Value)>) -> bool {
    step matches ConverseStep::Evaluate(f) && field_views(f@) == fields
}

/// What follows the line (or the end of input) read at the mode prompt of a
/// conversation whose window is `window`.
pub open spec fn mode_step(window: Seq<char>, line: Option<String>, step: ConverseStep) -> bool {
    match line {
        None => step is Finish,
        Some(l) => {
            let w = mode_word(l@);
            if w == "discuss"@ || w == "d"@ {
                step is AskMessage
            } else if w == "summarize"@ || w == "s"@ {
                evaluates(step, turn_fields(TurnMode::Summarize, Seq::empty(), window))
            } else if w == "continue"@ || w == "c"@ || w == "quit"@ || w == "q"@ {
                step is Finish
            } else if w.len() == 0 {
                step is AskMode
            } else {
                step matches ConverseStep::Warn(m) && m@ == unknown_mode_message(w)
            }
        },
    }
}

fn turn_inputs(mode: TurnMode, message: String, window: String) -> (r: Vec<(String, serde_json::Value)>)
    ensures
        field_views(r@) == turn_fields(mode, message@, window@),
{
    let mut v: Vec<(String, serde_json::Value)> = Vec::new();
    v.push((owned("MODE"), json_string(owned(mode.name()))));
    v.push((owned("MESSAGE"), json_string(message)));
    v.push((owned("WINDOW"), json_string(window)));
    assert(field_views(v@) =~= turn_fields(mode, message@, window@));
    v
}

pub open spec fn wrong_workflow_message(id: Seq<char>, has: Seq<char>, wanted: Seq<char>) -> Seq<char> {
    "run '"@ + id + "' belongs to workflow '"@ + has + "', not '"@ + wanted + "'"@
}

pub open spec fn corrupt_record_message(id: Seq<char>, err: Seq<char>) -> Seq<char> {
    "run '"@ + id + "' is corrupt: "@ + err
}

pub open spec fn missing_record_field_message(id: Seq<char>, key: Seq<char>) -> Seq<char> {
    "run '"@ + id + "' is missing string field `"@ + key + "`"@
}

/// What reading the stored record `contents` of run `id` gives.
pub open spec fn record_read(id: Seq<char>, contents: Seq<char>, r: Result<Conversation, String>) -> bool {
    match json_parsed(contents) {
        None => r matches Err(e) && e@ == corrupt_record_message(id, json_parse_error(contents)),
        Some(v) => match field_text(v, "workflow"@) {
            None => r matches Err(e) && e@ == missing_record_field_message(id, "workflow"@),
            Some(wf) => match field_text(v, "window"@) {
                None => r matches Err(e) && e@ == missing_record_field_message(id, "window"@),
                Some(win) => r matches Ok(c) && c.id@ == id && c.workflow@ == wf && c.window@ == win,
            },
        },
    }
}

/// The fields of a conversation's stored record.
pub open spec fn record_fields(c: Conversation) -> Seq<(Seq<char>, serde_json::Value)> {
    seq![
        ("id"@, json_string_value(c.id@)),
        ("workflow"@, json_string_value(c.workflow@)),
        ("window"@, json_string_value(c.window@)),
    ]
}

/// What the result of a turn does to a conversation and gives back.
pub open spec fn turn_outcome(
    before: Conversation,
    result: serde_json::Value,
    after: Conversation,
    r: Result<String, String>,
) -> bool {
    match field_text(result, "window"@) {
        None => after == before && (r matches Err(e) && e@ == missing_result_field_message("window"@)),
        Some(w) => match field_text(result, "reply"@) {
            None => after == before && (r matches Err(e) && e@ == missing_result_field_message("reply"@)),
            Some(reply) => r matches Ok(s) && s@ == reply && after.window@ == w && after.id == before.id
                && after.workflow == before.workflow,
        },
    }
}

impl Conversation {
    /// A fresh conversation over `workflow`, with an empty window; its id is
    /// the start time in seconds and the process id, joined by `-`.
    pub fn start(workflow: &str, secs: u64, pid: u32) -> (r: Conversation)
        ensures
            r.id@ == decimal(secs as nat) + "-"@ + decimal(pid as nat),
            r.workflow@ == workflow@,
            r.window@ == Seq::<char>::empty(),
    {
        let mut id = String::new();
        push_padded(&mut id, secs, 0);
        push_str(&mut id, "-");
        push_padded(&mut id, pid as u64, 0);
        Conversation { id, workflow: owned(workflow), window: String::new() }
    }

    /// Resumes this stored conversation over `workflow`, which must be the
    /// one it was started with.
    pub fn resume(self, workflow: &str) -> (r: Result<Conversation, String>)
        ensures
            self.workflow@ == workflow@ ==> r == Ok::<Conversation, String>(self),
            self.workflow@ != workflow@ ==> (r matches Err(e) && e@ == wrong_workflow_message(
                self.id@,
                self.workflow@,
                workflow@,
            )),
    {
        if str_eq(self.workflow.as_str(), workflow) {
            Ok(self)
        } else {
            let mut e = owned("run '");
            push_str(&mut e, self.id.as_str());
            push_str(&mut e, "' belongs to workflow '");
            push_str(&mut e, self.workflow.as_str());
            push_str(&mut e, "', not '");
            push_str(&mut e, workflow);
            push_str(&mut e, "'");
            Err(e)
        }
    }

    /// Reads the stored record `contents` of run `id`.
    pub fn from_record(id: &str, contents: &str) -> (r: Result<Conversation, String>)
        ensures
            record_read(id@, contents@, r),
    {
        let value = match parse_json(contents) {
            Ok(v) => v,
            Err(err) => {
                let mut e = owned("run '");
                push_str(&mut e, id);
                push_str(&mut e, "' is corrupt: ");
                push_str(&mut e, err.as_str());
                return Err(e);
            },
        };
        let workflow = match field_string(&value, "workflow") {
            Some(w) => w,
            None => {
                let mut e = owned("run '");
                push_str(&mut e, id);
                push_str(&mut e, "' is missing string field `");
                push_str(&mut e, "workflow");
                push_str(&mut e, "`");
                return Err(e);
            },
        };
        let window = match field_string(&value, "window") {
            Some(w) => w,
            None => {
                let mut e = owned("run '");
                push_str(&mut e, id);
                push_str(&mut e, "' is missing string field `");
                push_str(&mut e, "window");
                push_str(&mut e, "`");
                return Err(e);
            },
        };
        Ok(Conversation { id: owned(id), workflow, window })
    }

    /// The record the conversation is stored as: a JSON object of its id,
    /// workflow and window.
    pub fn record(&self) -> (r: String)
        ensures
            r@ == json_rendered(json_object_of(record_fields(*self))),
    {
        let mut fields: Vec<(String, serde_json::Value)> = Vec::new();
        fields.push((owned("id"), json_string(self.id.clone())));
        fields.push((owned("workflow"), json_string(self.workflow.clone())));
        fields.push((owned("window"), json_string(self.window.clone())));
        assert(field_views(fields@) =~= record_fields(*self));
        let value = json_object(fields);
        render_json(&value)
    }

    /// What follows the line read at the mode prompt; `None` is the end of
    /// input, which finishes like `continue`.
    pub fn on_mode_line(&self, line: Option<String>) -> (r: ConverseStep)
        ensures
            mode_step(self.window@, line, r),
    {
        let l = match line {
            None => {
                return ConverseStep::Finish;
            },
            Some(l) => l,
        };
        match choose_mode(l.as_str()) {
            ModeChoice::Turn(TurnMode::Discuss) => ConverseStep::AskMessage,
            ModeChoice::Turn(TurnMode::Summarize) => ConverseStep::Evaluate(
                turn_inputs(TurnMode::Summarize, String::new(), self.window.clone()),
            ),
            ModeChoice::Finish => ConverseStep::Finish,
            ModeChoice::Again => ConverseStep::AskMode,
            ModeChoice::Unknown(w) => {
                let mut m = owned("unknown mode '");
                push_str(&mut m, w.as_str());
                push_str(&mut m, "'; pick discuss, summarize, or continue");
                ConverseStep::Warn(m)
            },
        }
    }

    /// What follows the human's message for a `discuss` turn; `None` is the
    /// end of input, which finishes.
    pub fn on_message_line(&self, line: Option<String>) -> (r: ConverseStep)
        ensures
            match line {
                None => r is Finish,
                Some(m) => evaluates(r, turn_fields(TurnMode::Discuss, m@, self.window@)),
            },
    {
        match line {
            None => ConverseStep::Finish,
            Some(m) => ConverseStep::Evaluate(turn_inputs(TurnMode::Discuss, m, self.window.clone())),
        }
    }

    /// Takes a turn's result: carries its `window` into the next turn and
    /// gives back its `reply`. A result without either string field is an
    /// error and leaves the conversation as it was.
    pub fn on_turn_result(&mut self, result: &serde_json::Value) -> (r: Result<String, String>)
        ensures
            turn_outcome(*old(self), *result, *final(self), r),
    {
        let window = match result_field(result, "window") {
            Ok(w) => w,
            Err(e) => {
                return Err(e);
            },
        };
        let reply = match result_field(result, "reply") {
            Ok(r) => r,
            Err(e) => {
                return Err(e);
            },
        };
        self.window = window;
        Ok(reply)
    }

    /// The command that resumes this conversation, as shown when it ends.
    pub fn resume_command(&self) -> (r: String)
        ensures
            r@ == "  spawningpool converse "@ + self.workflow@ + " --resume "@ + self.id@,
    {
        let mut s = owned("  spawningpool converse ");
        push_str(&mut s, self.workflow.as_str());
        push_str(&mut s, " --resume ");
        push_str(&mut s, self.id.as_str());
        s
    }
}

} // verus!
