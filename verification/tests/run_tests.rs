use spawningpool::ai::{Reasoning, Role, StopReason, Usage};
use spawningpool::domain::Specialist;
use spawningpool::message::{ContentBlock, Message};
use spawningpool::run::{
    args_to_vars, launch_failure_reply, script_reply, unknown_tool_reply, AfterTools, SpecialistRun, TurnStep,
    MAX_TURNS,
};
use spawningpool::script::finish_run;

fn netop(constraint: Option<String>) -> Specialist {
    Specialist {
        name: "netop".to_string(),
        provider: "anthropic".to_string(),
        model: "opus-4-8".to_string(),
        system_prompt: "You ping hosts.".to_string(),
        tools: if constraint.is_some() { vec![] } else { vec!["ping".to_string()] },
        constraint,
        reasoning: Reasoning::Off,
        stream: true,
    }
}

fn tool_call(id: &str, name: &str) -> ContentBlock {
    ContentBlock::ToolCall {
        id: id.into(),
        name: name.into(),
        arguments: serde_json::from_str("{}").unwrap(),
    }
}

fn assistant(blocks: Vec<ContentBlock>) -> Message {
    Message { role: Role::Assistant, content: blocks }
}

#[test]
fn a_run_opens_with_the_prompt() {
    let run = SpecialistRun::start(&netop(None), "ping example.com".into(), false);
    assert!(run.agentic);
    assert!(run.stream);
    assert_eq!(run.history.len(), 1);
    assert_eq!(run.history[0].role, Role::User);
    assert!(matches!(&run.history[0].content[..], [ContentBlock::Text { text }] if text == "ping example.com"));
    // Constrained decoding turns streaming off.
    assert!(!SpecialistRun::start(&netop(None), "p".into(), true).stream);
}

#[test]
fn an_answer_without_tool_calls_settles_the_run() {
    let mut run = SpecialistRun::start(&netop(None), "hi".into(), false);
    let step = run.turn_done(
        assistant(vec![ContentBlock::text("done".into())]),
        Usage { input: 5, output: 7 },
        StopReason::Stop,
    );
    assert!(matches!(step, TurnStep::Settled));
    assert_eq!((run.turns, run.input_tokens, run.output_tokens), (1, 5, 7));
}

#[test]
fn tool_calls_are_run_and_fed_back() {
    let mut run = SpecialistRun::start(&netop(None), "hi".into(), false);
    let step = run.turn_done(
        assistant(vec![
            ContentBlock::text("checking".into()),
            tool_call("c1", "ping"),
            tool_call("c2", "ping"),
        ]),
        Usage { input: 3, output: 2 },
        StopReason::ToolUse,
    );
    match step {
        TurnStep::RunTools(calls) => {
            let ids: Vec<&str> = calls.iter().map(|c| c.id.as_str()).collect();
            assert_eq!(ids, vec!["c1", "c2"]);
        }
        TurnStep::Settled => panic!("expected tool calls"),
    }
    let after = run.tools_done(vec![
        ContentBlock::tool_result("c1".into(), "up".into()),
        ContentBlock::tool_result("c2".into(), "up".into()),
    ]);
    assert!(matches!(after, AfterTools::NextTurn));
    assert_eq!(run.history.len(), 3);
    assert_eq!(run.history[1].role, Role::Assistant);
    assert_eq!(run.history[2].role, Role::User);
    assert_eq!(run.history[2].content.len(), 2);
    assert_eq!(run.last_stop, StopReason::ToolUse);
}

#[test]
fn a_constrained_specialist_settles_after_its_forced_call() {
    let mut run = SpecialistRun::start(&netop(Some("classify".into())), "hi".into(), false);
    assert!(!run.agentic);
    let step = run.turn_done(
        assistant(vec![tool_call("c1", "classify")]),
        Usage { input: 1, output: 1 },
        StopReason::ToolUse,
    );
    assert!(matches!(step, TurnStep::RunTools(_)));
    let after = run.tools_done(vec![ContentBlock::tool_result("c1".into(), "ok".into())]);
    assert!(matches!(after, AfterTools::Settled));
    assert_eq!(run.history.len(), 1);
}

#[test]
fn a_run_gives_up_after_the_turn_budget() {
    let mut run = SpecialistRun::start(&netop(None), "hi".into(), false);
    for turn in 1..=MAX_TURNS {
        let step = run.turn_done(
            assistant(vec![tool_call("c", "ping")]),
            Usage { input: 1, output: 1 },
            StopReason::ToolUse,
        );
        assert!(matches!(step, TurnStep::RunTools(_)));
        let after = run.tools_done(vec![ContentBlock::tool_result("c".into(), "up".into())]);
        if turn < MAX_TURNS {
            assert!(matches!(after, AfterTools::NextTurn));
        } else {
            match after {
                AfterTools::GaveUp(m) => {
                    assert!(m.starts_with("specialist 'netop' did not finish within 16 turns."));
                    assert!(m.contains("tighten its system prompt"));
                }
                _ => panic!("expected the run to give up"),
            }
        }
    }
    assert_eq!(run.turns, 16);
    assert_eq!(run.input_tokens, 16);
}

#[test]
fn unknown_tools_become_error_results() {
    let (block, message) = unknown_tool_reply("id3".into(), "ghost");
    assert_eq!(message, "unknown tool: ghost");
    match block {
        ContentBlock::ToolResult { tool_call_id, content, is_error } => {
            assert_eq!(tool_call_id, "id3");
            assert!(is_error);
            assert!(content.contains("unknown tool"));
        }
        other => panic!("expected ToolResult error, got {other:?}"),
    }
}

#[test]
fn launch_failures_name_the_fix() {
    let (block, _) = launch_failure_reply(
        "id".into(),
        "ghost_script",
        "/nonexistent/sp_tool.sh",
        "No such file or directory (os error 2)",
    );
    match block {
        ContentBlock::ToolResult { content, is_error, .. } => {
            assert!(is_error);
            assert!(content.contains("could not run its script"));
            assert!(content.contains("chmod +x /nonexistent/sp_tool.sh"));
        }
        other => panic!("expected ToolResult error, got {other:?}"),
    }
}

#[test]
fn script_outcomes_become_results_or_errors() {
    let ok = finish_run(true, Some(0), "hi world\n".into(), String::new(), None);
    match script_reply("id1".into(), &ok) {
        ContentBlock::ToolResult { tool_call_id, content, is_error } => {
            assert_eq!(tool_call_id, "id1");
            assert!(!is_error);
            assert!(content.contains("hi world"));
        }
        other => panic!("expected ToolResult, got {other:?}"),
    }
    let failed = finish_run(false, Some(1), String::new(), "boom\n".into(), None);
    match script_reply("id2".into(), &failed) {
        ContentBlock::ToolResult { content, is_error, .. } => {
            assert!(is_error);
            assert!(content.contains("boom"));
        }
        other => panic!("expected ToolResult error, got {other:?}"),
    }
}

#[test]
fn args_to_vars_stringifies_values_and_ignores_non_objects() {
    let vars = args_to_vars(&serde_json::from_str(r#"{ "env": "prod", "count": 3 }"#).unwrap());
    assert_eq!(vars.get("env"), Some(&"prod".to_string()));
    // Non-string values fall back to their JSON form.
    assert_eq!(vars.get("count"), Some(&"3".to_string()));

    // A non-object (e.g. malformed args) yields no variables.
    assert!(args_to_vars(&serde_json::from_str(r#""oops""#).unwrap()).is_empty());
}

#[test]
fn args_to_vars_handles_varied_json_value_types() {
    let vars = args_to_vars(
        &serde_json::from_str(
            r#"{
                "s": "txt",
                "n": 1.5,
                "b": true,
                "nil": null,
                "arr": [1, 2],
                "obj": { "k": "v" }
            }"#,
        )
        .unwrap(),
    );
    assert_eq!(vars.get("s"), Some(&"txt".to_string()));
    assert_eq!(vars.get("n"), Some(&"1.5".to_string()));
    assert_eq!(vars.get("b"), Some(&"true".to_string()));
    assert_eq!(vars.get("nil"), Some(&"null".to_string()));
    assert_eq!(vars.get("arr"), Some(&"[1,2]".to_string()));
    assert_eq!(vars.get("obj"), Some(&r#"{"k":"v"}"#.to_string()));
}
