use spawningpool::converse::{check_contract, choose_mode, result_field, Conversation, ConverseStep, ModeChoice, TurnMode};

fn inputs(pairs: &[(&str, &str)]) -> Vec<(String, String)> {
    pairs.iter().map(|(n, t)| (n.to_string(), t.to_string())).collect()
}

fn conversation(window: &str) -> Conversation {
    Conversation {
        id: "1700000000-42".to_string(),
        workflow: "chat".to_string(),
        window: window.to_string(),
    }
}

#[test]
fn mode_words_and_their_short_forms_pick_the_mode() {
    assert_eq!(choose_mode("discuss"), ModeChoice::Turn(TurnMode::Discuss));
    assert_eq!(choose_mode("  D \n"), ModeChoice::Turn(TurnMode::Discuss));
    assert_eq!(choose_mode("Summarize"), ModeChoice::Turn(TurnMode::Summarize));
    assert_eq!(choose_mode("s"), ModeChoice::Turn(TurnMode::Summarize));
    for finish in ["continue", "c", "quit", "Q"] {
        assert_eq!(choose_mode(finish), ModeChoice::Finish);
    }
    assert_eq!(choose_mode("   "), ModeChoice::Again);
    assert_eq!(choose_mode(" Dance "), ModeChoice::Unknown("dance".to_string()));
}

#[test]
fn an_unknown_mode_is_warned_about_and_asked_again() {
    match conversation("").on_mode_line(Some("dance".to_string())) {
        ConverseStep::Warn(m) => {
            assert_eq!(m, "unknown mode 'dance'; pick discuss, summarize, or continue")
        }
        other => panic!("unexpected step {other:?}"),
    }
    assert!(matches!(conversation("").on_mode_line(Some(String::new())), ConverseStep::AskMode));
}

#[test]
fn end_of_input_and_continue_finish_the_conversation() {
    let c = conversation("so far");
    assert!(matches!(c.on_mode_line(None), ConverseStep::Finish));
    assert!(matches!(c.on_mode_line(Some("continue".to_string())), ConverseStep::Finish));
    assert!(matches!(c.on_message_line(None), ConverseStep::Finish));
}

#[test]
fn discuss_asks_for_a_message_then_evaluates_with_it() {
    let c = conversation("so far");
    assert!(matches!(c.on_mode_line(Some("d".to_string())), ConverseStep::AskMessage));
    match c.on_message_line(Some("hello".to_string())) {
        ConverseStep::Evaluate(fields) => {
            assert_eq!(
                fields,
                vec![
                    ("MODE".to_string(), serde_json::Value::String("discuss".to_string())),
                    ("MESSAGE".to_string(), serde_json::Value::String("hello".to_string())),
                    ("WINDOW".to_string(), serde_json::Value::String("so far".to_string())),
                ]
            );
        }
        other => panic!("unexpected step {other:?}"),
    }
}

#[test]
fn summarize_evaluates_over_the_window_without_a_message() {
    match conversation("so far").on_mode_line(Some("summarize".to_string())) {
        ConverseStep::Evaluate(fields) => {
            assert_eq!(fields[0].1, serde_json::Value::String("summarize".to_string()));
            assert_eq!(fields[1].1, serde_json::Value::String(String::new()));
            assert_eq!(fields[2].1, serde_json::Value::String("so far".to_string()));
        }
        other => panic!("unexpected step {other:?}"),
    }
}

#[test]
fn a_turn_result_carries_its_window_and_gives_its_reply() {
    let mut c = conversation("old");
    let result: serde_json::Value =
        serde_json::from_str(r#"{"window":"new","reply":"hi there"}"#).unwrap();
    assert_eq!(c.on_turn_result(&result), Ok("hi there".to_string()));
    assert_eq!(c.window, "new");
    assert_eq!(c.id, "1700000000-42");
}

#[test]
fn a_turn_result_without_a_reply_leaves_the_window() {
    let mut c = conversation("old");
    let result: serde_json::Value = serde_json::from_str(r#"{"window":"new","reply":7}"#).unwrap();
    assert_eq!(
        c.on_turn_result(&result),
        Err("workflow result is missing string field `reply` (expected { window, reply })".to_string())
    );
    assert_eq!(c.window, "old");
}

#[test]
fn result_field_rejects_a_non_object_result() {
    let result = serde_json::Value::String("window".to_string());
    assert_eq!(
        result_field(&result, "window"),
        Err("workflow result is missing string field `window` (expected { window, reply })".to_string())
    );
}

#[test]
fn the_contract_accepts_exactly_the_three_string_inputs() {
    let ok = inputs(&[("WINDOW", "string"), ("MODE", "string"), ("MESSAGE", "string")]);
    assert_eq!(check_contract(&ok), Ok(()));
}

#[test]
fn the_contract_names_a_missing_input() {
    let missing = inputs(&[("MODE", "string"), ("WINDOW", "string")]);
    assert_eq!(
        check_contract(&missing),
        Err("converse workflow must declare a `string` input `MESSAGE` (the contract is `# inputs: MODE:string, MESSAGE:string, WINDOW:string`)".to_string())
    );
}

#[test]
fn the_contract_names_an_input_of_the_wrong_type() {
    let typed = inputs(&[("MODE", "number"), ("MESSAGE", "string"), ("WINDOW", "string")]);
    assert_eq!(
        check_contract(&typed),
        Err("converse workflow input `MODE` must be `string`, found `number`".to_string())
    );
}

#[test]
fn the_contract_refuses_an_extra_input() {
    let extra = inputs(&[
        ("MODE", "string"),
        ("MESSAGE", "string"),
        ("TOPIC", "string"),
        ("WINDOW", "string"),
    ]);
    assert_eq!(
        check_contract(&extra),
        Err("converse workflow declares unsupported input `TOPIC`; the runner only supplies MODE, MESSAGE, and WINDOW".to_string())
    );
}

#[test]
fn a_fresh_conversation_is_keyed_by_time_and_process() {
    let c = Conversation::start("chat", 1700000000, 4242);
    assert_eq!(c.id, "1700000000-4242");
    assert_eq!(c.workflow, "chat");
    assert_eq!(c.window, "");
    assert_eq!(Conversation::start("chat", 0, 0).id, "0-0");
}

#[test]
fn resuming_under_another_workflow_is_refused() {
    let err = conversation("w").resume("other").unwrap_err();
    assert_eq!(err, "run '1700000000-42' belongs to workflow 'chat', not 'other'");
    let c = conversation("w").resume("chat").unwrap();
    assert_eq!(c.window, "w");
}

#[test]
fn a_stored_record_reads_back_as_the_conversation() {
    let c = conversation("line one\n\"quoted\"");
    let text = c.record();
    let value: serde_json::Value = serde_json::from_str(&text).unwrap();
    assert_eq!(value["id"], "1700000000-42");
    assert_eq!(value["workflow"], "chat");
    let back = Conversation::from_record("1700000000-42", &text).unwrap();
    assert_eq!(back.id, c.id);
    assert_eq!(back.workflow, c.workflow);
    assert_eq!(back.window, c.window);
}

#[test]
fn a_damaged_record_is_reported() {
    let err = Conversation::from_record("r1", "{not json").unwrap_err();
    assert!(err.starts_with("run 'r1' is corrupt: "), "{err}");
    let err = Conversation::from_record("r1", r#"{"workflow":"chat"}"#).unwrap_err();
    assert_eq!(err, "run 'r1' is missing string field `window`");
    let err = Conversation::from_record("r1", r#"{"window":""}"#).unwrap_err();
    assert_eq!(err, "run 'r1' is missing string field `workflow`");
}

#[test]
fn the_resume_command_names_workflow_and_run() {
    assert_eq!(conversation("").resume_command(), "  spawningpool converse chat --resume 1700000000-42");
}
