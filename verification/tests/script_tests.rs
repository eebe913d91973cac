use spawningpool::script::{
    finish_run, is_dsl_ident, parse_exit_desc, parse_exits, parse_i32, split_exit_entries,
    split_first_word, split_params, tool_script_template, ExitCode, ScriptError,
};

#[test]
fn exits_parse_codes_names_and_descriptions() {
    let exits = parse_exits(r#"0 ok, 2 not_found "no such thing, really", 3 retry-later"#).unwrap();
    assert_eq!(
        exits,
        vec![
            ExitCode { code: 0, name: "ok".into(), desc: None },
            ExitCode {
                code: 2,
                name: "not_found".into(),
                desc: Some("no such thing, really".into())
            },
            ExitCode { code: 3, name: "retry-later".into(), desc: None },
        ]
    );
    assert_eq!(parse_exits("  ").unwrap(), vec![]);
    assert_eq!(parse_exits("-1 neg").unwrap()[0].code, -1);
}

#[test]
fn exits_reject_each_malformed_entry() {
    assert_eq!(
        parse_exits("x ok").unwrap_err(),
        "invalid exit code `x` in `# exits:`"
    );
    assert_eq!(
        parse_exits("4").unwrap_err(),
        "exit code 4 in `# exits:` is missing a name"
    );
    assert_eq!(
        parse_exits("4 9lives").unwrap_err(),
        "exit code name `9lives` in `# exits:` isn't a valid identifier"
    );
    assert_eq!(
        parse_exits("1 a, 2 a").unwrap_err(),
        "duplicate exit code name `a` in `# exits:`"
    );
    assert_eq!(
        parse_exits("-5 a oops").unwrap_err(),
        "unexpected text after exit code -5 name in `# exits:`; quote the description"
    );
    assert_eq!(
        parse_exits(r#"5 a "open"#).unwrap_err(),
        "unterminated description for exit code 5 in `# exits:`"
    );
    assert_eq!(
        parse_exits(r#"5 a "d" extra"#).unwrap_err(),
        "unexpected text after exit code 5 description in `# exits:`"
    );
}

#[test]
fn exit_entries_split_on_top_level_commas() {
    assert_eq!(
        split_exit_entries(r#" 1 a "x, y" ,, 2 b "#),
        vec![r#"1 a "x, y""#.to_string(), "2 b".to_string()]
    );
    assert!(split_exit_entries("").is_empty());
}

#[test]
fn first_word_stops_at_whitespace_or_a_quote() {
    assert_eq!(
        split_first_word("  2\"oops\""),
        ("2".to_string(), "\"oops\"".to_string())
    );
    assert_eq!(
        split_first_word("code   name rest"),
        ("code".to_string(), "name rest".to_string())
    );
    assert_eq!(split_first_word("   "), (String::new(), String::new()));
}

#[test]
fn dsl_identifiers() {
    assert!(is_dsl_ident("ok"));
    assert!(is_dsl_ident("_x1"));
    assert!(is_dsl_ident("retry-later"));
    assert!(!is_dsl_ident(""));
    assert!(!is_dsl_ident("1x"));
    assert!(!is_dsl_ident("a-"));
    assert!(!is_dsl_ident("a-1"));
    assert!(!is_dsl_ident("a b"));
}

#[test]
fn exit_descriptions() {
    assert_eq!(parse_exit_desc("   ", 1), Ok(None));
    assert_eq!(parse_exit_desc(r#" "hi" "#, 1), Ok(Some("hi".to_string())));
    assert!(parse_exit_desc("hi", 1).is_err());
}

#[test]
fn integers_parse_like_str_parse() {
    for s in ["0", "42", "-7", "+7", "2147483647", "-2147483648", "007", "", "-", "+", "1a", " 1", "2147483648", "-2147483649", "99999999999999999999"] {
        assert_eq!(parse_i32(s), s.parse::<i32>().ok(), "{s:?}");
    }
}

#[test]
fn params_split_only_at_top_level() {
    assert_eq!(
        split_params(r#"url, depth:number tags:[string] opts:{"a b": string, c: number}"#),
        vec![
            "url".to_string(),
            "depth:number".to_string(),
            "tags:[string]".to_string(),
            r#"opts:{"a b": string, c: number}"#.to_string(),
        ]
    );
    assert!(split_params(" , ").is_empty());
}

#[test]
fn script_errors_describe_themselves() {
    let e = ScriptError::NotExecutable { path: "/t/x.sh".into() };
    assert_eq!(e.to_string(), "tool script /t/x.sh isn't executable");
    let e = ScriptError::Unreadable { path: "x.sh".into(), source: "gone".into() };
    assert_eq!(e.to_string(), "tool script x.sh can't be read: gone");
}

#[test]
fn finished_runs_combine_output_and_keep_real_results() {
    let run = finish_run(true, Some(0), "out".into(), "err".into(), Some("{\"a\":1}".into()));
    assert_eq!(run.output, "out\nerr");
    assert_eq!(run.structured_output.as_deref(), Some("{\"a\":1}"));
    let run = finish_run(false, None, String::new(), "err".into(), Some(" \n".into()));
    assert_eq!(run.output, "err");
    assert_eq!(run.structured_output, None);
    assert!(!run.success);
    assert_eq!(run.code, None);
    let run = finish_run(true, Some(0), "out".into(), String::new(), None);
    assert_eq!(run.output, "out");
}

#[test]
fn a_new_tool_starts_from_a_runnable_template() {
    assert_eq!(
        tool_script_template("scan"),
        "#!/bin/sh\n# desc: scan \u{2014} describe what this tool does\n# params: \n\n# Arguments arrive as environment variables named after each param.\necho \"hello from scan\"\n"
    );
}
