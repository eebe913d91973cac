use spawningpool::ai::{Api, Reasoning};
use spawningpool::commands::{
    define_model, define_provider, define_specialist, delete_preview, orphan_warnings, remove_entity, Deletable,
    affirmative, check_model_refs, check_specialist_refs, check_tool_name, is_valid_tool_name,
    parse_kv_args, parse_list, parse_reasoning, referrers_of_model, referrers_of_provider,
    referrers_of_tool,
};
use spawningpool::display::{available_names, onboarding_message, progress, unset_key_warnings, warn_unset_keys};
use spawningpool::domain::{ModelDef, ProviderDef, Registry, Specialist};
use spawningpool::names::NameMap;
use spawningpool::script::{resolve_script, ScriptError};

fn populated_registry() -> Registry {
    let mut registry = Registry::default();
    registry.providers.insert(
        "anthropic".into(),
        ProviderDef {
            name: "anthropic".into(),
            api: Api::AnthropicMessages,
            base_url: "https://api.anthropic.com".into(),
            api_key_env: Some("ANTHROPIC_API_KEY".into()),
            constrained_decoding: false,
        },
    );
    registry.models.insert(
        "opus".into(),
        ModelDef {
            id: "opus".into(),
            name: "Opus".into(),
            provider: "anthropic".into(),
            max_tokens: 1024,
            context_window: 200_000,
        },
    );
    registry
}

/// The tool names of a tools folder holding a single `ping` script.
fn tools_with_ping() -> Vec<String> {
    vec!["ping".to_string()]
}

fn specialist_ref(
    provider: &str,
    model: &str,
    tools: Vec<String>,
    constraint: Option<String>,
) -> Specialist {
    Specialist {
        name: "spec".into(),
        provider: provider.into(),
        model: model.into(),
        system_prompt: "s".into(),
        tools,
        constraint,
        reasoning: Reasoning::Off,
        stream: false,
    }
}

#[test]
fn parse_list_splits_and_trims() {
    assert_eq!(
        parse_list(Some("a, b ,c".into())),
        vec!["a".to_string(), "b".to_string(), "c".to_string()]
    );
    assert!(parse_list(None).is_empty());
    assert!(parse_list(Some("  ,  ".into())).is_empty());
}

#[test]
fn affirmative_only_accepts_an_explicit_yes() {
    for yes in ["y", "Y", "yes", "Yes", " yes \n"] {
        assert!(affirmative(yes), "{yes:?} should confirm");
    }
    // Empty (the EOF case on a non-interactive stdin) and anything else decline.
    for no in ["", "\n", "n", "no", "yep", "1"] {
        assert!(!affirmative(no), "{no:?} should decline");
    }
}

#[test]
fn parse_reasoning_maps_levels_and_rejects_unknown() {
    assert_eq!(parse_reasoning("high"), Ok(Reasoning::High));
    assert_eq!(parse_reasoning("off"), Ok(Reasoning::Off));
    assert!(parse_reasoning("ultra").is_err());
}

#[test]
fn available_names_lists_sorted_or_notes_emptiness() {
    let mut map: NameMap<u8> = NameMap::new();
    assert_eq!(available_names(&map), "(none defined yet)");
    map.insert("b".into(), 0);
    map.insert("a".into(), 0);
    assert_eq!(available_names(&map), "a, b");
}

#[test]
fn check_specialist_refs_passes_when_all_present() {
    let registry = populated_registry();
    let tools = tools_with_ping();
    let spec = specialist_ref("anthropic", "opus", vec!["ping".into()], None);
    let result = check_specialist_refs(&registry, &spec, &tools);
    assert!(result.is_ok());
}

#[test]
fn check_specialist_refs_reports_missing_provider_model_and_tool() {
    let registry = populated_registry();
    let tools = tools_with_ping();

    let err = check_specialist_refs(
        &registry,
        &specialist_ref("ghost", "opus", vec![], None),
        &tools,
    )
    .unwrap_err();
    assert!(err.contains("references provider 'ghost'"));
    assert!(err.contains("spawningpool define provider ghost"));

    let err = check_specialist_refs(
        &registry,
        &specialist_ref("anthropic", "nope", vec![], None),
        &tools,
    )
    .unwrap_err();
    assert!(err.contains("references model 'nope'"));
    assert!(err.contains("spawningpool define model nope"));

    let err = check_specialist_refs(
        &registry,
        &specialist_ref("anthropic", "opus", vec!["absent".into()], None),
        &tools,
    )
    .unwrap_err();
    assert!(err.contains("references tool 'absent'"));
    assert!(err.contains("spawningpool define tool absent"));
}

#[test]
fn check_specialist_refs_validates_the_constrained_tool() {
    let registry = populated_registry();
    let tools = tools_with_ping();
    // A constraint names a tool too, so an undefined forced tool is caught.
    let spec = specialist_ref("anthropic", "opus", vec![], Some("absent".into()));
    let err = check_specialist_refs(&registry, &spec, &tools).unwrap_err();
    assert!(err.contains("references tool 'absent'"));
}

#[test]
fn check_specialist_refs_gives_the_whole_message() {
    let registry = populated_registry();
    let err = check_specialist_refs(
        &registry,
        &specialist_ref("ghost", "opus", vec![], None),
        &tools_with_ping(),
    )
    .unwrap_err();
    assert_eq!(
        err,
        "specialist 'spec' references provider 'ghost', which isn't defined.\n\
         \n  Defined providers: anthropic\n\
         \n  Define it first:\n      spawningpool define provider ghost --api <anthropic-messages|openai-completions> --base-url <url>\n\
         \n  ...or point the specialist at one that exists with --provider."
    );
    let err = check_specialist_refs(
        &registry,
        &specialist_ref("anthropic", "opus", vec!["absent".into()], None),
        &Vec::new(),
    )
    .unwrap_err();
    assert_eq!(
        err,
        "specialist 'spec' references tool 'absent', which isn't defined.\n\
         \n  Defined tools: (none defined yet)\n\
         \n  Back it with a script:\n      spawningpool define tool absent --script <path>"
    );
}

#[test]
fn check_model_refs_requires_a_defined_provider() {
    let registry = populated_registry();
    let ok = ModelDef {
        id: "m".into(),
        name: "m".into(),
        provider: "anthropic".into(),
        max_tokens: 1,
        context_window: 1,
    };
    assert!(check_model_refs(&registry, &ok).is_ok());

    let bad = ModelDef {
        provider: "ghost".into(),
        ..ok
    };
    let err = check_model_refs(&registry, &bad).unwrap_err();
    assert!(err.contains("references provider 'ghost'"));
    assert!(err.contains("spawningpool define provider ghost"));
}

#[test]
fn referrers_find_entities_pointing_at_a_target() {
    let mut registry = populated_registry();
    registry.specialists.insert(
        "spec".into(),
        specialist_ref("anthropic", "opus", vec!["ping".into()], None),
    );

    // A provider is referenced by both the specialist and the model under it.
    assert_eq!(
        referrers_of_provider(&registry, "anthropic"),
        vec![
            "specialist 'spec'".to_string(),
            "model 'opus'".to_string()
        ]
    );
    assert_eq!(
        referrers_of_model(&registry, "opus"),
        vec!["specialist 'spec'".to_string()]
    );
    assert_eq!(
        referrers_of_tool(&registry, "ping"),
        vec!["specialist 'spec'".to_string()]
    );

    // An unreferenced name has no referrers.
    assert!(referrers_of_provider(&registry, "openai").is_empty());
}

#[test]
fn referrers_of_tool_includes_a_constrained_tool() {
    let mut registry = populated_registry();
    registry.specialists.insert(
        "spec".into(),
        specialist_ref("anthropic", "opus", vec![], Some("ping".into())),
    );
    assert_eq!(
        referrers_of_tool(&registry, "ping"),
        vec!["specialist 'spec'".to_string()]
    );
}

#[test]
fn onboarding_message_walks_the_progression() {
    // Empty registry: step 1, both provider examples.
    let empty = Registry::default();
    let msg = onboarding_message(&empty);
    assert!(msg.contains("[1/4]"));
    assert!(msg.contains("spawningpool define provider anthropic"));
    assert!(msg.contains("spawningpool define provider lmstudio"));

    // Provider only: step 2, points at the real provider.
    let mut reg = Registry::default();
    reg.providers.insert(
        "anthropic".into(),
        ProviderDef {
            name: "anthropic".into(),
            api: Api::AnthropicMessages,
            base_url: "https://api.anthropic.com".into(),
            api_key_env: Some("ANTHROPIC_API_KEY".into()),
            constrained_decoding: false,
        },
    );
    let msg = onboarding_message(&reg);
    assert!(msg.contains("[2/4]"));
    assert!(msg.contains("spawningpool define model"));
    // Anthropic has no discovery endpoint, so don't offer --remote.
    assert!(!msg.contains("--remote"));

    // Model present: step 3, example uses the real provider/model.
    reg.models.insert(
        "opus".into(),
        ModelDef {
            id: "opus".into(),
            name: "Opus".into(),
            provider: "anthropic".into(),
            max_tokens: 1024,
            context_window: 200_000,
        },
    );
    let msg = onboarding_message(&reg);
    assert!(msg.contains("[3/4]"));
    assert!(msg.contains("--provider anthropic --model opus"));

    // Specialist present: step 4, run command names the real specialist.
    reg.specialists.insert(
        "summarizer".into(),
        specialist_ref("anthropic", "opus", vec![], None),
    );
    let msg = onboarding_message(&reg);
    assert!(msg.contains("[4/4]"));
    assert!(msg.contains("spawningpool run specialist spec"));
}

#[test]
fn no_models_state_offers_discovery_for_openai_providers() {
    let mut reg = Registry::default();
    reg.providers.insert(
        "lmstudio".into(),
        ProviderDef {
            name: "lmstudio".into(),
            api: Api::OpenAiCompletions,
            base_url: "http://localhost:1234/v1".into(),
            api_key_env: None,
            constrained_decoding: false,
        },
    );
    let msg = onboarding_message(&reg);
    assert!(msg.contains("spawningpool list models --remote"));
}

#[test]
fn unset_key_warnings_flags_only_missing_env_vars() {
    let reg = populated_registry();
    // The anthropic provider wants ANTHROPIC_API_KEY; nothing is set.
    let warnings = unset_key_warnings(&reg, &Vec::new());
    assert_eq!(warnings.len(), 1);
    assert!(warnings[0].contains("ANTHROPIC_API_KEY"));
    // When it's set, nothing to warn about.
    assert!(unset_key_warnings(&reg, &vec!["ANTHROPIC_API_KEY".to_string()]).is_empty());
}

#[test]
fn progress_checks_completed_rungs() {
    assert!(progress(0).starts_with("  [1/4]"));
    assert!(progress(3).contains("specialist \u{2713}"));
    assert!(progress(3).starts_with("  [4/4]"));
}

#[test]
fn resolve_script_returns_absolute_path_for_executable() {
    let resolved = resolve_script(Ok("/opt/tools/ping.sh".to_string())).unwrap();
    assert!(resolved.starts_with('/'));
    assert_eq!(resolved, "/opt/tools/ping.sh");
}

#[test]
fn resolve_script_rejects_non_executable_with_chmod_hint() {
    let err = resolve_script(Err(ScriptError::NotExecutable {
        path: "/tmp/sp_noexec.sh".to_string(),
    }))
    .unwrap_err();
    assert!(err.contains("isn't executable"));
    assert!(err.contains("chmod +x"));
    assert!(err.contains("chmod +x /tmp/sp_noexec.sh"));
}

#[test]
fn resolve_script_explains_an_unreadable_script() {
    let err = resolve_script(Err(ScriptError::Unreadable {
        path: "missing.sh".to_string(),
        source: "No such file or directory (os error 2)".to_string(),
    }))
    .unwrap_err();
    assert_eq!(
        err,
        "tool script missing.sh can't be read: No such file or directory (os error 2)\n  Check the path is right and the file exists."
    );
}

#[test]
fn kv_args_parse_into_a_map_and_the_last_value_wins() {
    let args = vec!["a=1".to_string(), "b=x=y".to_string(), "a=2".to_string()];
    let map = parse_kv_args(&args).unwrap();
    assert_eq!(map.len(), 2);
    assert_eq!(map.get("a").map(|s| s.as_str()), Some("2"));
    assert_eq!(map.get("b").map(|s| s.as_str()), Some("x=y"));
    assert!(map.get("c").is_none());
}

#[test]
fn kv_args_reject_a_token_without_equals() {
    let args = vec!["a=1".to_string(), "oops".to_string(), "also".to_string()];
    assert_eq!(
        parse_kv_args(&args).err(),
        Some("invalid --arg 'oops': expected KEY=VALUE".to_string())
    );
}

#[test]
fn tool_names_are_letters_digits_underscores_and_dashes() {
    assert!(is_valid_tool_name("scan"));
    assert!(is_valid_tool_name("fetch-url_2"));
    assert!(!is_valid_tool_name(""));
    assert!(!is_valid_tool_name("bad name"));
    assert!(!is_valid_tool_name("a/b"));
    assert!(is_valid_tool_name(&"x".repeat(64)));
    assert!(!is_valid_tool_name(&"x".repeat(65)));
    assert_eq!(
        check_tool_name("bad name"),
        Err("'bad name' isn't a valid tool name; use letters, digits, '_' or '-' (max 64 chars).".to_string())
    );
    assert_eq!(check_tool_name("ok"), Ok(()));
}

#[test]
fn warn_unset_keys_names_each_keyless_provider_once() {
    let mut registry = populated_registry();
    for name in ["a", "b"] {
        let mut spec = specialist_ref("anthropic", "opus", vec![], None);
        spec.name = name.into();
        registry.specialists.insert(name.into(), spec);
    }
    let mut ghost = specialist_ref("ghost", "opus", vec![], None);
    ghost.name = "g".into();
    registry.specialists.insert("g".into(), ghost);
    let names: Vec<String> = vec!["a".into(), "b".into(), "g".into(), "missing".into()];
    assert_eq!(
        warn_unset_keys(&names, &registry, &vec![]),
        vec!["warning: API key for provider 'anthropic' is unset; specialists using it will fail"
            .to_string()]
    );
    assert!(warn_unset_keys(&names, &registry, &vec!["anthropic".to_string()]).is_empty());
}

#[test]
fn define_then_delete_through_the_registry() {
    let mut registry = Registry::default();
    let err = define_provider(&mut registry, "x".into(), "nope", "u".into(), None, false).unwrap_err();
    assert!(err.starts_with("unknown api 'nope'"));
    assert!(registry.providers.is_empty());
    assert_eq!(
        define_provider(
            &mut registry,
            "anthropic".into(),
            "anthropic-messages",
            "https://api.anthropic.com".into(),
            Some("ANTHROPIC_API_KEY".into()),
            false,
        ),
        Ok("provider anthropic".to_string())
    );
    let err = define_model(&mut registry, "m".into(), "ghost".into(), None, 1, 2).unwrap_err();
    assert!(err.contains("references provider 'ghost'"), "{err}");
    assert_eq!(
        define_model(&mut registry, "opus".into(), "anthropic".into(), None, 1024, 200_000),
        Ok("model opus".to_string())
    );
    assert_eq!(registry.models.get("opus").unwrap().name, "opus");
    assert_eq!(
        define_specialist(
            &mut registry,
            "spec".into(),
            "anthropic".into(),
            "opus".into(),
            "s".into(),
            Some("ping, ".into()),
            None,
            "high",
            true,
            &tools_with_ping(),
        ),
        Ok("specialist spec".to_string())
    );
    let spec = registry.specialists.get("spec").unwrap();
    assert_eq!(spec.tools, vec!["ping".to_string()]);
    assert_eq!(spec.reasoning, Reasoning::High);

    let (what, refs) = delete_preview(&registry, Deletable::Provider, "anthropic").unwrap();
    assert_eq!(what, "provider anthropic");
    assert_eq!(refs, vec!["specialist 'spec'".to_string(), "model 'opus'".to_string()]);
    assert_eq!(
        orphan_warnings("provider", "anthropic", &refs),
        vec![
            "warning: deleting provider 'anthropic' will orphan specialist 'spec'".to_string(),
            "warning: deleting provider 'anthropic' will orphan model 'opus'".to_string(),
            "  Those references will fail at run time until you redefine provider 'anthropic' or repoint them."
                .to_string(),
        ]
    );
    assert!(orphan_warnings("model", "x", &vec![]).is_empty());
    assert_eq!(
        delete_preview(&registry, Deletable::Model, "ghost"),
        Err("no such model ghost".to_string())
    );
    remove_entity(&mut registry, Deletable::Specialist, "spec");
    assert!(registry.specialists.is_empty());
    assert_eq!(registry.models.len(), 1);
}

#[test]
fn define_specialist_refuses_tools_with_a_constraint_or_an_unknown_level() {
    let mut registry = populated_registry();
    let err = define_specialist(
        &mut registry,
        "bad".into(),
        "anthropic".into(),
        "opus".into(),
        "s".into(),
        Some("a,b".into()),
        Some("a".into()),
        "off",
        false,
        &vec![],
    )
    .unwrap_err();
    assert!(err.contains("tools and a constraint"), "{err}");
    let err = define_specialist(
        &mut registry,
        "bad".into(),
        "anthropic".into(),
        "opus".into(),
        "s".into(),
        None,
        None,
        "ultra",
        false,
        &vec![],
    )
    .unwrap_err();
    assert_eq!(err, "unknown reasoning 'ultra' (off|low|medium|high)");
    assert!(registry.specialists.is_empty());
}
