use spawningpool::ai::{Api, Reasoning};
use spawningpool::domain::{EntityKind, MissingRef, ModelDef, ProviderDef, Referrer, Registry, Specialist};

fn anthropic_provider() -> ProviderDef {
    ProviderDef {
        name: "anthropic".to_string(),
        api: Api::AnthropicMessages,
        base_url: "https://api.anthropic.com".to_string(),
        api_key_env: Some("ANTHROPIC_API_KEY".to_string()),
        constrained_decoding: false,
    }
}

fn opus() -> ModelDef {
    ModelDef {
        id: "opus-4-8".to_string(),
        name: "Opus 4.8".to_string(),
        provider: "anthropic".to_string(),
        max_tokens: 128_000,
        context_window: 1_000_000,
    }
}

fn populated_registry() -> Registry {
    let mut registry = Registry::default();
    registry
        .providers
        .insert("anthropic".to_string(), anthropic_provider());
    registry.models.insert(
        "opus".to_string(),
        ModelDef {
            id: "opus".to_string(),
            name: "Opus".to_string(),
            provider: "anthropic".to_string(),
            max_tokens: 1024,
            context_window: 200_000,
        },
    );
    registry
}

fn spec(provider: &str, model: &str, tools: Vec<String>, constraint: Option<String>) -> Specialist {
    Specialist {
        name: "spec".to_string(),
        provider: provider.to_string(),
        model: model.to_string(),
        system_prompt: String::new(),
        tools,
        constraint,
        reasoning: Reasoning::Off,
        stream: false,
    }
}

fn missing_provider(registry: &Registry, provider: &str) -> Option<MissingRef> {
    let mut model = opus();
    model.provider = provider.to_string();
    registry.missing_model_ref(&model)
}

#[test]
fn domain_model_def_inherits_api_and_base_url_from_provider() {
    let model = opus().resolve(&anthropic_provider());
    assert_eq!(model.api, Api::AnthropicMessages);
    assert_eq!(model.base_url, "https://api.anthropic.com");
    assert_eq!(model.provider, "anthropic");
    assert_eq!(model.context_window, 1_000_000);
}

#[test]
fn domain_tests_model_def_inherits_api_and_base_url_from_provider() {
    let model = opus().resolve(&anthropic_provider());
    assert_eq!(model.api, Api::AnthropicMessages);
    assert_eq!(model.base_url, "https://api.anthropic.com");
    assert_eq!(model.provider, "anthropic");
    assert_eq!(model.context_window, 1_000_000);
}

#[test]
fn domain_resolve_model_pairs_specialist_provider_and_model() {
    let mut registry = Registry::default();
    registry
        .providers
        .insert("anthropic".to_string(), anthropic_provider());
    registry
        .models
        .insert("opus-4-8".to_string(), opus());
    let specialist = Specialist {
        name: "x".to_string(),
        provider: "anthropic".to_string(),
        model: "opus-4-8".to_string(),
        system_prompt: String::new(),
        tools: vec![],
        constraint: None,
        reasoning: Reasoning::default(),
        stream: false,
    };

    let model = registry.resolve_model(&specialist).unwrap();
    assert_eq!(model.id, "opus-4-8");
    assert_eq!(model.api, Api::AnthropicMessages);
}

#[test]
fn domain_tests_resolve_model_pairs_specialist_provider_and_model() {
    let mut registry = Registry::default();
    registry
        .providers
        .insert("anthropic".to_string(), anthropic_provider());
    registry
        .models
        .insert("opus-4-8".to_string(), opus());
    let specialist = Specialist {
        name: "x".to_string(),
        provider: "anthropic".to_string(),
        model: "opus-4-8".to_string(),
        system_prompt: String::new(),
        tools: vec![],
        constraint: None,
        reasoning: Reasoning::default(),
        stream: false,
    };

    let model = registry.resolve_model(&specialist).unwrap();
    assert_eq!(model.id, "opus-4-8");
    assert_eq!(model.api, Api::AnthropicMessages);
}

#[test]
fn domain_complete_options_carry_reasoning_and_constraint_as_tool_choice() {
    let specialist = Specialist {
        name: "classifier".to_string(),
        provider: "anthropic".to_string(),
        model: "opus-4-8".to_string(),
        system_prompt: String::new(),
        tools: vec![],
        constraint: Some("classify".to_string()),
        reasoning: Reasoning::Low,
        stream: false,
    };
    let opts = specialist.complete_options();
    assert_eq!(opts.tool_choice.as_deref(), Some("classify"));
    assert_eq!(opts.reasoning, Reasoning::Low);

    // No constraint -> the model chooses.
    let unconstrained = Specialist {
        constraint: None,
        ..specialist
    };
    assert_eq!(unconstrained.complete_options().tool_choice, None);
}

#[test]
fn domain_tests_complete_options_carry_reasoning_and_constraint_as_tool_choice() {
    let specialist = Specialist {
        name: "classifier".to_string(),
        provider: "anthropic".to_string(),
        model: "opus-4-8".to_string(),
        system_prompt: String::new(),
        tools: vec![],
        constraint: Some("classify".to_string()),
        reasoning: Reasoning::Low,
        stream: false,
    };
    let opts = specialist.complete_options();
    assert_eq!(opts.tool_choice.as_deref(), Some("classify"));
    assert_eq!(opts.reasoning, Reasoning::Low);

    // No constraint -> the model chooses.
    let unconstrained = Specialist {
        constraint: None,
        ..specialist
    };
    assert_eq!(unconstrained.complete_options().tool_choice, None);
}

#[test]
fn domain_validate_rejects_both_tools_and_constraint() {
    let mut specialist = Specialist {
        name: "x".to_string(),
        provider: "anthropic".to_string(),
        model: "opus-4-8".to_string(),
        system_prompt: String::new(),
        tools: vec!["a".to_string()],
        constraint: Some("a".to_string()),
        reasoning: Reasoning::Off,
        stream: false,
    };
    assert!(specialist.validate().is_err());

    // Tools only is fine.
    specialist.constraint = None;
    assert!(specialist.validate().is_ok());

    // Constraint only is fine.
    specialist.tools = vec![];
    specialist.constraint = Some("a".to_string());
    assert!(specialist.validate().is_ok());

    // A constraint with reasoning on is rejected.
    specialist.reasoning = Reasoning::High;
    let err = specialist.validate().unwrap_err();
    assert!(err.contains("incompatible with reasoning"));

    // The same reasoning without a constraint is fine.
    specialist.constraint = None;
    assert!(specialist.validate().is_ok());
}

#[test]
fn domain_tests_validate_rejects_both_tools_and_constraint() {
    let mut specialist = Specialist {
        name: "x".to_string(),
        provider: "anthropic".to_string(),
        model: "opus-4-8".to_string(),
        system_prompt: String::new(),
        tools: vec!["a".to_string()],
        constraint: Some("a".to_string()),
        reasoning: Reasoning::Off,
        stream: false,
    };
    assert!(specialist.validate().is_err());

    // Tools only is fine.
    specialist.constraint = None;
    assert!(specialist.validate().is_ok());

    // Constraint only is fine.
    specialist.tools = vec![];
    specialist.constraint = Some("a".to_string());
    assert!(specialist.validate().is_ok());

    // A constraint with reasoning on is rejected.
    specialist.reasoning = Reasoning::High;
    let err = specialist.validate().unwrap_err();
    assert!(err.contains("incompatible with reasoning"));

    // The same reasoning without a constraint is fine.
    specialist.constraint = None;
    assert!(specialist.validate().is_ok());
}

#[test]
fn domain_tool_names_prefers_the_constraint_when_set() {
    let mut specialist = Specialist {
        name: "x".to_string(),
        provider: "anthropic".to_string(),
        model: "opus-4-8".to_string(),
        system_prompt: String::new(),
        tools: vec!["a".to_string(), "b".to_string()],
        constraint: None,
        reasoning: Reasoning::Off,
        stream: false,
    };
    assert_eq!(specialist.tool_names(), ["a".to_string(), "b".to_string()]);

    specialist.tools = vec![];
    specialist.constraint = Some("forced".to_string());
    assert_eq!(specialist.tool_names(), ["forced".to_string()]);
}

#[test]
fn domain_tests_tool_names_prefers_the_constraint_when_set() {
    let mut specialist = Specialist {
        name: "x".to_string(),
        provider: "anthropic".to_string(),
        model: "opus-4-8".to_string(),
        system_prompt: String::new(),
        tools: vec!["a".to_string(), "b".to_string()],
        constraint: None,
        reasoning: Reasoning::Off,
        stream: false,
    };
    assert_eq!(specialist.tool_names(), ["a".to_string(), "b".to_string()]);

    specialist.tools = vec![];
    specialist.constraint = Some("forced".to_string());
    assert_eq!(specialist.tool_names(), ["forced".to_string()]);
}

#[test]
fn domain_resolve_model_reports_a_missing_provider() {
    let registry = Registry::default();
    let specialist = Specialist {
        name: "x".to_string(),
        provider: "ghost".to_string(),
        model: "nope".to_string(),
        system_prompt: String::new(),
        tools: vec![],
        constraint: None,
        reasoning: Reasoning::default(),
        stream: false,
    };
    assert_eq!(
        registry.resolve_model(&specialist),
        Err("unknown provider: ghost".to_string())
    );
}

#[test]
fn domain_tests_resolve_model_reports_a_missing_provider() {
    let registry = Registry::default();
    let specialist = Specialist {
        name: "x".to_string(),
        provider: "ghost".to_string(),
        model: "nope".to_string(),
        system_prompt: String::new(),
        tools: vec![],
        constraint: None,
        reasoning: Reasoning::default(),
        stream: false,
    };
    assert_eq!(
        registry.resolve_model(&specialist),
        Err("unknown provider: ghost".to_string())
    );
}

#[test]
fn domain_missing_model_ref_flags_an_undefined_provider() {
    let registry = populated_registry();
    assert_eq!(missing_provider(&registry, "anthropic"), None);
    assert_eq!(
        missing_provider(&registry, "ghost"),
        Some(MissingRef {
            kind: EntityKind::Provider,
            name: "ghost".to_string(),
        })
    );
}

#[test]
fn domain_tests_missing_model_ref_flags_an_undefined_provider() {
    let registry = populated_registry();
    assert_eq!(missing_provider(&registry, "anthropic"), None);
    assert_eq!(
        missing_provider(&registry, "ghost"),
        Some(MissingRef {
            kind: EntityKind::Provider,
            name: "ghost".to_string(),
        })
    );
}

#[test]
fn domain_missing_specialist_ref_reports_provider_then_model_then_tool() {
    let registry = populated_registry();
    // The caller supplies the tool names the folder holds; here only "ping".
    let tools = vec!["ping".to_string()];
    // Everything present: no missing reference.
    assert_eq!(
        registry.missing_specialist_ref(&spec("anthropic", "opus", vec!["ping".into()], None), &tools),
        None
    );
    // Provider is checked first.
    assert_eq!(
        registry.missing_specialist_ref(&spec("ghost", "nope", vec!["absent".into()], None), &tools),
        Some(MissingRef {
            kind: EntityKind::Provider,
            name: "ghost".to_string(),
        })
    );
    // Then model.
    assert_eq!(
        registry.missing_specialist_ref(&spec("anthropic", "nope", vec![], None), &tools),
        Some(MissingRef {
            kind: EntityKind::Model,
            name: "nope".to_string(),
        })
    );
    // Then tools — including a constrained tool.
    assert_eq!(
        registry.missing_specialist_ref(&spec("anthropic", "opus", vec![], Some("forced".into())), &tools),
        Some(MissingRef {
            kind: EntityKind::Tool,
            name: "forced".to_string(),
        })
    );
}

#[test]
fn domain_tests_missing_specialist_ref_reports_provider_then_model_then_tool() {
    let registry = populated_registry();
    // The caller supplies the tool names the folder holds; here only "ping".
    let tools = vec!["ping".to_string()];
    // Everything present: no missing reference.
    assert_eq!(
        registry.missing_specialist_ref(&spec("anthropic", "opus", vec!["ping".into()], None), &tools),
        None
    );
    // Provider is checked first.
    assert_eq!(
        registry.missing_specialist_ref(&spec("ghost", "nope", vec!["absent".into()], None), &tools),
        Some(MissingRef {
            kind: EntityKind::Provider,
            name: "ghost".to_string(),
        })
    );
    // Then model.
    assert_eq!(
        registry.missing_specialist_ref(&spec("anthropic", "nope", vec![], None), &tools),
        Some(MissingRef {
            kind: EntityKind::Model,
            name: "nope".to_string(),
        })
    );
    // Then tools — including a constrained tool.
    assert_eq!(
        registry.missing_specialist_ref(&spec("anthropic", "opus", vec![], Some("forced".into())), &tools),
        Some(MissingRef {
            kind: EntityKind::Tool,
            name: "forced".to_string(),
        })
    );
}

#[test]
fn domain_referrers_lists_specialists_before_models_sorted() {
    let mut registry = populated_registry();
    registry.specialists.insert(
        "spec".into(),
        spec("anthropic", "opus", vec!["ping".into()], None),
    );

    // A provider is referenced by the specialist and the model under it.
    assert_eq!(
        registry.referrers(EntityKind::Provider, "anthropic"),
        vec![
            Referrer {
                kind: EntityKind::Specialist,
                name: "spec".to_string()
            },
            Referrer {
                kind: EntityKind::Model,
                name: "opus".to_string()
            },
        ]
    );
    assert_eq!(
        registry.referrers(EntityKind::Model, "opus"),
        vec![Referrer {
            kind: EntityKind::Specialist,
            name: "spec".to_string()
        }]
    );
    assert_eq!(
        registry.referrers(EntityKind::Tool, "ping"),
        vec![Referrer {
            kind: EntityKind::Specialist,
            name: "spec".to_string()
        }]
    );
    // An unreferenced name has none.
    assert!(registry
        .referrers(EntityKind::Provider, "openai")
        .is_empty());
}

#[test]
fn domain_tests_referrers_lists_specialists_before_models_sorted() {
    let mut registry = populated_registry();
    registry.specialists.insert(
        "spec".into(),
        spec("anthropic", "opus", vec!["ping".into()], None),
    );

    // A provider is referenced by the specialist and the model under it.
    assert_eq!(
        registry.referrers(EntityKind::Provider, "anthropic"),
        vec![
            Referrer {
                kind: EntityKind::Specialist,
                name: "spec".to_string()
            },
            Referrer {
                kind: EntityKind::Model,
                name: "opus".to_string()
            },
        ]
    );
    assert_eq!(
        registry.referrers(EntityKind::Model, "opus"),
        vec![Referrer {
            kind: EntityKind::Specialist,
            name: "spec".to_string()
        }]
    );
    assert_eq!(
        registry.referrers(EntityKind::Tool, "ping"),
        vec![Referrer {
            kind: EntityKind::Specialist,
            name: "spec".to_string()
        }]
    );
    // An unreferenced name has none.
    assert!(registry
        .referrers(EntityKind::Provider, "openai")
        .is_empty());
}

#[test]
fn rekey_provider_keeps_the_key_and_takes_the_edit() {
    let mut reg = populated_registry();
    let mut edited = anthropic_provider();
    edited.base_url = "https://example.test".to_string();
    reg.rekey_provider("anthropic", edited);
    assert_eq!(reg.providers.len(), 1);
    assert_eq!(reg.providers.get("anthropic").unwrap().base_url, "https://example.test");
}

#[test]
fn rekey_model_moves_the_entry_to_its_new_id() {
    let mut reg = populated_registry();
    let edited = ModelDef {
        id: "opus-4".to_string(),
        name: "Opus".to_string(),
        provider: "anthropic".to_string(),
        max_tokens: 1024,
        context_window: 200_000,
    };
    reg.rekey_model("opus", edited);
    assert!(!reg.models.contains_key("opus"));
    assert!(reg.models.contains_key("opus-4"));
    assert_eq!(reg.models.len(), 1);
}

#[test]
fn rekey_specialist_moves_a_valid_edit_to_its_new_name() {
    let mut reg = populated_registry();
    let mut original = spec("anthropic", "opus", vec![], None);
    original.name = "classifier".to_string();
    reg.specialists.insert("classifier".to_string(), original);
    let mut edited = spec("anthropic", "opus", vec![], None);
    edited.name = "sorter".to_string();
    assert_eq!(reg.rekey_specialist("classifier", edited), Ok(()));
    assert!(!reg.specialists.contains_key("classifier"));
    assert!(reg.specialists.contains_key("sorter"));
}

#[test]
fn rekey_specialist_refuses_tools_with_a_constraint_and_changes_nothing() {
    let mut reg = populated_registry();
    let mut original = spec("anthropic", "opus", vec![], None);
    original.name = "classifier".to_string();
    reg.specialists.insert("classifier".to_string(), original);
    let mut edited = spec("anthropic", "opus", vec!["a".to_string()], Some("a".to_string()));
    edited.name = "classifier".to_string();
    let err = reg.rekey_specialist("classifier", edited).unwrap_err();
    assert!(err.contains("tools and a constraint"), "{err}");
    assert_eq!(reg.specialists.len(), 1);
    let kept = reg.specialists.get("classifier").unwrap();
    assert!(kept.tools.is_empty());
    assert_eq!(kept.constraint, None);
}
