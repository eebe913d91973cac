use spawningpool::ai::{Api, Reasoning};
use spawningpool::counter::{Counter, Message};
use spawningpool::domain::{ModelDef, ProviderDef, Registry, Specialist};
use spawningpool::snapshot::{load_snapshot, show_entity, Shown};

#[test]
fn list_entities_reads_an_empty_registry() {
    let snapshot = load_snapshot(&Registry::default(), Vec::new(), "/tmp/r.json".into());
    assert!(snapshot.providers.is_empty());
    assert!(snapshot.models.is_empty());
    assert!(snapshot.specialists.is_empty());
    assert!(snapshot.tools.is_empty());
}

#[test]
fn list_entities_reads_a_populated_registry() {
    let mut reg = Registry::default();
    for name in ["zeta", "anthropic"] {
        reg.providers.insert(
            name.into(),
            ProviderDef {
                name: name.into(),
                api: Api::AnthropicMessages,
                base_url: "https://api.anthropic.com".into(),
                api_key_env: Some("ANTHROPIC_API_KEY".into()),
                constrained_decoding: false,
            },
        );
    }
    reg.models.insert(
        "opus".into(),
        ModelDef {
            id: "opus".into(),
            name: "Opus".into(),
            provider: "anthropic".into(),
            max_tokens: 1024,
            context_window: 200_000,
        },
    );
    reg.specialists.insert(
        "s".into(),
        Specialist {
            name: "s".into(),
            provider: "anthropic".into(),
            model: "opus".into(),
            system_prompt: String::new(),
            tools: vec![],
            constraint: None,
            reasoning: Reasoning::Off,
            stream: false,
        },
    );
    let snapshot = load_snapshot(&reg, vec!["ping".into(), "deploy".into()], "/r.json".into());
    assert_eq!(snapshot.providers, vec!["anthropic", "zeta"]);
    assert_eq!(snapshot.models, vec!["opus"]);
    assert_eq!(snapshot.specialists, vec!["s"]);
    assert_eq!(snapshot.tools, vec!["deploy", "ping"]);
    assert_eq!(snapshot.registry_path, "/r.json");
}

#[test]
fn counter_steps_up_and_down() {
    let mut c = Counter::default();
    c.update(Message::Increment);
    c.update(Message::Increment);
    c.update(Message::Decrement);
    assert_eq!(c.value, 1);
}

#[test]
fn show_entity_returns_provider_definition() {
    let mut reg = Registry::default();
    reg.providers.insert(
        "anthropic".into(),
        ProviderDef {
            name: "anthropic".into(),
            api: Api::AnthropicMessages,
            base_url: "https://api.anthropic.com".into(),
            api_key_env: None,
            constrained_decoding: false,
        },
    );
    match show_entity(&reg, &Vec::new(), "provider", "anthropic").unwrap() {
        Shown::Provider(def) => assert_eq!(def.name, "anthropic"),
        other => panic!("expected a provider, got {other:?}"),
    }
}

#[test]
fn show_entity_returns_error_for_missing_provider() {
    let err = show_entity(&Registry::default(), &Vec::new(), "provider", "ghost").unwrap_err();
    assert!(err.contains("no such provider ghost"), "got: {err}");
}

#[test]
fn show_entity_returns_error_for_unknown_kind() {
    let err = show_entity(&Registry::default(), &Vec::new(), "bogus", "x").unwrap_err();
    assert!(err.contains("unknown entity kind"), "got: {err}");
}

#[test]
fn show_entity_returns_model_definition() {
    let mut reg = Registry::default();
    reg.models.insert(
        "sonnet-3-5".into(),
        ModelDef {
            id: "sonnet-3-5".into(),
            name: "Sonnet 3.5".into(),
            provider: "anthropic".into(),
            max_tokens: 8192,
            context_window: 200_000,
        },
    );
    match show_entity(&reg, &Vec::new(), "model", "sonnet-3-5").unwrap() {
        Shown::Model(def) => assert_eq!(def.name, "Sonnet 3.5"),
        other => panic!("expected a model, got {other:?}"),
    }
}

#[test]
fn show_entity_returns_error_for_missing_model() {
    let err = show_entity(&Registry::default(), &Vec::new(), "model", "ghost").unwrap_err();
    assert!(err.contains("no such model ghost"), "got: {err}");
}

#[test]
fn show_entity_returns_specialist_definition() {
    let mut reg = Registry::default();
    reg.specialists.insert(
        "summarizer".into(),
        Specialist {
            name: "summarizer".into(),
            provider: "anthropic".into(),
            model: "sonnet-3-5".into(),
            system_prompt: "Summarize the input.".into(),
            tools: vec![],
            constraint: None,
            reasoning: Reasoning::Off,
            stream: false,
        },
    );
    match show_entity(&reg, &Vec::new(), "specialist", "summarizer").unwrap() {
        Shown::Specialist(def) => assert_eq!(def.name, "summarizer"),
        other => panic!("expected a specialist, got {other:?}"),
    }
}

#[test]
fn show_entity_returns_error_for_missing_specialist() {
    let err = show_entity(&Registry::default(), &Vec::new(), "specialist", "ghost").unwrap_err();
    assert!(err.contains("no such specialist ghost"), "got: {err}");
}

#[test]
fn show_entity_names_a_tool_the_folder_holds() {
    match show_entity(&Registry::default(), &vec!["deploy".to_string(), "ping".to_string()], "tool", "ping").unwrap() {
        Shown::Tool(name) => assert_eq!(name, "ping"),
        other => panic!("expected a tool, got {other:?}"),
    }
}

#[test]
fn show_entity_reports_a_tool_the_folder_lacks() {
    let err = show_entity(&Registry::default(), &vec!["deploy".to_string()], "tool", "ping").unwrap_err();
    assert_eq!(err, "no such tool ping");
}

#[test]
fn find_tool_gives_the_first_position_of_a_name() {
    let names = vec!["a".to_string(), "ping".to_string(), "ping".to_string()];
    assert_eq!(spawningpool::domain::find_tool(&names, "ping"), Some(1));
    assert_eq!(spawningpool::domain::find_tool(&names, "pong"), None);
    assert_eq!(spawningpool::domain::find_tool(&Vec::new(), "ping"), None);
}
