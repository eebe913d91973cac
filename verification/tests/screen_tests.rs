use spawningpool::ai::{Api, Reasoning};
use spawningpool::domain::{ModelDef, ProviderDef, Registry, Specialist};
use spawningpool::screen::{centered_rect, footer_hints, help_lines, help_popup, row_label, tab_label, Area};
use spawningpool::tui::{App, Key, KeyCode, Mode, Tab};

fn key(c: char) -> Key {
    Key { code: KeyCode::Char(c), ctrl: false }
}

fn code(c: KeyCode) -> Key {
    Key { code: c, ctrl: false }
}

fn provider(name: &str) -> ProviderDef {
    ProviderDef {
        name: name.to_string(),
        api: Api::AnthropicMessages,
        base_url: "https://api.anthropic.com".to_string(),
        api_key_env: Some("ANTHROPIC_API_KEY".to_string()),
        constrained_decoding: false,
    }
}

fn model(id: &str, provider: &str) -> ModelDef {
    ModelDef {
        id: id.to_string(),
        name: id.to_string(),
        provider: provider.to_string(),
        max_tokens: 4096,
        context_window: 200_000,
    }
}

fn specialist(name: &str) -> Specialist {
    Specialist {
        name: name.to_string(),
        provider: "anthropic".to_string(),
        model: "opus".to_string(),
        system_prompt: String::new(),
        tools: Vec::new(),
        constraint: None,
        reasoning: Reasoning::Off,
        stream: false,
    }
}

/// A registry with two providers, two models under `anthropic`, and three
/// specialists, plus a couple of tool names.
fn sample() -> App {
    let mut registry = Registry::default();
    registry
        .providers
        .insert("anthropic".into(), provider("anthropic"));
    registry
        .providers
        .insert("lmstudio".into(), provider("lmstudio"));
    registry
        .models
        .insert("opus-1".into(), model("opus-1", "anthropic"));
    registry
        .models
        .insert("haiku-1".into(), model("haiku-1", "anthropic"));
    for name in ["summarizer", "classifier", "router"] {
        registry.specialists.insert(name.into(), specialist(name));
    }
    App::new(registry, vec!["deploy".into(), "ping".into()])
}


/// The text of the screen's pieces for `app`: the tab bar, the header line,
/// the list rows (or the empty hint), the footer hints and, over them, the
/// help lines when help is open.
fn screen_text(app: &App) -> String {
    let mut out = String::new();
    for tab in [Tab::Providers, Tab::Specialists, Tab::Tools] {
        out.push_str(&tab_label(tab, tab == app.tab()));
    }
    out.push('\n');
    out.push_str(&app.header_text());
    out.push('\n');
    let items = app.items();
    if items.is_empty() {
        out.push_str(&app.empty_hint());
        out.push('\n');
    }
    for (i, name) in items.iter().enumerate() {
        out.push_str(&row_label(i == app.selected(), name));
        out.push('\n');
    }
    for (k, label) in footer_hints(app.mode()) {
        out.push_str(&format!(" {k}  {label}  "));
    }
    out.push('\n');
    if app.mode() == &Mode::Help {
        out.push_str(" help \n");
        for line in help_lines() {
            out.push_str(line);
            out.push('\n');
        }
    }
    out
}

fn check_specialists_view_is_the_default() {
    let app = sample();
    let shot = screen_text(&app);
    // Active tab bracketed; the three specialists listed; selection gutter.
    assert!(shot.contains("[Specialists]"), "{shot}");
    assert!(shot.contains("> classifier"), "{shot}");
    assert!(shot.contains("router"));
    assert!(shot.contains("summarizer"));
    // Footer hints are always on (the row starts with the tab-switch keys).
    assert!(shot.contains("p/s/t"), "{shot}");
}

#[test]
fn render_specialists_view_is_the_default() {
    check_specialists_view_is_the_default();
}

#[test]
fn render_tests_specialists_view_is_the_default() {
    check_specialists_view_is_the_default();
}

fn check_drilling_into_a_provider_shows_its_models() {
    let mut app = sample();
    app.on_key(key('p'));
    app.on_key(key('l'));
    let shot = screen_text(&app);
    assert!(shot.contains("Providers \u{203a} anthropic"), "{shot}");
    assert!(shot.contains("haiku-1"), "{shot}");
    assert!(shot.contains("opus-1"), "{shot}");
}

#[test]
fn render_drilling_into_a_provider_shows_its_models() {
    check_drilling_into_a_provider_shows_its_models();
}

#[test]
fn render_tests_drilling_into_a_provider_shows_its_models() {
    check_drilling_into_a_provider_shows_its_models();
}

fn check_search_prompt_renders_filter() {
    let mut app = sample();
    app.on_key(key('/'));
    for c in "rou".chars() {
        app.on_key(key(c));
    }
    let shot = screen_text(&app);
    assert!(shot.contains("/rou"), "{shot}");
    assert!(shot.contains("> router"), "{shot}");
    assert!(!shot.contains("classifier"), "{shot}");
}

#[test]
fn render_search_prompt_renders_filter() {
    check_search_prompt_renders_filter();
}

#[test]
fn render_tests_search_prompt_renders_filter() {
    check_search_prompt_renders_filter();
}

fn check_delete_confirm_prompt_renders() {
    let mut app = sample();
    app.on_key(key('d'));
    let shot = screen_text(&app);
    assert!(shot.contains("delete 'classifier'? (y/n)"), "{shot}");
}

#[test]
fn render_delete_confirm_prompt_renders() {
    check_delete_confirm_prompt_renders();
}

#[test]
fn render_tests_delete_confirm_prompt_renders() {
    check_delete_confirm_prompt_renders();
}

fn check_help_overlay_renders_bindings() {
    let mut app = sample();
    app.on_key(key('?'));
    let shot = screen_text(&app);
    assert!(shot.contains("help"), "{shot}");
    assert!(shot.contains("edit in $EDITOR"), "{shot}");
}

#[test]
fn render_help_overlay_renders_bindings() {
    check_help_overlay_renders_bindings();
}

#[test]
fn render_tests_help_overlay_renders_bindings() {
    check_help_overlay_renders_bindings();
}

fn check_empty_level_shows_onboarding_hint() {
    let app = App::new(Registry::default(), Vec::new());
    let shot = screen_text(&app);
    assert!(shot.contains("No specialists yet"), "{shot}");
}

#[test]
fn render_empty_level_shows_onboarding_hint() {
    check_empty_level_shows_onboarding_hint();
}

#[test]
fn render_tests_empty_level_shows_onboarding_hint() {
    check_empty_level_shows_onboarding_hint();
}

#[test]
fn header_carries_the_filter_and_the_status() {
    let mut app = sample();
    app.on_key(key('/'));
    for c in "rou".chars() {
        app.on_key(key(c));
    }
    app.on_key(code(KeyCode::Enter));
    assert_eq!(app.header_text(), "Specialists  (filter: rou)");
    app.on_key(key('r'));
    assert_eq!(app.header_text(), "rename \u{203a} router");
    app.on_key(code(KeyCode::Esc));
    app.on_key(key('a'));
    assert_eq!(app.header_text(), "add \u{203a} ");
}

#[test]
fn labels_and_hints_are_exact() {
    assert_eq!(tab_label(Tab::Tools, true), "[Tools]");
    assert_eq!(tab_label(Tab::Tools, false), " Tools ");
    assert_eq!(row_label(true, "x"), "> x");
    assert_eq!(row_label(false, "x"), "  x");
    assert_eq!(
        footer_hints(&Mode::ConfirmDelete),
        vec![
            ("y".to_string(), "delete".to_string()),
            ("n".to_string(), "keep".to_string())
        ]
    );
    assert_eq!(footer_hints(&Mode::Normal).len(), 11);
    assert_eq!(help_lines().len(), 16);
}

#[test]
fn the_help_overlay_is_centered_and_clamped() {
    let area = Area { x: 0, y: 0, width: 64, height: 16 };
    assert_eq!(help_popup(area), Area { x: 0, y: 0, width: 64, height: 16 });
    let wide = Area { x: 2, y: 1, width: 100, height: 40 };
    assert_eq!(help_popup(wide), Area { x: 20, y: 12, width: 64, height: 18 });
    assert_eq!(
        centered_rect(10, 4, Area { x: 0, y: 0, width: 6, height: 2 }),
        Area { x: 0, y: 0, width: 10, height: 4 }
    );
}
