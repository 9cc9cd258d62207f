use lpagent::tui::geometry::{
    bottom_popup_area, centered_popup_size, composer_popup_area, onboarding_popup_area, overlay_block_title,
    OverlayLimits, Rect,
};
use lpagent::tui::panels::{model_items, preset_items, session_items, thinking_items, ModelListEntry, PresetListEntry, SessionListEntry, ThinkingListEntry};
use lpagent::tui::provider::{build_validation_provider, normalize_openai_base_url, ProviderFamily};
use lpagent::tui::render::{Span, StyleRole};
use lpagent::tui::rollout::{
    config_is_redactable, config_panel_text, format_system_time, missing_config_text, redact_config,
    rollout_session_entry, sort_sessions, RolloutRecord,
};
use lpagent::tui::worker::session_list_entry;
use lpagent::server::approval::SessionId;
use lpagent::tui::theme::{composer_border, menu_surface, overlay_border, rgb_of, style_of, Color, Shade, Style};
use lpagent::tui::transcript::TranscriptItemKind;

fn limits() -> OverlayLimits {
    OverlayLimits {
        min_width: 40,
        max_width: 100,
        max_text_height: 12,
        max_list_height: 16,
        brand_header_height: 3,
        onboarding_width: 80,
        max_onboarding_list_height: 20,
    }
}

#[test]
fn openai_base_url_gets_v1_only_without_path() {
    assert_eq!(normalize_openai_base_url("https://api.openai.com"), "https://api.openai.com/v1");
    assert_eq!(normalize_openai_base_url("https://api.openai.com///"), "https://api.openai.com/v1");
    assert_eq!(normalize_openai_base_url("https://openrouter.ai/api/v1/"), "https://openrouter.ai/api/v1");
    assert_eq!(normalize_openai_base_url("localhost:1234/"), "localhost:1234");
}

#[test]
fn validation_provider_needs_keys_where_required() {
    let e = build_validation_provider(ProviderFamily::Openai, None, None).unwrap();
    assert_eq!(e.base_url, "https://api.openai.com/v1");
    assert!(e.api_key.is_none());
    let e = build_validation_provider(ProviderFamily::Anthropic, None, Some("k".into())).unwrap();
    assert_eq!(e.base_url, "https://api.anthropic.com");
    assert_eq!(e.api_key.as_deref(), Some("k"));
    let e = build_validation_provider(ProviderFamily::Google, Some("http://g".into()), Some("k".into())).unwrap();
    assert_eq!(e.base_url, "http://g");
    assert_eq!(
        build_validation_provider(ProviderFamily::Anthropic, None, None).unwrap_err(),
        "anthropic provider requires an API key"
    );
    assert_eq!(
        build_validation_provider(ProviderFamily::Google, None, None).unwrap_err(),
        "google provider requires an API key"
    );
}

#[test]
fn popups_keep_within_their_limits() {
    let base = Rect { x: 2, y: 1, width: 120, height: 30 };
    let r = bottom_popup_area(base, 50, 3, &limits());
    assert_eq!(r, Rect { x: 22, y: 15, width: 100, height: 16 });
    let r = bottom_popup_area(Rect { x: 0, y: 0, width: 20, height: 3 }, 1, 0, &limits());
    assert_eq!(r, Rect { x: 0, y: 0, width: 40, height: 4 });
    let r = composer_popup_area(base, Rect { x: 5, y: 25, width: 60, height: 3 }, 8, 0, &limits());
    assert_eq!(r, Rect { x: 5, y: 17, width: 60, height: 8 });
    assert_eq!(centered_popup_size(base, 100, 0, &limits()), (100, 12));
    let r = onboarding_popup_area(Rect { x: 1, y: 2, width: 200, height: 10 }, 4, &limits());
    assert_eq!(r, Rect { x: 1, y: 5, width: 80, height: 8 });
    assert_eq!(overlay_block_title("Models", false), " Models ");
    assert_eq!(overlay_block_title("Models", true), " Esc back ");
    assert_eq!(overlay_block_title("", false), " Esc back ");
}

fn texts(items: &[Vec<Vec<Span>>]) -> Vec<Vec<String>> {
    items
        .iter()
        .map(|item| item.iter().map(|l| l.iter().map(|s| s.text.as_str()).collect::<String>()).collect())
        .collect()
}

#[test]
fn list_items_show_entries() {
    assert_eq!(texts(&session_items(&[])), vec![vec!["No saved sessions found.".to_string()]]);
    let s = [SessionListEntry { session_id: "id".into(), title: "T".into(), updated_at: "now".into(), is_active: true }];
    assert_eq!(texts(&session_items(&s)), vec![vec!["T  [current]".to_string(), "id  now".to_string()]]);
    let m = [ModelListEntry {
        slug: "m".into(),
        display_name: "M".into(),
        provider: ProviderFamily::Openai,
        description: None,
        is_current: true,
        is_builtin: false,
        is_custom_mode: false,
    }];
    assert_eq!(texts(&model_items(&m, false)), vec![vec!["M  current".to_string(), "saved model".to_string()]]);
    assert_eq!(model_items(&m, false)[0][0][0].style, StyleRole::Bold);
    assert_eq!(texts(&model_items(&m, true)), vec![vec!["M  current".to_string(), "".to_string()]]);
    assert_eq!(texts(&model_items(&[], true)), vec![vec!["No models available.".to_string()]]);
    let p = [PresetListEntry {
        id: "o".into(),
        display_name: "OpenAI".into(),
        description: "d".into(),
        default_base_url: None,
        is_current: false,
    }];
    assert_eq!(texts(&preset_items(&p)), vec![vec!["OpenAI".to_string(), "d".to_string()]]);
    let t = [ThinkingListEntry { label: "High".into(), value: "high".into(), description: "x".into(), is_current: true }];
    assert_eq!(texts(&thinking_items(&t)), vec![vec!["High  current  [high]".to_string(), "x".to_string()]]);
    assert_eq!(texts(&thinking_items(&[])), vec![vec!["No thinking options available.".to_string()]]);
}

#[test]
fn config_keys_are_masked_to_last_four() {
    let raw = "model = \"m\"\n  api_key = \"sk-or-v1-abcdefg\"\napi_key=\"abc\"\napi_key_note";
    assert!(config_is_redactable(raw));
    assert_eq!(
        redact_config(raw),
        "model = \"m\"\n  api_key = \"***defg\"\napi_key= \"****\"\napi_key_note"
    );
    assert_eq!(config_panel_text("a", "/p"), "a\n\n(path: /p)");
    assert_eq!(missing_config_text("/p"), "(no config.toml at /p)\n\nRun /configure to create one.");
    assert!(!config_is_redactable("api_key = \"aé€€\""));
}

#[test]
fn session_entries_come_from_records() {
    let records = vec![
        RolloutRecord::SessionMeta { id: Some("s1".into()), title: Some("first".into()), updated_at: Some("t1".into()) },
        RolloutRecord::Other,
        RolloutRecord::TitleUpdated { title: Some("renamed".into()), timestamp: Some("t2".into()) },
    ];
    let e = rollout_session_entry(&records, "fresh", Some("rollout-abc"), Some("unix 5"));
    assert_eq!((e.session_id.as_str(), e.title.as_str(), e.updated_at.as_str(), e.is_active), ("s1", "renamed", "t2", false));
    let e = rollout_session_entry(&[], "fresh", Some("rollout-abc"), None);
    assert_eq!((e.session_id.as_str(), e.title.as_str(), e.updated_at.as_str()), ("fresh", "abc", "(unknown)"));
    let e = rollout_session_entry(&[], "fresh", None, Some("unix 5"));
    assert_eq!((e.title.as_str(), e.updated_at.as_str()), ("(untitled)", "unix 5"));
    assert_eq!(format_system_time(Some(1700000000)), "unix 1700000000");
    assert_eq!(format_system_time(None), "(unknown)");
}

#[test]
fn sessions_sort_newest_first() {
    let e = |t: &str| SessionListEntry { session_id: t.into(), title: t.into(), updated_at: t.into(), is_active: false };
    let sorted = sort_sessions(vec![e("2024-01"), e("2026-05"), e("2025-03"), e("2026-05")]);
    let order: Vec<&str> = sorted.iter().map(|s| s.updated_at.as_str()).collect();
    assert_eq!(order, vec!["2026-05", "2026-05", "2025-03", "2024-01"]);
}

#[test]
fn session_list_entries_keep_title_before_identifier() {
    let updated_at = chrono::Utc::now().format("%Y-%m-%d %H:%M:%S UTC").to_string();
    let entry = session_list_entry(SessionId(7), "7", Some("Saved conversation".to_string()), &updated_at, Some(SessionId(7)));
    assert_eq!(entry.title, "Saved conversation");
    assert!(entry.updated_at.contains("UTC"));
}

#[test]
fn session_list_entries_mark_inactive_sessions() {
    let updated_at = chrono::Utc::now().format("%Y-%m-%d %H:%M:%S UTC").to_string();
    let entry = session_list_entry(SessionId(7), "7", Some("Saved conversation".to_string()), &updated_at, Some(SessionId(8)));
    assert!(!entry.is_active);
}

#[test]
fn theme_styles_roles() {
    assert_eq!(style_of(StyleRole::Muted), Style { fg: Some(Color::Shade(Shade::Slate500)), bg: None, bold: false });
    assert_eq!(style_of(StyleRole::PanelTitle), Style { fg: Some(Color::Shade(Shade::Slate500)), bg: None, bold: true });
    assert_eq!(
        style_of(StyleRole::Prefix(TranscriptItemKind::Error)),
        Style { fg: Some(Color::Shade(Shade::Red300)), bg: None, bold: true }
    );
    assert_eq!(rgb_of(Shade::Cyan300), (112, 211, 228));
    assert!(composer_border(true, true).bold);
    assert_eq!(composer_border(false, false).fg, Some(Color::Shade(Shade::Cyan600)));
    assert_eq!(composer_border(false, true).fg, Some(Color::Shade(Shade::Cyan300)));
}

#[test]
fn popup_surfaces_use_the_border_accent() {
    assert_eq!(overlay_border(), Style { fg: Some(Color::Shade(Shade::Cyan600)), bg: None, bold: false });
    assert_eq!(menu_surface(), Style { fg: None, bg: Some(Color::Shade(Shade::Surface)), bold: false });
}

#[test]
fn normalizing_a_base_url_twice_changes_nothing() {
    for url in ["https://api.openai.com/", "https://x.test/api/v1//", "localhost", "http://h:1"] {
        let once = normalize_openai_base_url(url);
        assert_eq!(normalize_openai_base_url(&once), once);
    }
}
