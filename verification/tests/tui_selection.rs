use lpagent::tui::commands::{
    parse_slash_command, reasoning_status, run_command, status_text, CommandEffect, CommandUi, SlashCommand,
};
use lpagent::tui::panels::{AuxPanel, AuxPanelContent, ModelListEntry, SessionListEntry, ThinkingListEntry};
use lpagent::tui::provider::{ProviderFamily, ProviderWireApi};
use lpagent::tui::selection::{
    model_panel, session_panel, text_panel, thinking_panel,
    current_config_summary, existing_api_key_for_preset, mask_with_suffix, preset_by_id,
    active_preset_id, configure_preset_entries, initial_selection, model_switch_entries,
    move_aux_panel_selection, onboarding_model_picker_entries, onboarding_provider_for_model,
    panel_accept_action, saved_model_entry, thinking_current, thinking_entries, upsert_saved_model,
    validate_model_provider_selection, check_model_switch, CatalogModel, PanelAccept, ProviderPreset, SavedModelEntry,
    ThinkingOption,
};

fn saved(model: &str, base_url: Option<&str>) -> SavedModelEntry {
    SavedModelEntry {
        model: model.to_string(),
        provider: ProviderFamily::Openai,
        wire_api: ProviderWireApi::OpenAIChatCompletions,
        base_url: base_url.map(str::to_string),
        api_key: None,
    }
}

fn catalog(slug: &str, provider: ProviderFamily) -> CatalogModel {
    CatalogModel {
        slug: slug.to_string(),
        display_name: slug.to_uppercase(),
        provider,
        description: Some(format!("{slug} model")),
    }
}

fn preset(id: &str, base: Option<&str>) -> ProviderPreset {
    ProviderPreset {
        id: id.to_string(),
        display_name: id.to_uppercase(),
        description: format!("{id} preset"),
        default_base_url: base.map(str::to_string),
        wire_api: ProviderWireApi::OpenAIChatCompletions,
        is_custom: false,
        slug_hint: "vendor/model".to_string(),
        api_key_env_vars: vec!["OPENAI_API_KEY".to_string()],
    }
}

fn slugs(entries: &[ModelListEntry]) -> Vec<&str> {
    entries.iter().map(|e| e.slug.as_str()).collect()
}

#[test]
fn switcher_lists_saved_models_then_add_entry() {
    let entries = model_switch_entries(
        &[saved("gpt-a", Some("https://x.test")), saved("gpt-b", None)],
        &[catalog("c1", ProviderFamily::Openai)],
        "gpt-b",
        ProviderFamily::Openai,
    );
    assert_eq!(slugs(&entries), vec!["gpt-a", "gpt-b", "__add_model__"]);
    assert_eq!(entries[0].description.as_deref(), Some("saved model from https://x.test"));
    assert!(!entries[0].is_current);
    assert!(entries[1].is_current);
    assert_eq!(entries[1].description, None);
    assert!(entries[2].is_custom_mode);
    assert_eq!(entries[2].display_name, "Add model");
}

#[test]
fn switcher_prepends_current_model_when_not_listed() {
    let entries = model_switch_entries(&[saved("gpt-a", None)], &[], "other", ProviderFamily::Google);
    assert_eq!(slugs(&entries), vec!["other", "gpt-a", "__add_model__"]);
    assert!(entries[0].is_current);
    assert_eq!(entries[0].description.as_deref(), Some("current model"));
    assert_eq!(entries[0].provider, ProviderFamily::Google);
}

#[test]
fn switcher_falls_back_to_catalog_then_current() {
    let entries = model_switch_entries(&[], &[catalog("c1", ProviderFamily::Anthropic)], "c1", ProviderFamily::Anthropic);
    assert_eq!(slugs(&entries), vec!["c1", "__add_model__"]);
    assert!(entries[0].is_builtin && entries[0].is_current);
    assert_eq!(entries[0].display_name, "C1");
    let only = model_switch_entries(&[], &[], "m", ProviderFamily::Openai);
    assert_eq!(slugs(&only), vec!["m", "__add_model__"]);
}

#[test]
fn onboarding_model_panel_includes_custom_entry() {
    let entries = onboarding_model_picker_entries(&[catalog("c1", ProviderFamily::Openai)], "x", ProviderFamily::Openai, true);
    assert_eq!(slugs(&entries), vec!["c1", "__custom__"]);
    assert!(entries.iter().any(|entry| entry.is_custom_mode));
    let outside = onboarding_model_picker_entries(&[catalog("c1", ProviderFamily::Openai)], "x", ProviderFamily::Openai, false);
    assert_eq!(slugs(&outside), vec!["x", "c1"]);
    let empty = onboarding_model_picker_entries(&[], "x", ProviderFamily::Openai, false);
    assert_eq!(slugs(&empty), vec!["x"]);
}

#[test]
fn active_preset_matches_saved_base_url() {
    let presets = [preset("openai", Some("https://api.openai.com")), preset("openrouter", Some("https://openrouter.ai"))];
    let s = [saved("m", Some("https://openrouter.ai/api/v1"))];
    assert_eq!(active_preset_id(&s, &presets, "m", ProviderFamily::Openai).as_deref(), Some("openrouter"));
    let s = [saved("m", Some("https://elsewhere.test"))];
    assert_eq!(active_preset_id(&s, &presets, "m", ProviderFamily::Openai).as_deref(), Some("custom"));
    assert_eq!(active_preset_id(&[], &presets, "m", ProviderFamily::Openai).as_deref(), Some("openai"));
    assert_eq!(active_preset_id(&[], &presets, "m", ProviderFamily::Anthropic).as_deref(), Some("anthropic"));
    assert_eq!(active_preset_id(&[], &presets, "m", ProviderFamily::Google).as_deref(), Some("google"));
}

#[test]
fn configure_presets_mark_active() {
    let presets = [preset("openai", None), preset("google", None)];
    let entries = configure_preset_entries(&presets, &Some("google".to_string()));
    assert_eq!(entries.len(), 2);
    assert!(!entries[0].is_current);
    assert!(entries[1].is_current);
    assert_eq!(entries[1].display_name, "GOOGLE");
    assert!(configure_preset_entries(&presets, &None).iter().all(|e| !e.is_current));
}

#[test]
fn saved_models_are_found_and_replaced() {
    let mut list = vec![saved("a", None), saved("b", None)];
    assert_eq!(saved_model_entry(&list, "b"), Some(1));
    assert_eq!(saved_model_entry(&list, "z"), None);
    upsert_saved_model(&mut list, saved("b", Some("u")));
    assert_eq!(list.len(), 2);
    assert_eq!(list[1].base_url.as_deref(), Some("u"));
    upsert_saved_model(&mut list, saved("c", None));
    assert_eq!(list.len(), 3);
    assert_eq!(list[2].model, "c");
}

#[test]
fn provider_choice_prefers_saved_then_catalog() {
    let list = vec![SavedModelEntry { provider: ProviderFamily::Google, ..saved("a", None) }];
    assert_eq!(onboarding_provider_for_model(&list, "a", Some(ProviderFamily::Anthropic), ProviderFamily::Openai), ProviderFamily::Google);
    assert_eq!(onboarding_provider_for_model(&list, "b", Some(ProviderFamily::Anthropic), ProviderFamily::Openai), ProviderFamily::Anthropic);
    assert_eq!(onboarding_provider_for_model(&list, "b", None, ProviderFamily::Openai), ProviderFamily::Openai);
    assert_eq!(validate_model_provider_selection(Some(ProviderFamily::Anthropic), ProviderFamily::Openai), Err(ProviderFamily::Anthropic));
    assert_eq!(validate_model_provider_selection(Some(ProviderFamily::Openai), ProviderFamily::Openai), Ok(()));
    assert_eq!(validate_model_provider_selection(None, ProviderFamily::Openai), Ok(()));
}

#[test]
fn thinking_entries_mark_current_by_value_or_label() {
    let options = [
        ThinkingOption { label: "Low".to_string(), value: "low".to_string(), description: "less".to_string() },
        ThinkingOption { label: "High".to_string(), value: "deep".to_string(), description: "more".to_string() },
    ];
    let current = thinking_current(Some("HIGH"), "low");
    assert_eq!(current, "high");
    let entries = thinking_entries(&options, &current);
    assert!(!entries[0].is_current);
    assert!(entries[1].is_current);
    assert_eq!(thinking_current(None, "low"), "low");
    assert!(thinking_entries(&options, "low")[0].is_current);
}

fn model_entry(slug: &str, custom: bool) -> ModelListEntry {
    ModelListEntry {
        slug: slug.to_string(),
        display_name: slug.to_string(),
        provider: ProviderFamily::Openai,
        description: None,
        is_current: false,
        is_builtin: false,
        is_custom_mode: custom,
    }
}

#[test]
fn accepting_entries_picks_the_action() {
    let models = AuxPanel {
        title: "Models".to_string(),
        content: AuxPanelContent::ModelList(vec![model_entry("a", false), model_entry("b", false), model_entry("__add_model__", true)]),
    };
    let list = vec![saved("b", None)];
    assert!(matches!(panel_accept_action(Some(&models), 0, true, false, false, &list), PanelAccept::SetModel(s) if s == "a"));
    assert!(matches!(panel_accept_action(Some(&models), 0, true, true, true, &list), PanelAccept::ProceedWithPresetModel(s) if s == "a"));
    assert!(matches!(panel_accept_action(Some(&models), 0, true, true, false, &list), PanelAccept::BeginModelCredentials(s) if s == "a"));
    assert!(matches!(panel_accept_action(Some(&models), 1, true, false, false, &list), PanelAccept::ReconfigureSaved(0)));
    assert!(matches!(panel_accept_action(Some(&models), 9, true, false, false, &list), PanelAccept::StartOnboarding));
    assert!(matches!(panel_accept_action(Some(&models), 9, true, true, false, &list), PanelAccept::BeginCustomModelOnboarding));
    assert!(matches!(panel_accept_action(Some(&models), 0, false, false, false, &list), PanelAccept::Ignored));
    assert!(matches!(panel_accept_action(None, 0, true, false, false, &list), PanelAccept::Ignored));
    let sessions = AuxPanel {
        title: "Sessions".to_string(),
        content: AuxPanelContent::SessionList(vec![SessionListEntry {
            session_id: "s1".to_string(),
            title: "t".to_string(),
            updated_at: "u".to_string(),
            is_active: false,
        }]),
    };
    assert!(matches!(panel_accept_action(Some(&sessions), 3, true, false, false, &[]), PanelAccept::SwitchSession(s) if s == "s1"));
    let thinking = AuxPanel {
        title: "Thinking".to_string(),
        content: AuxPanelContent::ThinkingList(vec![ThinkingListEntry {
            label: "High".to_string(),
            value: "high".to_string(),
            description: String::new(),
            is_current: false,
        }]),
    };
    assert!(matches!(panel_accept_action(Some(&thinking), 0, true, false, false, &[]),
        PanelAccept::SetThinking { value, label } if value == "high" && label == "High"));
    let text = AuxPanel { title: String::new(), content: AuxPanelContent::Text("x".to_string()) };
    assert!(matches!(panel_accept_action(Some(&text), 0, true, false, false, &[]), PanelAccept::Ignored));
    let empty = AuxPanel { title: String::new(), content: AuxPanelContent::ModelList(vec![]) };
    assert!(matches!(panel_accept_action(Some(&empty), 0, true, false, false, &[]), PanelAccept::Ignored));
}

#[test]
fn session_panel_selection_moves_with_up_and_down() {
    let entry = SessionListEntry {
        session_id: "s".to_string(),
        title: "t".to_string(),
        updated_at: "u".to_string(),
        is_active: false,
    };
    let panel = AuxPanel { title: "Sessions".to_string(), content: AuxPanelContent::SessionList(vec![entry.clone(), entry.clone(), entry]) };
    assert_eq!(move_aux_panel_selection(Some(&panel), 0, 1), 1);
    assert_eq!(move_aux_panel_selection(Some(&panel), 2, 1), 0);
    assert_eq!(move_aux_panel_selection(Some(&panel), 0, -1), 2);
    assert_eq!(move_aux_panel_selection(None, 4, 1), 0);
    assert_eq!(initial_selection(&[false, true, true]), 1);
    assert_eq!(initial_selection(&[false, false]), 0);
    assert_eq!(initial_selection(&[]), 0);
}

#[test]
fn slash_lines_parse_to_commands() {
    assert!(matches!(parse_slash_command("  /exit "), SlashCommand::Exit));
    assert!(matches!(parse_slash_command("/onboard"), SlashCommand::Configure));
    assert!(matches!(parse_slash_command("/rename"), SlashCommand::Usage(u) if u == "usage: /rename <new title>"));
    assert!(matches!(parse_slash_command("/rename   New  title "), SlashCommand::RenameSession(t) if t == "New  title"));
    assert!(matches!(parse_slash_command("/session"), SlashCommand::ListSessions));
    assert!(matches!(parse_slash_command("/session list"), SlashCommand::ListSessions));
    assert!(matches!(parse_slash_command("/session new"), SlashCommand::NewSession));
    assert!(matches!(parse_slash_command("/session switch"), SlashCommand::Usage(u) if u == "usage: /session switch <session_id>"));
    assert!(matches!(parse_slash_command("/session switch abc"), SlashCommand::SwitchSession(t) if t == "abc"));
    assert!(matches!(parse_slash_command("/session rename x y"), SlashCommand::RenameSession(t) if t == "x y"));
    assert!(matches!(parse_slash_command("/session abc"), SlashCommand::SessionArgument(t) if t == "abc"));
    assert!(matches!(parse_slash_command("/model"), SlashCommand::ShowModels));
    assert!(matches!(parse_slash_command("/model gpt"), SlashCommand::SetModel(t) if t == "gpt"));
    assert!(matches!(parse_slash_command("/unknown"), SlashCommand::Prompt));
    assert!(matches!(parse_slash_command("hello /exit"), SlashCommand::Prompt));
    assert_eq!(status_text(2, "m", 10, 20, false), "turns: 2\nmodel: m\ntokens: 10 in / 20 out\nbusy: false");
    assert_eq!(reasoning_status(true), "Reasoning blocks expanded");
}

#[test]
fn configure_does_not_reuse_key_from_a_different_provider() {
    let mut a = saved("m1", Some("https://openrouter.ai/api/v1"));
    a.api_key = Some("sk-or".to_string());
    let mut b = saved("m2", Some("https://api.openai.com"));
    b.api_key = Some("sk-oa".to_string());
    b.wire_api = ProviderWireApi::OpenAIResponses;
    let list = vec![a, b];
    let openrouter = preset("openrouter", Some("https://openrouter.ai/api/v1"));
    assert_eq!(existing_api_key_for_preset(&list, &openrouter).as_deref(), Some("sk-or"));
    let prefix_only = preset("openrouter-short", Some("https://openrouter.ai"));
    assert_eq!(existing_api_key_for_preset(&list, &prefix_only), None);
    let openai = preset("openai", Some("https://api.openai.com"));
    assert_eq!(existing_api_key_for_preset(&list, &openai), None);
    assert_eq!(existing_api_key_for_preset(&list, &preset("custom", None)), None);
}

#[test]
fn masked_api_key_shows_only_last_four_chars() {
    assert_eq!(mask_with_suffix("sk-or-v1-abcdefg"), "***defg");
    assert_eq!(mask_with_suffix("short"), "***hort");
    assert_eq!(mask_with_suffix("abc"), "****");
    assert_eq!(mask_with_suffix(""), "****");
}

#[test]
fn configure_prints_current_config_summary_on_start() {
    let mut s = saved("m", Some("https://x"));
    s.api_key = Some("sk-12345678".to_string());
    assert_eq!(
        current_config_summary("OpenAI", "m", &[s]),
        "Provider: OpenAI\nModel:    m\nBase URL: https://x\nAPI key:  ***5678"
    );
    assert_eq!(
        current_config_summary("OpenAI", "z", &[]),
        "Provider: OpenAI\nModel:    z\nBase URL: (default)\nAPI key:  (not set)"
    );
    let presets = [preset("a", None), preset("b", None)];
    assert_eq!(preset_by_id(&presets, "b"), Some(1));
    assert_eq!(preset_by_id(&presets, "c"), None);
}

#[test]
fn panels_open_on_the_current_entry() {
    let (p, k) = text_panel("Status", "body");
    assert_eq!((p.title.as_str(), k), ("Status", 0));
    let s = |active: bool| SessionListEntry { session_id: "s".into(), title: "t".into(), updated_at: "u".into(), is_active: active };
    let (p, k) = session_panel(vec![s(false), s(true)]);
    assert_eq!((p.title.as_str(), k), ("Sessions", 1));
    let (p, k) = model_panel("Models", vec![model_entry("a", false)]);
    assert_eq!((p.title.as_str(), k), ("Models", 0));
    let t = ThinkingListEntry { label: "L".into(), value: "v".into(), description: String::new(), is_current: true };
    let (p, k) = thinking_panel(vec![t.clone(), t]);
    assert_eq!((p.title.as_str(), k), ("Thinking", 0));
}

#[test]
fn slash_model_rejects_builtin_model_that_does_not_match_active_provider() {
    let model = match parse_slash_command("/model gpt-5.4") {
        SlashCommand::SetModel(m) => m,
        other => panic!("unexpected {other:?}"),
    };
    // The catalog ties gpt-5.4 to OpenAI; the provider in use is Anthropic.
    let failure = check_model_switch(&[], &model, Some(ProviderFamily::Openai), ProviderFamily::Anthropic).unwrap_err();
    assert_eq!(failure.status, "Failed to switch model");
    assert_eq!(failure.title, "Model switch failed");
    assert_eq!(
        failure.message,
        "model `gpt-5.4` requires provider `openai`, but the active wire_api resolves to `anthropic`"
    );
}

#[test]
fn slash_model_rejects_saved_model_with_mismatched_wire_api() {
    let saved = vec![SavedModelEntry {
        model: "gpt-5.4".to_string(),
        provider: ProviderFamily::Anthropic,
        wire_api: ProviderWireApi::AnthropicMessages,
        base_url: None,
        api_key: None,
    }];
    let failure =
        check_model_switch(&saved, "gpt-5.4", Some(ProviderFamily::Openai), ProviderFamily::Openai).unwrap_err();
    assert_eq!(failure.status, "Failed to switch model");
    assert_eq!(failure.title, "Model switch failed");
    assert_eq!(
        failure.message,
        "model `gpt-5.4` requires provider `openai`, but the active wire_api resolves to `anthropic`"
    );
}

#[test]
fn model_switch_accepts_matching_provider() {
    assert_eq!(check_model_switch(&[], "gpt-5.4", Some(ProviderFamily::Openai), ProviderFamily::Openai).unwrap(), ProviderFamily::Openai);
    assert_eq!(check_model_switch(&[], "local", None, ProviderFamily::Google).unwrap(), ProviderFamily::Google);
}

#[test]
fn commands_update_status_and_ask_for_effects() {
    let mut ui = CommandUi { show_reasoning: false, busy: true, should_quit: false, status_message: String::new() };
    assert_eq!(run_command(&mut ui, parse_slash_command("/reasoning")), CommandEffect::Nothing);
    assert!(ui.show_reasoning);
    assert_eq!(ui.status_message, "Reasoning blocks expanded");
    assert_eq!(run_command(&mut ui, parse_slash_command("/new")), CommandEffect::NewSession);
    assert_eq!(ui.status_message, "New session ready; send a prompt to start it");
    assert_eq!(
        run_command(&mut ui, parse_slash_command("/rename Plan")),
        CommandEffect::RenameSession("Plan".to_string())
    );
    assert!(matches!(run_command(&mut ui, parse_slash_command("/rename")), CommandEffect::Fail(_)));
    assert_eq!(run_command(&mut ui, parse_slash_command("/exit")), CommandEffect::Quit);
    assert!(ui.should_quit && !ui.busy);
    assert_eq!(ui.status_message, "Exiting");
    assert_eq!(run_command(&mut ui, parse_slash_command("hello")), CommandEffect::SubmitPrompt);
}
