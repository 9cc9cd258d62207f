use lpagent::tui::configure::{Answered, EscapeOutcome, OnboardingState, PanelChange, Proceed};
use lpagent::tui::onboarding::classify_submission;
use lpagent::tui::provider::{ProviderFamily, ProviderWireApi};
use lpagent::tui::panels::{AuxPanel, AuxPanelContent, ModelListEntry};
use lpagent::tui::selection::{
    has_selectable_aux_panel, is_onboarding_model_picker_open, panel_accept_action, PanelAccept, ProviderPreset,
    SavedModelEntry,
};

fn preset(id: &str, custom: bool, env: &[&str]) -> ProviderPreset {
    ProviderPreset {
        id: id.to_string(),
        display_name: id.to_uppercase(),
        description: String::new(),
        default_base_url: if custom { None } else { Some(format!("https://{id}.test")) },
        wire_api: ProviderWireApi::OpenAIChatCompletions,
        is_custom: custom,
        slug_hint: "org/model".to_string(),
        api_key_env_vars: env.iter().map(|v| v.to_string()).collect(),
    }
}

fn answer(state: &mut OnboardingState, line: &str, custom: bool, p: Option<&ProviderPreset>, saved: &[SavedModelEntry]) -> Answered {
    let sub = classify_submission(state.custom_model_pending, state.base_url_pending, state.api_key_pending, line);
    state.apply_submission(sub, custom, p, saved)
}

#[test]
fn configure_openrouter_full_flow_reaches_validation() {
    let p = preset("openrouter", false, &["OPENROUTER_API_KEY"]);
    let mut s = OnboardingState::new();
    assert_eq!(s.start_onboarding(), PanelChange::PresetList);
    let (family, panel, status) = s.preset_selected(&p);
    assert_eq!((family, panel), (ProviderFamily::Openai, PanelChange::PresetModels));
    assert_eq!(status, "Selected OPENROUTER — choose a model");
    assert_eq!(s.selected_base_url.as_deref(), Some("https://openrouter.test"));
    match s.proceed_with_preset_model("org/m".to_string(), Some(&p), &[]) {
        Proceed::AskKey(status) => assert_eq!(status, "Enter your OPENROUTER API key"),
        other => panic!("unexpected {other:?}"),
    }
    assert_eq!(s.prompt.as_deref(), Some("OPENROUTER API key (also read from $OPENROUTER_API_KEY)"));
    assert!(matches!(answer(&mut s, " sk-1 ", false, Some(&p), &[]), Answered::Validate));
    assert_eq!(s.selected_api_key.as_deref(), Some("sk-1"));
    assert!(!s.api_key_pending);
}

#[test]
fn configure_ollama_preset_picks_model_without_api_key() {
    let p = preset("ollama", false, &[]);
    let mut s = OnboardingState::new();
    s.start_onboarding();
    s.preset_selected(&p);
    assert!(matches!(s.proceed_with_preset_model("llama".to_string(), Some(&p), &[]), Proceed::Validate(None)));
    assert!(!s.api_key_pending);
}

#[test]
fn configure_reuses_saved_api_key_for_provider() {
    let p = preset("openrouter", false, &["OPENROUTER_API_KEY"]);
    let saved = vec![SavedModelEntry {
        model: "old".to_string(),
        provider: ProviderFamily::Openai,
        wire_api: ProviderWireApi::OpenAIChatCompletions,
        base_url: Some("https://openrouter.test".to_string()),
        api_key: Some("sk-saved".to_string()),
    }];
    let mut s = OnboardingState::new();
    s.start_onboarding();
    s.preset_selected(&p);
    // Accept the picker row of a model other than the saved one.
    let picker = AuxPanel {
        title: "Models".to_string(),
        content: AuxPanelContent::ModelList(vec![ModelListEntry {
            slug: "new".to_string(),
            display_name: "new".to_string(),
            provider: ProviderFamily::Openai,
            description: None,
            is_current: false,
            is_builtin: true,
            is_custom_mode: false,
        }]),
    };
    let model = match panel_accept_action(Some(&picker), 0, true, s.active, s.preset_id.is_some(), &saved) {
        PanelAccept::ProceedWithPresetModel(model) => model,
        other => panic!("unexpected {other:?}"),
    };
    match s.proceed_with_preset_model(model, Some(&p), &saved) {
        Proceed::Validate(Some(status)) => assert_eq!(status, "Reusing saved API key for OPENROUTER"),
        other => panic!("unexpected {other:?}"),
    }
    assert!(!s.api_key_pending);
    assert_eq!(s.selected_api_key.as_deref(), Some("sk-saved"));
    assert_eq!(s.selected_model.as_deref(), Some("new"));
}

#[test]
fn custom_endpoint_asks_model_then_url_then_key() {
    let p = preset("custom", true, &["KEY"]);
    let mut s = OnboardingState::new();
    s.start_onboarding();
    let (_, panel, status) = s.preset_selected(&p);
    assert_eq!((panel, status.as_str()), (PanelChange::Keep, "Selected CUSTOM"));
    assert_eq!(s.prompt.as_deref(), Some("model name — org/model"));
    assert!(matches!(answer(&mut s, "  ", true, Some(&p), &[]), Answered::AskedAgain));
    assert!(matches!(answer(&mut s, "my-model", true, Some(&p), &[]), Answered::NextQuestion(None)));
    assert!(s.base_url_pending);
    assert!(matches!(answer(&mut s, "ftp://x", true, Some(&p), &[]), Answered::BaseUrlRejected(m) if m == "Base URL must start with http:// or https://"));
    assert!(matches!(answer(&mut s, "http://localhost:1", true, Some(&p), &[]), Answered::NextQuestion(Some(m)) if m == "Base URL saved for my-model"));
    assert!(s.api_key_pending);
    assert!(matches!(answer(&mut s, "", true, Some(&p), &[]), Answered::Validate));
    assert_eq!(s.selected_base_url.as_deref(), Some("http://localhost:1"));
}

#[test]
fn onboarding_escape_steps_back_to_model_list() {
    let p = preset("custom", true, &["KEY"]);
    let mut s = OnboardingState::new();
    s.start_onboarding();
    s.preset_selected(&p);
    answer(&mut s, "my-model", true, Some(&p), &[]);
    answer(&mut s, "http://h", true, Some(&p), &[]);
    assert_eq!(s.handle_escape(false, false), EscapeOutcome::Asked);
    assert!(s.base_url_pending && s.prompt.as_deref() == Some("base url"));
    assert_eq!(s.handle_escape(false, false), EscapeOutcome::Asked);
    assert!(s.custom_model_pending);
    assert_eq!(s.handle_escape(false, false), EscapeOutcome::Show(PanelChange::OnboardingModels));
    assert_eq!(s.handle_escape(false, false), EscapeOutcome::NotHandled);
}

#[test]
fn onboarding_escape_from_root_dismisses_onboarding() {
    let mut s = OnboardingState::new();
    s.start_onboarding();
    assert_eq!(s.handle_escape(false, true), EscapeOutcome::Exited);
    assert!(!s.active);
    let p = preset("openrouter", false, &[]);
    s.start_onboarding();
    s.preset_selected(&p);
    assert_eq!(s.handle_escape(true, true), EscapeOutcome::Show(PanelChange::PresetList));
    assert!(s.preset_id.is_none());
    s.begin_model_credentials_onboarding("m".to_string());
    assert!(s.base_url_pending);
    s.begin_custom_model_onboarding();
    assert!(s.custom_model_pending && !s.base_url_pending);
    assert_eq!(s.begin_preset_custom_model(None), PanelChange::Close);
    assert_eq!(s.prompt.as_deref(), Some("model slug — model slug"));
    assert_eq!(s.exit_onboarding(), PanelChange::Close);
    assert!(!s.custom_model_pending && s.prompt.is_none());
}

#[test]
fn validation_change_reprompts_for_api_key_for_keyed_provider() {
    let p = preset("openrouter", false, &["OPENROUTER_API_KEY"]);
    let mut s = OnboardingState::new();
    s.start_onboarding();
    s.preset_selected(&p);
    s.proceed_with_preset_model("org/m".to_string(), Some(&p), &[]);
    answer(&mut s, "sk-bad", false, Some(&p), &[]);
    let status = s.change_validation_inputs(Some(&p));
    assert_eq!(status, "Enter a different API key for OPENROUTER");
    assert!(s.api_key_pending);
    assert_eq!(s.selected_api_key, None);
    assert_eq!(s.selected_model.as_deref(), Some("org/m"));
    assert_eq!(s.selected_base_url.as_deref(), Some("https://openrouter.test"));
}

#[test]
fn validation_change_reprompts_for_model_for_keyless_provider() {
    let p = preset("ollama", false, &[]);
    let mut s = OnboardingState::new();
    s.start_onboarding();
    s.preset_selected(&p);
    s.proceed_with_preset_model("llama".to_string(), Some(&p), &[]);
    let status = s.change_validation_inputs(Some(&p));
    assert_eq!(status, "Enter a different model slug for OLLAMA");
    assert!(s.custom_model_pending);
    assert_eq!(s.selected_model, None);
    assert_eq!(s.prompt.as_deref(), Some("model slug for OLLAMA — org/model"));
}

#[test]
fn finishing_takes_the_choice_and_closes_first_onboarding() {
    let mut s = OnboardingState::new();
    assert!(s.take_selection().is_none());
    s.start_onboarding();
    s.begin_model_credentials_onboarding("m".to_string());
    answer(&mut s, "http://h", false, None, &[]);
    answer(&mut s, "key", false, None, &[]);
    let (model, url, key) = s.take_selection().unwrap();
    assert_eq!((model.as_str(), url.as_deref(), key.as_deref()), ("m", Some("http://h"), Some("key")));
    assert!(s.selected_model.is_none());
    assert!(s.finish_selection(false));
    assert!(!s.active);
    assert!(!s.finish_selection(false));
}

#[test]
fn selectable_panels_are_lists() {
    let text = AuxPanel { title: String::new(), content: AuxPanelContent::Text("x".into()) };
    let models = AuxPanel { title: String::new(), content: AuxPanelContent::ModelList(vec![]) };
    assert!(!has_selectable_aux_panel(Some(&text)));
    assert!(has_selectable_aux_panel(Some(&models)));
    assert!(!has_selectable_aux_panel(None));
    assert!(is_onboarding_model_picker_open(true, Some(&models)));
    assert!(!is_onboarding_model_picker_open(false, Some(&models)));
    assert!(!is_onboarding_model_picker_open(true, Some(&text)));
}

#[test]
fn answered_questions_carry_their_status_lines() {
    let p = preset("custom", true, &["KEY"]);
    let mut s = OnboardingState::new();
    s.start_onboarding();
    s.preset_selected(&p);
    assert!(matches!(answer(&mut s, "my-model", true, Some(&p), &[]), Answered::NextQuestion(None)));
    assert!(matches!(answer(&mut s, "http://h", true, Some(&p), &[]), Answered::NextQuestion(Some(m)) if m == "Base URL saved for my-model"));
    // A key given before any model: the preset's model slug is asked next.
    let mut t = OnboardingState::new();
    t.api_key_pending = true;
    assert!(matches!(answer(&mut t, "sk-1", false, Some(&p), &[]), Answered::NextQuestion(Some(m)) if m == "API key saved for CUSTOM"));
}
