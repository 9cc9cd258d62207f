use lpagent::server::protocol::ProtocolErrorCode;
use lpagent::server::titles::{
    assign_generated_title, assign_provisional_title, forked_title, initial_title, may_generate_title, rename_title,
    TitleSource, TitleState,
};
use lpagent::tui::configure::{Answered, OnboardingState};
use lpagent::tui::onboarding::{classify_submission, memory_line, memory_target, Submission};

#[test]
fn onboarding_rejects_base_url_without_http_scheme() {
    let mut state = OnboardingState::new();
    state.base_url_pending = true;
    state.selected_model = Some("test-model".to_string());
    let sub = classify_submission(state.custom_model_pending, state.base_url_pending, state.api_key_pending, "localhost:11434");
    match state.apply_submission(sub, false, None, &[]) {
        Answered::BaseUrlRejected(status) => assert_eq!(status, "Base URL must start with http:// or https://"),
        _ => panic!("the base URL should be refused"),
    }
    assert!(state.base_url_pending);
    assert_eq!(state.prompt.as_deref(), Some("base url"));
    assert_eq!(state.selected_base_url, None);
    assert!(!state.api_key_pending);
    assert!(matches!(classify_submission(false, true, false, "ftp://x"), Submission::BaseUrlRejected));
    assert!(matches!(classify_submission(false, true, false, " https://x "), Submission::BaseUrlChosen(Some(u)) if u == "https://x"));
    assert!(matches!(classify_submission(false, true, false, "http://x"), Submission::BaseUrlChosen(Some(_))));
    assert!(matches!(classify_submission(false, true, false, "  "), Submission::BaseUrlChosen(None)));
}

#[test]
fn onboarding_questions_take_the_line_first() {
    assert!(matches!(classify_submission(true, true, true, "  "), Submission::ModelMissing));
    assert!(matches!(classify_submission(true, false, false, " gpt-x "), Submission::ModelChosen(m) if m == "gpt-x"));
    assert!(matches!(classify_submission(false, false, true, " sk-1 "), Submission::ApiKeyChosen(Some(k)) if k == "sk-1"));
    assert!(matches!(classify_submission(false, false, true, ""), Submission::ApiKeyChosen(None)));
    assert!(matches!(classify_submission(false, false, false, "/exit"), Submission::Command));
    assert!(matches!(classify_submission(false, false, false, "hello"), Submission::Prompt));
}

#[test]
fn hash_prefixed_input_appends_memory_line() {
    assert!(matches!(classify_submission(false, false, false, "  #  always run tests "), Submission::MemoryNote(n) if n == "always run tests"));
    assert_eq!(memory_line("always run tests"), "- always run tests\n");
    assert_eq!(memory_target(&[false, false]), 0);
    assert_eq!(memory_target(&[false, true]), 1);
    assert_eq!(memory_target(&[true, true]), 0);
    assert_eq!(memory_target(&[]), 0);
}

#[test]
fn titles_settle_and_stay() {
    let mut t = initial_title(None);
    assert_eq!(t.state, TitleState::Unset);
    assert!(assign_provisional_title(&mut t, "First prompt"));
    assert_eq!(t.title.as_deref(), Some("First prompt"));
    assert!(!assign_provisional_title(&mut t, "Again"));
    assert!(assign_generated_title(&mut t, "Generated"));
    assert_eq!(t.state, TitleState::Final(TitleSource::ModelGenerated));
    assert!(!assign_generated_title(&mut t, "Other"));
    assert!(!may_generate_title(t.state));
    let e = rename_title(&mut t, "   ").unwrap_err();
    assert_eq!((e.code, e.message), (ProtocolErrorCode::InvalidParams, "session title cannot be empty"));
    assert_eq!(t.title.as_deref(), Some("Generated"));
    rename_title(&mut t, "  Mine ").unwrap();
    assert_eq!((t.title.as_deref(), t.state), (Some("Mine"), TitleState::Final(TitleSource::UserRename)));
    let created = initial_title(Some("Given".to_string()));
    assert_eq!(created.state, TitleState::Final(TitleSource::ExplicitCreate));
    let fork = forked_title(None, &created);
    assert_eq!((fork.title.as_deref(), fork.state), (Some("Given"), TitleState::Final(TitleSource::ExplicitCreate)));
    let fork = forked_title(Some("Fork".to_string()), &created);
    assert_eq!(fork.title.as_deref(), Some("Fork"));
}
