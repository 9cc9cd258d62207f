use lpagent::server::approval::ApprovalDecision;
use lpagent::tui::keys::{
    ctrl_c_outcome, ctrl_c_status, handle_key, CtrlCOutcome, KeyAction, KeyCode, KeyContext,
    KeyInput,
};
use lpagent::tui::commands::{parse_slash_command, SlashCommand};
use lpagent::tui::slash::{
    matching_slash_commands, move_selection, selected_suggestion, slash_commands,
};

#[test]
fn slash_completion_applies_selected_command() {
    assert_eq!(selected_suggestion("/exi", 0), Some("/exit"));
}

#[test]
fn slash_suggestions_include_configure() {
    assert!(matching_slash_commands("/c")
        .iter()
        .any(|suggestion| suggestion.name == "/configure"));
}

#[test]
fn slash_selection_wraps_around() {
    let len = matching_slash_commands("/").len();
    let up = move_selection(0, -1, len);
    assert_eq!(up, len - 1);
    assert_eq!(move_selection(up, 1, len), 0);
}

#[test]
fn slash_suggestions_need_a_bare_prefix() {
    assert!(matching_slash_commands("hello").is_empty());
    assert!(matching_slash_commands("/model gpt").is_empty());
    assert!(matching_slash_commands("").is_empty());
    let names: Vec<&str> = matching_slash_commands("  /co").iter().map(|c| c.name).collect();
    assert_eq!(names, vec!["/configure", "/config", "/compact"]);
    assert_eq!(matching_slash_commands("/").len(), slash_commands().len());
    assert_eq!(selected_suggestion("/zzz", 0), None);
    assert_eq!(selected_suggestion("/co", 99), Some("/compact"));
}

#[test]
fn selection_moves_and_wraps() {
    assert_eq!(move_selection(2, 1, 3), 0);
    assert_eq!(move_selection(0, -4, 3), 2);
    assert_eq!(move_selection(5, 0, 0), 0);
    assert_eq!(move_selection(1, 7, 4), 0);
}

fn ctx() -> KeyContext {
    KeyContext {
        approval_pending: false,
        validation_retry_pending: false,
        input_blank: true,
        busy: false,
        selectable_aux_panel: false,
        slash_suggestions: false,
        inline_mode: false,
        onboarding_model_picker_open: false,
    }
}

fn key(code: KeyCode) -> KeyInput {
    KeyInput { code, control: false, shift: false, alt: false }
}

#[test]
fn pending_approval_takes_y_n_and_escape() {
    let c = KeyContext { approval_pending: true, ..ctx() };
    assert_eq!(
        handle_key(&c, &key(KeyCode::Char('Y'))),
        KeyAction::ResolveApproval(ApprovalDecision::Approve)
    );
    assert_eq!(
        handle_key(&c, &key(KeyCode::Char('n'))),
        KeyAction::ResolveApproval(ApprovalDecision::Deny)
    );
    assert_eq!(
        handle_key(&c, &key(KeyCode::Esc)),
        KeyAction::ResolveApproval(ApprovalDecision::Cancel)
    );
    let typing = KeyContext { input_blank: false, ..c };
    assert_eq!(handle_key(&typing, &key(KeyCode::Char('y'))), KeyAction::InsertChar('y'));
}

#[test]
fn pending_validation_takes_r_s_c_and_escape() {
    let c = KeyContext { validation_retry_pending: true, ..ctx() };
    assert_eq!(handle_key(&c, &key(KeyCode::Char('r'))), KeyAction::RetryValidation);
    assert_eq!(handle_key(&c, &key(KeyCode::Char('S'))), KeyAction::SkipValidation);
    assert_eq!(handle_key(&c, &key(KeyCode::Char('c'))), KeyAction::ChangeValidationInputs);
    assert_eq!(handle_key(&c, &key(KeyCode::Esc)), KeyAction::CancelOnboarding);
}

#[test]
fn control_keys_and_enter() {
    let ctrl = |c| KeyInput { code: KeyCode::Char(c), control: true, shift: false, alt: false };
    assert_eq!(handle_key(&ctx(), &ctrl('c')), KeyAction::CtrlC);
    assert_eq!(handle_key(&ctx(), &ctrl('l')), KeyAction::ClearTranscript);
    assert_eq!(handle_key(&ctx(), &ctrl('q')), KeyAction::Quit);
    assert_eq!(handle_key(&ctx(), &ctrl('x')), KeyAction::Nothing);
    let shift_enter = KeyInput { code: KeyCode::Enter, control: false, shift: true, alt: false };
    assert_eq!(handle_key(&ctx(), &shift_enter), KeyAction::InsertNewline);
    assert_eq!(handle_key(&ctx(), &key(KeyCode::Enter)), KeyAction::Submit);
    let busy = KeyContext { busy: true, ..ctx() };
    assert_eq!(handle_key(&busy, &key(KeyCode::Enter)), KeyAction::Nothing);
}

#[test]
fn arrows_move_what_is_open() {
    let panel = KeyContext { selectable_aux_panel: true, ..ctx() };
    assert_eq!(handle_key(&panel, &key(KeyCode::Up)), KeyAction::MoveAuxSelection(-1));
    assert_eq!(handle_key(&panel, &key(KeyCode::Backspace)), KeyAction::Nothing);
    let slash = KeyContext { slash_suggestions: true, ..ctx() };
    assert_eq!(handle_key(&slash, &key(KeyCode::Down)), KeyAction::MoveSlashSelection(1));
    assert_eq!(handle_key(&ctx(), &key(KeyCode::Down)), KeyAction::Scroll(1));
    assert_eq!(handle_key(&ctx(), &key(KeyCode::PageUp)), KeyAction::Scroll(-10));
    let inline = KeyContext { inline_mode: true, ..ctx() };
    assert_eq!(handle_key(&inline, &key(KeyCode::Up)), KeyAction::Nothing);
    assert_eq!(handle_key(&inline, &key(KeyCode::PageDown)), KeyAction::Nothing);
    let picker = KeyContext { onboarding_model_picker_open: true, ..ctx() };
    assert_eq!(handle_key(&picker, &key(KeyCode::Char('C'))), KeyAction::BeginCustomModel);
    assert_eq!(handle_key(&picker, &key(KeyCode::Char('x'))), KeyAction::Nothing);
    assert_eq!(handle_key(&ctx(), &key(KeyCode::Tab)), KeyAction::ApplySlashSuggestion);
}

#[test]
fn ctrl_c_needs_a_second_press_within_two_seconds() {
    assert_eq!(ctrl_c_outcome(None, false), CtrlCOutcome::ArmExit);
    assert_eq!(ctrl_c_outcome(None, true), CtrlCOutcome::Interrupt);
    assert_eq!(ctrl_c_outcome(Some(1_000_000_000), true), CtrlCOutcome::Exit);
    assert_eq!(ctrl_c_outcome(Some(2_000_000_001), false), CtrlCOutcome::ArmExit);
    assert_eq!(ctrl_c_status(CtrlCOutcome::Exit), "Exiting");
    assert_eq!(
        ctrl_c_status(CtrlCOutcome::ArmExit),
        "Press Ctrl+C again within 2s to exit."
    );
}

#[test]
fn enter_executes_highlighted_slash_command() {
    let input = "/";
    let index = matching_slash_commands(input).iter().position(|c| c.name == "/exit").unwrap();
    let mut c = ctx();
    c.input_blank = false;
    c.slash_suggestions = true;
    assert_eq!(handle_key(&c, &key(KeyCode::Enter)), KeyAction::RunSlashSuggestion);
    let chosen = selected_suggestion(input, index).unwrap();
    assert_eq!(chosen, "/exit");
    assert!(matches!(parse_slash_command(chosen), SlashCommand::Exit));
}

#[test]
fn suggestions_carry_their_descriptions() {
    let found: Vec<(&str, &str)> = matching_slash_commands("/co").iter().map(|c| (c.name, c.description)).collect();
    assert_eq!(
        found,
        vec![
            ("/configure", "Configure provider, model, and API key"),
            ("/config", "Show the active config.toml (keys masked)"),
            ("/compact", "Summarize and compact the conversation context"),
        ]
    );
}
