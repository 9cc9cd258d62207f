//! What a key press does in the interactive interface, given what the
//! interface is showing.
use vstd::prelude::*;

use crate::server::approval::ApprovalDecision;

verus! {

/// The key of a key press.
#[derive(Clone, Copy, Debug, PartialEq, Eq, Structural)]
pub enum KeyCode {
    Char(char),
    Enter,
    Backspace,
    Delete,
    Tab,
    Left,
    Right,
    Home,
    End,
    Up,
    Down,
    PageUp,
    PageDown,
    Esc,
    Other,
}

/// A key press with the modifiers held.
#[derive(Clone, Copy, Debug, PartialEq, Eq, Structural)]
pub struct KeyInput {
    pub code: KeyCode,
    pub control: bool,
    pub shift: bool,
    pub alt: bool,
}

/// What the interface shows when a key is pressed.
#[derive(Clone, Copy, Debug, PartialEq, Eq, Structural)]
pub struct KeyContext {
    /// A tool waits for an approval.
    pub approval_pending: bool,
    /// A failed provider check waits for retry, skip or change.
    pub validation_retry_pending: bool,
    /// The composer holds only whitespace.
    pub input_blank: bool,
    /// A turn is running.
    pub busy: bool,
    /// A panel with selectable entries is open.
    pub selectable_aux_panel: bool,
    /// Slash-command suggestions are shown.
    pub slash_suggestions: bool,
    /// The interface draws inline, below the shell's scrollback.
    pub inline_mode: bool,
    /// The model picker of onboarding is open.
    pub onboarding_model_picker_open: bool,
}

/// What a key press asks the interface to do.
#[derive(Clone, Copy, Debug, PartialEq, Eq, Structural)]
pub enum KeyAction {
    /// Answer the pending approval.
    ResolveApproval(ApprovalDecision),
    /// Check the provider again.
    RetryValidation,
    /// Save the configuration without checking it.
    SkipValidation,
    /// Go back to change the provider's inputs.
    ChangeValidationInputs,
    /// Leave onboarding.
    CancelOnboarding,
    /// Interrupt the turn or arm exiting.
    CtrlC,
    /// Clear the transcript.
    ClearTranscript,
    /// Quit at once.
    Quit,
    /// Insert a line break into the composer.
    InsertNewline,
    /// Put the highlighted slash suggestion into the composer in place of
    /// the typed text, and run it.
    RunSlashSuggestion,
    /// Accept a paste, accept a panel entry, or submit.
    Submit,
    /// Delete the character before the cursor.
    Backspace,
    /// Delete the character under the cursor.
    Delete,
    /// Complete the selected slash command.
    ApplySlashSuggestion,
    MoveLeft,
    MoveRight,
    /// Cursor to the start; scroll to the top.
    MoveHome,
    /// Cursor to the end; follow new output.
    MoveEnd,
    /// Move the panel's selection.
    MoveAuxSelection(isize),
    /// Move the slash-suggestion selection.
    MoveSlashSelection(isize),
    /// Scroll the transcript.
    Scroll(isize),
    /// Close what is open, or clear the composer.
    Escape,
    /// Enter a custom model name during onboarding.
    BeginCustomModel,
    /// Type a character.
    InsertChar(char),
    /// Nothing happens.
    Nothing,
}

/// Moving up (`-1`) or down (`1`) through whatever is open: a panel's
/// entries, the slash suggestions, or else the transcript (not inline).
pub open spec fn vertical(ctx: KeyContext, step: isize) -> KeyAction {
    if ctx.selectable_aux_panel {
        KeyAction::MoveAuxSelection(step)
    } else if ctx.slash_suggestions {
        KeyAction::MoveSlashSelection(step)
    } else if !ctx.inline_mode {
        KeyAction::Scroll(step)
    } else {
        KeyAction::Nothing
    }
}

/// The general meaning of a key, once no prompt claims it.
pub open spec fn general_action(ctx: KeyContext, key: KeyInput) -> KeyAction {
    match key.code {
        KeyCode::Char(c) => if key.control {
            if c == 'c' {
                KeyAction::CtrlC
            } else if c == 'l' {
                KeyAction::ClearTranscript
            } else if c == 'q' {
                KeyAction::Quit
            } else {
                KeyAction::Nothing
            }
        } else if ctx.onboarding_model_picker_open && ctx.input_blank {
            if c == 'c' || c == 'C' {
                KeyAction::BeginCustomModel
            } else {
                KeyAction::Nothing
            }
        } else {
            KeyAction::InsertChar(c)
        },
        KeyCode::Enter => if key.shift || key.alt {
            KeyAction::InsertNewline
        } else if !ctx.busy && ctx.slash_suggestions {
            KeyAction::RunSlashSuggestion
        } else if !ctx.busy {
            KeyAction::Submit
        } else {
            KeyAction::Nothing
        },
        KeyCode::Backspace => if ctx.selectable_aux_panel && ctx.input_blank {
            KeyAction::Nothing
        } else {
            KeyAction::Backspace
        },
        KeyCode::Delete => if ctx.selectable_aux_panel && ctx.input_blank {
            KeyAction::Nothing
        } else {
            KeyAction::Delete
        },
        KeyCode::Tab => KeyAction::ApplySlashSuggestion,
        KeyCode::Left => KeyAction::MoveLeft,
        KeyCode::Right => KeyAction::MoveRight,
        KeyCode::Home => KeyAction::MoveHome,
        KeyCode::End => KeyAction::MoveEnd,
        KeyCode::Up => vertical(ctx, -1isize),
        KeyCode::Down => vertical(ctx, 1isize),
        KeyCode::PageUp => if ctx.inline_mode {
            KeyAction::Nothing
        } else {
            KeyAction::Scroll(-10isize)
        },
        KeyCode::PageDown => if ctx.inline_mode {
            KeyAction::Nothing
        } else {
            KeyAction::Scroll(10isize)
        },
        KeyCode::Esc => KeyAction::Escape,
        KeyCode::Other => KeyAction::Nothing,
    }
}

/// What a key does: with an empty composer, a pending approval takes
/// `y`, `n` and Esc, and a pending provider check takes `r`, `s`, `c` and
/// Esc (either case); otherwise the key has its general meaning.
pub open spec fn key_action(ctx: KeyContext, key: KeyInput) -> KeyAction {
    let approval: Option<KeyAction> = if ctx.approval_pending && ctx.input_blank {
        match key.code {
            KeyCode::Char(c) => if c == 'y' || c == 'Y' {
                Some(KeyAction::ResolveApproval(ApprovalDecision::Approve))
            } else if c == 'n' || c == 'N' {
                Some(KeyAction::ResolveApproval(ApprovalDecision::Deny))
            } else {
                None
            },
            KeyCode::Esc => Some(KeyAction::ResolveApproval(ApprovalDecision::Cancel)),
            _ => None,
        }
    } else {
        None
    };
    let retry: Option<KeyAction> = if ctx.validation_retry_pending && ctx.input_blank {
        match key.code {
            KeyCode::Char(c) => if c == 'r' || c == 'R' {
                Some(KeyAction::RetryValidation)
            } else if c == 's' || c == 'S' {
                Some(KeyAction::SkipValidation)
            } else if c == 'c' || c == 'C' {
                Some(KeyAction::ChangeValidationInputs)
            } else {
                None
            },
            KeyCode::Esc => Some(KeyAction::CancelOnboarding),
            _ => None,
        }
    } else {
        None
    };
    match approval {
        Some(a) => a,
        None => match retry {
            Some(a) => a,
            None => general_action(ctx, key),
        },
    }
}

fn vertical_action(ctx: &KeyContext, step: isize) -> (r: KeyAction)
    ensures
        r == vertical(*ctx, step),
{
    if ctx.selectable_aux_panel {
        KeyAction::MoveAuxSelection(step)
    } else if ctx.slash_suggestions {
        KeyAction::MoveSlashSelection(step)
    } else if !ctx.inline_mode {
        KeyAction::Scroll(step)
    } else {
        KeyAction::Nothing
    }
}

/// Decides what a key press does.
pub fn handle_key(ctx: &KeyContext, key: &KeyInput) -> (r: KeyAction)
    ensures
        r == key_action(*ctx, *key),
{
    if ctx.approval_pending && ctx.input_blank {
        match key.code {
            KeyCode::Char('y') | KeyCode::Char('Y') => {
                return KeyAction::ResolveApproval(ApprovalDecision::Approve);
            },
            KeyCode::Char('n') | KeyCode::Char('N') => {
                return KeyAction::ResolveApproval(ApprovalDecision::Deny);
            },
            KeyCode::Esc => {
                return KeyAction::ResolveApproval(ApprovalDecision::Cancel);
            },
            _ => {},
        }
    }
    if ctx.validation_retry_pending && ctx.input_blank {
        match key.code {
            KeyCode::Char('r') | KeyCode::Char('R') => {
                return KeyAction::RetryValidation;
            },
            KeyCode::Char('s') | KeyCode::Char('S') => {
                return KeyAction::SkipValidation;
            },
            KeyCode::Char('c') | KeyCode::Char('C') => {
                return KeyAction::ChangeValidationInputs;
            },
            KeyCode::Esc => {
                return KeyAction::CancelOnboarding;
            },
            _ => {},
        }
    }
    match key.code {
        KeyCode::Char('c') if key.control => KeyAction::CtrlC,
        KeyCode::Char('l') if key.control => KeyAction::ClearTranscript,
        KeyCode::Char('q') if key.control => KeyAction::Quit,
        KeyCode::Enter if key.shift || key.alt => KeyAction::InsertNewline,
        KeyCode::Enter if !ctx.busy && ctx.slash_suggestions => KeyAction::RunSlashSuggestion,
        KeyCode::Enter if !ctx.busy => KeyAction::Submit,
        KeyCode::Backspace if ctx.selectable_aux_panel && ctx.input_blank => KeyAction::Nothing,
        KeyCode::Backspace => KeyAction::Backspace,
        KeyCode::Delete if ctx.selectable_aux_panel && ctx.input_blank => KeyAction::Nothing,
        KeyCode::Delete => KeyAction::Delete,
        KeyCode::Tab => KeyAction::ApplySlashSuggestion,
        KeyCode::Left => KeyAction::MoveLeft,
        KeyCode::Right => KeyAction::MoveRight,
        KeyCode::Home => KeyAction::MoveHome,
        KeyCode::End => KeyAction::MoveEnd,
        KeyCode::Up => vertical_action(ctx, -1),
        KeyCode::Down => vertical_action(ctx, 1),
        KeyCode::PageUp => if ctx.inline_mode {
            KeyAction::Nothing
        } else {
            KeyAction::Scroll(-10)
        },
        KeyCode::PageDown => if ctx.inline_mode {
            KeyAction::Nothing
        } else {
            KeyAction::Scroll(10)
        },
        KeyCode::Esc => KeyAction::Escape,
        KeyCode::Char(ch) if !key.control && ctx.onboarding_model_picker_open && ctx.input_blank => {
            if ch == 'c' || ch == 'C' {
                KeyAction::BeginCustomModel
            } else {
                KeyAction::Nothing
            }
        },
        KeyCode::Char(ch) if !key.control => KeyAction::InsertChar(ch),
        _ => KeyAction::Nothing,
    }
}

// ---------------------------------------------------------------- ctrl-c

/// How long a second Ctrl+C may follow the first to exit, in nanoseconds.
pub const EXIT_CONFIRM_WINDOW_NANOS: u128 = 2_000_000_000;

/// What a Ctrl+C press does.
#[derive(Clone, Copy, Debug, PartialEq, Eq, Structural)]
pub enum CtrlCOutcome {
    /// The second press in time: exit.
    Exit,
    /// A turn is running: interrupt it, and arm exiting.
    Interrupt,
    /// Nothing runs: arm exiting.
    ArmExit,
}

/// A second press within two seconds of the first exits; otherwise the
/// press interrupts a running turn or only arms exiting.
pub open spec fn ctrl_c(since_last_press_nanos: Option<u128>, busy: bool) -> CtrlCOutcome {
    match since_last_press_nanos {
        Some(e) if e <= EXIT_CONFIRM_WINDOW_NANOS => CtrlCOutcome::Exit,
        _ => if busy {
            CtrlCOutcome::Interrupt
        } else {
            CtrlCOutcome::ArmExit
        },
    }
}

/// Decides what a Ctrl+C press does, given the time since the previous one.
pub fn ctrl_c_outcome(since_last_press_nanos: Option<u128>, busy: bool) -> (r: CtrlCOutcome)
    ensures
        r == ctrl_c(since_last_press_nanos, busy),
{
    match since_last_press_nanos {
        Some(e) if e <= EXIT_CONFIRM_WINDOW_NANOS => CtrlCOutcome::Exit,
        _ => if busy {
            CtrlCOutcome::Interrupt
        } else {
            CtrlCOutcome::ArmExit
        },
    }
}

/// The status line shown after a Ctrl+C press.
pub open spec fn ctrl_c_status_text(outcome: CtrlCOutcome) -> Seq<char> {
    match outcome {
        CtrlCOutcome::Exit => "Exiting"@,
        CtrlCOutcome::Interrupt => "Interrupt requested. Press Ctrl+C again within 2s to exit."@,
        CtrlCOutcome::ArmExit => "Press Ctrl+C again within 2s to exit."@,
    }
}

/// The status line shown after a Ctrl+C press.
pub fn ctrl_c_status(outcome: CtrlCOutcome) -> (r: &'static str)
    ensures
        r@ == ctrl_c_status_text(outcome),
{
    match outcome {
        CtrlCOutcome::Exit => "Exiting",
        CtrlCOutcome::Interrupt => "Interrupt requested. Press Ctrl+C again within 2s to exit.",
        CtrlCOutcome::ArmExit => "Press Ctrl+C again within 2s to exit.",
    }
}

// ---------------------------------------------------------------- laws

/// While the composer holds text, no key is taken as an answer to a pending
/// approval: typing is never hijacked.
pub proof fn law_typing_is_not_hijacked(ctx: KeyContext, key: KeyInput)
    requires
        !ctx.input_blank,
    ensures
        !(key_action(ctx, key) is ResolveApproval),
        key_action(ctx, key) == general_action(ctx, key),
{
}

/// A pending approval takes precedence over a pending provider check.
pub proof fn law_approval_first(ctx: KeyContext, key: KeyInput)
    requires
        ctx.approval_pending,
        ctx.validation_retry_pending,
        ctx.input_blank,
        key.code == KeyCode::Esc,
    ensures
        key_action(ctx, key) == KeyAction::ResolveApproval(ApprovalDecision::Cancel),
{
}

} // verus!
