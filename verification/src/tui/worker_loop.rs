//! The background worker's decisions: what each command of the interface
//! asks of the server, and what the worker remembers of the session and
//! the turn in between.
use vstd::prelude::*;

use crate::server::approval::{ApprovalDecision, ApprovalScope, SessionId, TurnId};
use crate::tui::provider::{opt_view, ProviderFamily, ProviderWireApi};
use crate::tui::worker::{NotificationState, WorkerEvent};

verus! {

/// A command the interface sends to the worker.
#[derive(Clone, Debug)]
pub enum WorkerCommand {
    /// Send a prompt as a new turn.
    SubmitPrompt(String),
    /// Use this model for later turns.
    SetModel(String),
    /// Use this thinking mode for later turns.
    SetThinking(Option<String>),
    /// Connect to a provider anew, restarting the server.
    ReconfigureProvider { wire_api: ProviderWireApi, model: String, base_url: Option<String>, api_key: Option<String> },
    /// Check a provider's settings with a probe request.
    ValidateProvider { provider: ProviderFamily, model: String, base_url: Option<String>, api_key: Option<String> },
    /// List the sessions.
    ListSessions,
    /// List the skills of the session's directory.
    ListSkills,
    /// Forget the session, so that the next prompt starts a new one.
    StartNewSession,
    /// Resume the session of this id.
    SwitchSession(SessionId),
    /// Rename the session in use.
    RenameSession(String),
    /// Interrupt the running turn.
    InterruptTurn,
    /// Answer a pending approval.
    RespondApproval {
        session_id: SessionId,
        turn_id: TurnId,
        approval_id: String,
        decision: ApprovalDecision,
        scope: ApprovalScope,
    },
    /// Stop the worker.
    Shutdown,
}

/// What the worker remembers between commands.
#[derive(Clone, Debug)]
pub struct WorkerState {
    /// The session in use, once one was started or resumed.
    pub session_id: Option<SessionId>,
    /// The model of later turns.
    pub model: String,
    /// The thinking mode of later turns.
    pub thinking: Option<String>,
    /// The turn running, where one was started.
    pub active_turn_id: Option<TurnId>,
}

/// What the worker remembers, by value.
pub struct WorkerView {
    pub session_id: Option<SessionId>,
    pub model: Seq<char>,
    pub thinking: Option<Seq<char>>,
    pub active_turn_id: Option<TurnId>,
}

impl View for WorkerState {
    type V = WorkerView;

    open spec fn view(&self) -> WorkerView {
        WorkerView {
            session_id: self.session_id,
            model: self.model@,
            thinking: opt_view(self.thinking),
            active_turn_id: self.active_turn_id,
        }
    }
}

/// What the worker asks of the server, or tells the interface, for a
/// command.
#[derive(Clone, Debug)]
pub enum WorkerAction {
    /// Start a session with this model, for this prompt; its turn follows
    /// once the server answers (see [`session_started`]).
    StartSession { model: String, prompt: String },
    /// Start one turn of this session with the prompt, the model and the
    /// thinking mode.
    StartTurn { session_id: SessionId, prompt: String, model: String, thinking: Option<String> },
    /// Probe the provider with these settings.
    ValidateProvider { provider: ProviderFamily, model: String, base_url: Option<String>, api_key: Option<String> },
    /// Restart the server with these provider settings.
    RestartServer { wire_api: ProviderWireApi, model: String, base_url: Option<String>, api_key: Option<String> },
    /// Ask for the session list.
    ListSessions,
    /// Ask for the skill list.
    ListSkills,
    /// Tell the interface that the next prompt starts a new session.
    NewSessionPrepared,
    /// Resume the session of this id.
    ResumeSession(SessionId),
    /// Rename this session.
    RenameSession(SessionId, String),
    /// Tell the interface that the command failed, with this message.
    Fail(String),
    /// Interrupt this turn of this session.
    Interrupt(SessionId, TurnId),
    /// Send this answer to a pending approval.
    RespondApproval {
        session_id: SessionId,
        turn_id: TurnId,
        approval_id: String,
        decision: ApprovalDecision,
        scope: ApprovalScope,
    },
    /// Nothing to send.
    Nothing,
    /// Stop the worker.
    Shutdown,
}

/// A worker action, by value.
pub enum ActionView {
    StartSession { model: Seq<char>, prompt: Seq<char> },
    StartTurn { session_id: SessionId, prompt: Seq<char>, model: Seq<char>, thinking: Option<Seq<char>> },
    ValidateProvider { provider: ProviderFamily, model: Seq<char>, base_url: Option<Seq<char>>, api_key: Option<Seq<char>> },
    RestartServer { wire_api: ProviderWireApi, model: Seq<char>, base_url: Option<Seq<char>>, api_key: Option<Seq<char>> },
    ListSessions,
    ListSkills,
    NewSessionPrepared,
    ResumeSession(SessionId),
    RenameSession(SessionId, Seq<char>),
    Fail(Seq<char>),
    Interrupt(SessionId, TurnId),
    RespondApproval {
        session_id: SessionId,
        turn_id: TurnId,
        approval_id: Seq<char>,
        decision: ApprovalDecision,
        scope: ApprovalScope,
    },
    Nothing,
    Shutdown,
}

/// The value of an action.
pub open spec fn action_view(a: WorkerAction) -> ActionView {
    match a {
        WorkerAction::StartSession { model, prompt } => ActionView::StartSession { model: model@, prompt: prompt@ },
        WorkerAction::StartTurn { session_id, prompt, model, thinking } => ActionView::StartTurn {
            session_id,
            prompt: prompt@,
            model: model@,
            thinking: opt_view(thinking),
        },
        WorkerAction::ValidateProvider { provider, model, base_url, api_key } => ActionView::ValidateProvider {
            provider,
            model: model@,
            base_url: opt_view(base_url),
            api_key: opt_view(api_key),
        },
        WorkerAction::RestartServer { wire_api, model, base_url, api_key } => ActionView::RestartServer {
            wire_api,
            model: model@,
            base_url: opt_view(base_url),
            api_key: opt_view(api_key),
        },
        WorkerAction::ListSessions => ActionView::ListSessions,
        WorkerAction::ListSkills => ActionView::ListSkills,
        WorkerAction::NewSessionPrepared => ActionView::NewSessionPrepared,
        WorkerAction::ResumeSession(id) => ActionView::ResumeSession(id),
        WorkerAction::RenameSession(id, title) => ActionView::RenameSession(id, title@),
        WorkerAction::Fail(m) => ActionView::Fail(m@),
        WorkerAction::Interrupt(s, t) => ActionView::Interrupt(s, t),
        WorkerAction::RespondApproval { session_id, turn_id, approval_id, decision, scope } => ActionView::RespondApproval {
            session_id,
            turn_id,
            approval_id: approval_id@,
            decision,
            scope,
        },
        WorkerAction::Nothing => ActionView::Nothing,
        WorkerAction::Shutdown => ActionView::Shutdown,
    }
}

/// Why a rename waits for a session.
pub open spec fn no_session_message() -> Seq<char> {
    "no active session exists yet; send a prompt or switch to a saved session first"@
}

/// The worker after a command, and what it asks for. A prompt starts a
/// session only when none is in use, and otherwise one turn of the session
/// in use; a new model or
/// thinking mode is only remembered; a provider change forgets the session
/// and the turn and restarts the server; a new session is prepared lazily; a
/// rename needs a session; an interrupt reaches the server only while a
/// turn of a session runs.
pub open spec fn worker_next(s: WorkerView, c: WorkerCommand) -> (WorkerView, ActionView) {
    match c {
        WorkerCommand::SubmitPrompt(prompt) => match s.session_id {
            Some(id) => (s, ActionView::StartTurn { session_id: id, prompt: prompt@, model: s.model, thinking: s.thinking }),
            None => (s, ActionView::StartSession { model: s.model, prompt: prompt@ }),
        },
        WorkerCommand::SetModel(m) => (WorkerView { model: m@, ..s }, ActionView::Nothing),
        WorkerCommand::SetThinking(t) => (WorkerView { thinking: opt_view(t), ..s }, ActionView::Nothing),
        WorkerCommand::ReconfigureProvider { wire_api, model, base_url, api_key } => (
            WorkerView { session_id: None, model: model@, active_turn_id: None, ..s },
            ActionView::RestartServer {
                wire_api,
                model: model@,
                base_url: opt_view(base_url),
                api_key: opt_view(api_key),
            },
        ),
        WorkerCommand::ValidateProvider { provider, model, base_url, api_key } => (
            s,
            ActionView::ValidateProvider {
                provider,
                model: model@,
                base_url: opt_view(base_url),
                api_key: opt_view(api_key),
            },
        ),
        WorkerCommand::ListSessions => (s, ActionView::ListSessions),
        WorkerCommand::ListSkills => (s, ActionView::ListSkills),
        WorkerCommand::StartNewSession => (
            WorkerView { session_id: None, active_turn_id: None, ..s },
            ActionView::NewSessionPrepared,
        ),
        WorkerCommand::SwitchSession(id) => (s, ActionView::ResumeSession(id)),
        WorkerCommand::RenameSession(title) => match s.session_id {
            Some(id) => (s, ActionView::RenameSession(id, title@)),
            None => (s, ActionView::Fail(no_session_message())),
        },
        WorkerCommand::InterruptTurn => match (s.active_turn_id, s.session_id) {
            (Some(t), Some(id)) => (s, ActionView::Interrupt(id, t)),
            _ => (s, ActionView::Nothing),
        },
        WorkerCommand::RespondApproval { session_id, turn_id, approval_id, decision, scope } => (
            s,
            ActionView::RespondApproval { session_id, turn_id, approval_id: approval_id@, decision, scope },
        ),
        WorkerCommand::Shutdown => (s, ActionView::Shutdown),
    }
}

fn copy_opt(s: &Option<String>) -> (r: Option<String>)
    ensures
        opt_view(r) == opt_view(*s),
{
    match s {
        Some(v) => Some(v.clone()),
        None => None,
    }
}

/// Decides what a command of the interface does.
pub fn worker_step(state: &mut WorkerState, command: WorkerCommand) -> (r: WorkerAction)
    ensures
        (final(state)@, action_view(r)) == worker_next(old(state)@, command),
{
    match command {
        WorkerCommand::SubmitPrompt(prompt) => match state.session_id {
            Some(id) => WorkerAction::StartTurn {
                session_id: id,
                prompt,
                model: state.model.clone(),
                thinking: copy_opt(&state.thinking),
            },
            None => WorkerAction::StartSession { model: state.model.clone(), prompt },
        },
        WorkerCommand::SetModel(m) => {
            state.model = m;
            WorkerAction::Nothing
        },
        WorkerCommand::SetThinking(t) => {
            state.thinking = t;
            WorkerAction::Nothing
        },
        WorkerCommand::ReconfigureProvider { wire_api, model, base_url, api_key } => {
            state.model = model.clone();
            state.session_id = None;
            state.active_turn_id = None;
            WorkerAction::RestartServer { wire_api, model, base_url, api_key }
        },
        WorkerCommand::ValidateProvider { provider, model, base_url, api_key } => WorkerAction::ValidateProvider {
            provider,
            model,
            base_url,
            api_key,
        },
        WorkerCommand::ListSessions => WorkerAction::ListSessions,
        WorkerCommand::ListSkills => WorkerAction::ListSkills,
        WorkerCommand::StartNewSession => {
            state.session_id = None;
            state.active_turn_id = None;
            WorkerAction::NewSessionPrepared
        },
        WorkerCommand::SwitchSession(id) => WorkerAction::ResumeSession(id),
        WorkerCommand::RenameSession(title) => match state.session_id {
            Some(id) => WorkerAction::RenameSession(id, title),
            None => WorkerAction::Fail(
                "no active session exists yet; send a prompt or switch to a saved session first".to_owned(),
            ),
        },
        WorkerCommand::InterruptTurn => match (state.active_turn_id, state.session_id) {
            (Some(t), Some(id)) => WorkerAction::Interrupt(id, t),
            _ => WorkerAction::Nothing,
        },
        WorkerCommand::RespondApproval { session_id, turn_id, approval_id, decision, scope } => WorkerAction::RespondApproval {
            session_id,
            turn_id,
            approval_id,
            decision,
            scope,
        },
        WorkerCommand::Shutdown => WorkerAction::Shutdown,
    }
}

/// The session after the server started `id`: in use, with the model the
/// server resolved, where it resolved one.
pub open spec fn after_session_start(s: WorkerView, id: SessionId, resolved_model: Option<Seq<char>>) -> WorkerView {
    WorkerView {
        session_id: Some(id),
        model: match resolved_model {
            Some(m) => m,
            None => s.model,
        },
        ..s
    }
}

/// The server started the session `id` for `prompt`; its model, where the
/// server resolved one, is used from now on, first of all by the prompt's
/// turn, which this returns.
pub fn session_started(state: &mut WorkerState, id: SessionId, resolved_model: Option<String>, prompt: String) -> (r:
    WorkerAction)
    ensures
        final(state)@ == after_session_start(old(state)@, id, opt_view(resolved_model)),
        action_view(r) == (ActionView::StartTurn {
            session_id: id,
            prompt: prompt@,
            model: final(state)@.model,
            thinking: old(state)@.thinking,
        }),
{
    state.session_id = Some(id);
    match resolved_model {
        Some(m) => {
            state.model = m;
        },
        None => {},
    }
    WorkerAction::StartTurn { session_id: id, prompt, model: state.model.clone(), thinking: copy_opt(&state.thinking) }
}

/// A request the worker sent failed (a turn that could not start, a list or
/// a rename the server refused): the interface is told, with the error's
/// message and the counts the worker holds.
pub fn request_failed(counts: &NotificationState, message: String) -> (r: WorkerEvent)
    ensures
        r == (WorkerEvent::TurnFailed {
            message,
            turn_count: counts.turn_count,
            total_input_tokens: counts.total_input_tokens,
            total_output_tokens: counts.total_output_tokens,
        }),
{
    WorkerEvent::TurnFailed {
        message,
        turn_count: counts.turn_count,
        total_input_tokens: counts.total_input_tokens,
        total_output_tokens: counts.total_output_tokens,
    }
}

/// The server started the turn `id`; an interrupt now reaches it.
pub fn turn_started(state: &mut WorkerState, id: TurnId)
    ensures
        final(state)@ == (WorkerView { active_turn_id: Some(id), ..old(state)@ }),
{
    state.active_turn_id = Some(id);
}

/// The server resumed the session `id`: it is in use, with no turn running.
pub fn session_resumed(state: &mut WorkerState, id: SessionId)
    ensures
        final(state)@ == (WorkerView { session_id: Some(id), active_turn_id: None, ..old(state)@ }),
{
    state.session_id = Some(id);
    state.active_turn_id = None;
}

/// A session is started at most once: once the server started one, every
/// later prompt is a turn of that session, with the model the server
/// resolved for it until another is set.
pub proof fn law_session_started_once(s: WorkerView, id: SessionId, resolved: Option<Seq<char>>, next: String)
    ensures
        ({
            let started = after_session_start(s, id, resolved);
            worker_next(started, WorkerCommand::SubmitPrompt(next)).1 == (ActionView::StartTurn {
                session_id: id,
                prompt: next@,
                model: started.model,
                thinking: s.thinking,
            })
        }),
{
}

} // verus!
