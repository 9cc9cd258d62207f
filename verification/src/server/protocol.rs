//! How the server answers a client message: where each method goes, and
//! which turn requests it refuses, with which code and message.
use vstd::prelude::*;

use crate::server::approval::TurnId;
use crate::server::inputs::{input_parts, render_input_items, InputItem};
use crate::text::join;

verus! {

/// The error codes of the protocol.
#[derive(Clone, Copy, Debug, PartialEq, Eq, Structural)]
pub enum ProtocolErrorCode {
    ApprovalNotFound,
    EmptyInput,
    ExpectedTurnMismatch,
    InternalError,
    InvalidParams,
    NoActiveTurn,
    NotInitialized,
    SessionNotFound,
    TurnAlreadyRunning,
    TurnNotFound,
}

/// A request the server refuses: the code and the message it answers with.
#[derive(Clone, Debug)]
pub struct Refusal {
    pub code: ProtocolErrorCode,
    pub message: &'static str,
}

/// The methods a ready connection may call.
#[derive(Clone, Copy, Debug, PartialEq, Eq, Structural)]
pub enum RpcMethod {
    SessionStart,
    SessionList,
    SessionTitleUpdate,
    SessionResume,
    SessionFork,
    SkillsList,
    SkillsChanged,
    TurnStart,
    TurnInterrupt,
    TurnSteer,
    ApprovalRespond,
    EventsSubscribe,
}

/// Where a client message goes.
#[derive(Clone, Copy, Debug, PartialEq, Eq, Structural)]
pub enum Route {
    /// The client finished the handshake: mark the connection ready, answer
    /// nothing.
    MarkReady,
    /// Answer the handshake.
    Initialize,
    /// Refuse a request of a connection that has not finished the handshake.
    NotInitialized,
    /// Call a method.
    Call(RpcMethod),
    /// Refuse a request for a method that does not exist.
    UnknownMethod,
    /// Answer nothing: a notification that needs a reply it cannot get.
    Ignore,
}

/// The method a name stands for.
pub open spec fn method_named(m: Seq<char>) -> Option<RpcMethod> {
    if m == "session/start"@ {
        Some(RpcMethod::SessionStart)
    } else if m == "session/list"@ {
        Some(RpcMethod::SessionList)
    } else if m == "session/title/update"@ {
        Some(RpcMethod::SessionTitleUpdate)
    } else if m == "session/resume"@ {
        Some(RpcMethod::SessionResume)
    } else if m == "session/fork"@ {
        Some(RpcMethod::SessionFork)
    } else if m == "skills/list"@ {
        Some(RpcMethod::SkillsList)
    } else if m == "skills/changed"@ {
        Some(RpcMethod::SkillsChanged)
    } else if m == "turn/start"@ {
        Some(RpcMethod::TurnStart)
    } else if m == "turn/interrupt"@ {
        Some(RpcMethod::TurnInterrupt)
    } else if m == "turn/steer"@ {
        Some(RpcMethod::TurnSteer)
    } else if m == "approval/respond"@ {
        Some(RpcMethod::ApprovalRespond)
    } else if m == "events/subscribe"@ {
        Some(RpcMethod::EventsSubscribe)
    } else {
        None
    }
}

/// Where a message goes: `initialized` marks the connection ready,
/// `initialize` is answered, other messages of a connection that is not
/// ready are refused, known methods are called and unknown ones refused;
/// what needs a reply and has no id is ignored.
pub open spec fn route_of(method: Seq<char>, has_id: bool, ready: bool) -> Route {
    if method == "initialized"@ {
        Route::MarkReady
    } else if method == "initialize"@ {
        Route::Initialize
    } else if !has_id {
        Route::Ignore
    } else if !ready {
        Route::NotInitialized
    } else {
        match method_named(method) {
            Some(m) => Route::Call(m),
            None => Route::UnknownMethod,
        }
    }
}

fn str_is(a: &str, b: &str) -> (r: bool)
    ensures
        r == (a@ == b@),
{
    a.to_owned() == b.to_owned()
}

fn method_of(m: &str) -> (r: Option<RpcMethod>)
    ensures
        r == method_named(m@),
{
    if str_is(m, "session/start") {
        Some(RpcMethod::SessionStart)
    } else if str_is(m, "session/list") {
        Some(RpcMethod::SessionList)
    } else if str_is(m, "session/title/update") {
        Some(RpcMethod::SessionTitleUpdate)
    } else if str_is(m, "session/resume") {
        Some(RpcMethod::SessionResume)
    } else if str_is(m, "session/fork") {
        Some(RpcMethod::SessionFork)
    } else if str_is(m, "skills/list") {
        Some(RpcMethod::SkillsList)
    } else if str_is(m, "skills/changed") {
        Some(RpcMethod::SkillsChanged)
    } else if str_is(m, "turn/start") {
        Some(RpcMethod::TurnStart)
    } else if str_is(m, "turn/interrupt") {
        Some(RpcMethod::TurnInterrupt)
    } else if str_is(m, "turn/steer") {
        Some(RpcMethod::TurnSteer)
    } else if str_is(m, "approval/respond") {
        Some(RpcMethod::ApprovalRespond)
    } else if str_is(m, "events/subscribe") {
        Some(RpcMethod::EventsSubscribe)
    } else {
        None
    }
}

/// Where a client message goes, given its method, whether it carries an id
/// and whether its connection finished the handshake.
pub fn route_incoming(method: &str, has_id: bool, ready: bool) -> (r: Route)
    ensures
        r == route_of(method@, has_id, ready),
{
    if str_is(method, "initialized") {
        Route::MarkReady
    } else if str_is(method, "initialize") {
        Route::Initialize
    } else if !has_id {
        Route::Ignore
    } else if !ready {
        Route::NotInitialized
    } else {
        match method_of(method) {
            Some(m) => Route::Call(m),
            None => Route::UnknownMethod,
        }
    }
}

/// The message a refused request of a connection that is not ready gets.
pub fn not_initialized() -> (r: Refusal)
    ensures
        r.code == ProtocolErrorCode::NotInitialized,
        r.message@ == "connection has not completed initialize/initialized"@,
{
    Refusal { code: ProtocolErrorCode::NotInitialized, message: "connection has not completed initialize/initialized" }
}

// ---------------------------------------------------------------- turns

/// The kinds of failure in resolving a turn's skills.
#[derive(Clone, Copy, Debug, PartialEq, Eq, Structural)]
pub enum SkillErrorKind {
    SkillNotFound,
    SkillDisabled,
    SkillParseFailed,
    SkillRootUnavailable,
    DuplicateSkillId,
}

/// The code a skill failure is answered with: the client's fault for a
/// missing or disabled skill, the server's otherwise.
pub fn skill_error_code(kind: SkillErrorKind) -> (r: ProtocolErrorCode)
    ensures
        r == if kind == SkillErrorKind::SkillNotFound || kind == SkillErrorKind::SkillDisabled {
            ProtocolErrorCode::InvalidParams
        } else {
            ProtocolErrorCode::InternalError
        },
{
    match kind {
        SkillErrorKind::SkillNotFound | SkillErrorKind::SkillDisabled => ProtocolErrorCode::InvalidParams,
        _ => ProtocolErrorCode::InternalError,
    }
}

/// What a turn request's input shows, when it shows anything.
pub open spec fn shown_input(input: Seq<InputItem>) -> Option<Seq<char>> {
    if input.len() == 0 || input_parts(input).len() == 0 {
        None
    } else {
        Some(join(input_parts(input), seq!['\n']))
    }
}

/// The first checks of a turn start: its input must show something and its
/// session must exist. Gives the input as shown.
pub fn turn_start_precheck(input: &[InputItem], session_found: bool) -> (r: Result<String, Refusal>)
    ensures
        match r {
            Ok(s) => shown_input(input@) == Some(s@) && session_found,
            Err(e) => {
                &&& shown_input(input@) is None ==> e.code == ProtocolErrorCode::EmptyInput && e.message@
                    == "turn input is empty"@
                &&& shown_input(input@) is Some ==> !session_found && e.code == ProtocolErrorCode::SessionNotFound
                    && e.message@ == "session does not exist"@
            },
        },
{
    if input.len() == 0 {
        return Err(Refusal { code: ProtocolErrorCode::EmptyInput, message: "turn input is empty" });
    }
    let shown = match render_input_items(input) {
        Some(s) => s,
        None => {
            return Err(Refusal { code: ProtocolErrorCode::EmptyInput, message: "turn input is empty" });
        },
    };
    if !session_found {
        return Err(Refusal { code: ProtocolErrorCode::SessionNotFound, message: "session does not exist" });
    }
    Ok(shown)
}

/// The last check of a turn start: a session runs one turn at a time.
pub fn turn_start_admit(has_active_turn: bool) -> (r: Result<(), Refusal>)
    ensures
        r is Ok <==> !has_active_turn,
        r matches Err(e) ==> e.code == ProtocolErrorCode::TurnAlreadyRunning && e.message@
            == "session already has an active turn"@,
{
    if has_active_turn {
        Err(Refusal { code: ProtocolErrorCode::TurnAlreadyRunning, message: "session already has an active turn" })
    } else {
        Ok(())
    }
}

/// The sequence number of a session's next turn: one after its latest, or
/// the first.
pub fn next_sequence(latest: Option<u64>) -> (r: u64)
    requires
        latest matches Some(n) ==> n < u64::MAX,
    ensures
        r == match latest {
            Some(n) => n + 1,
            None => 1,
        },
{
    match latest {
        Some(n) => n + 1,
        None => 1,
    }
}

/// Which turn an interrupt may stop: the session must exist, and its active
/// turn must be the one named.
pub fn interrupt_check(session_found: bool, active_turn: Option<TurnId>, turn_id: TurnId) -> (r: Result<(), Refusal>)
    ensures
        r is Ok <==> session_found && active_turn == Some(turn_id),
        r matches Err(e) ==> if !session_found {
            e.code == ProtocolErrorCode::SessionNotFound && e.message@ == "session does not exist"@
        } else if active_turn is None {
            e.code == ProtocolErrorCode::TurnNotFound && e.message@ == "turn is not active"@
        } else {
            e.code == ProtocolErrorCode::TurnNotFound && e.message@ == "turn does not exist"@
        },
{
    if !session_found {
        return Err(Refusal { code: ProtocolErrorCode::SessionNotFound, message: "session does not exist" });
    }
    match active_turn {
        None => Err(Refusal { code: ProtocolErrorCode::TurnNotFound, message: "turn is not active" }),
        Some(t) => if t == turn_id {
            Ok(())
        } else {
            Err(Refusal { code: ProtocolErrorCode::TurnNotFound, message: "turn does not exist" })
        },
    }
}

/// The checks of a steer request: its input must show something, its
/// session must exist and run a turn, and that turn must be the one the
/// client expects. Gives the input as shown.
pub fn steer_check(
    input: &[InputItem],
    session_found: bool,
    active_turn: Option<TurnId>,
    expected_turn_id: TurnId,
) -> (r: Result<String, Refusal>)
    ensures
        match r {
            Ok(s) => shown_input(input@) == Some(s@) && session_found && active_turn == Some(expected_turn_id),
            Err(e) => if shown_input(input@) is None {
                e.code == ProtocolErrorCode::EmptyInput && e.message@ == "turn steer input is empty"@
            } else if !session_found {
                e.code == ProtocolErrorCode::SessionNotFound && e.message@ == "session does not exist"@
            } else if active_turn is None {
                e.code == ProtocolErrorCode::NoActiveTurn && e.message@ == "no active turn exists"@
            } else {
                active_turn != Some(expected_turn_id) && e.code == ProtocolErrorCode::ExpectedTurnMismatch
                    && e.message@ == "active turn did not match expectedTurnId"@
            },
        },
{
    if input.len() == 0 {
        return Err(Refusal { code: ProtocolErrorCode::EmptyInput, message: "turn steer input is empty" });
    }
    let shown = match render_input_items(input) {
        Some(s) => s,
        None => {
            return Err(Refusal { code: ProtocolErrorCode::EmptyInput, message: "turn steer input is empty" });
        },
    };
    if !session_found {
        return Err(Refusal { code: ProtocolErrorCode::SessionNotFound, message: "session does not exist" });
    }
    match active_turn {
        None => Err(Refusal { code: ProtocolErrorCode::NoActiveTurn, message: "no active turn exists" }),
        Some(t) => if t == expected_turn_id {
            Ok(shown)
        } else {
            Err(Refusal { code: ProtocolErrorCode::ExpectedTurnMismatch, message: "active turn did not match expectedTurnId" })
        },
    }
}

// ---------------------------------------------------------------- approvals and events

/// The answer to a response for an approval that is not pending.
pub fn approval_not_found() -> (r: Refusal)
    ensures
        r.code == ProtocolErrorCode::ApprovalNotFound,
        r.message@ == "no pending approval request exists with that approval_id"@,
{
    Refusal { code: ProtocolErrorCode::ApprovalNotFound, message: "no pending approval request exists with that approval_id" }
}

/// The id of a connection's event subscription: `sub-<connection>-1`.
pub fn subscription_id(connection_id: u64) -> (r: String)
    ensures
        r@ == "sub-"@ + crate::text::decimal(connection_id as nat) + "-1"@,
{
    let mut v = crate::text::chars_of("sub-");
    crate::text::push_decimal_u64(&mut v, connection_id);
    crate::tui::transcript::push_str(&mut v, "-1");
    crate::text::string_of(v.as_slice())
}

// ---------------------------------------------------------------- laws

/// No method runs for a connection that has not finished the handshake, and
/// a message without an id is never refused, since a refusal could not be
/// addressed.
pub proof fn law_handshake_guards_methods(method: Seq<char>, has_id: bool)
    ensures
        !(route_of(method, has_id, false) is Call),
        !has_id ==> !(route_of(method, has_id, false) is NotInitialized) && !(route_of(method, has_id, true) is UnknownMethod),
{
}

} // verus!
