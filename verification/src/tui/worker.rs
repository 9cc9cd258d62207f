//! Decisions of the interface's background worker: what each server
//! notification turns into, and how the server's environment is adjusted.
use vstd::prelude::*;

use crate::server::approval::{ApprovalDecision, SessionId, TurnId};
use crate::text::{chars_eq, chars_of, string_of, trim, trim_chars};
use crate::tui::tool_render::{call_summary, summarize_tool_call, ToolCallPayload};

verus! {

// ---------------------------------------------------------------- model

/// How a turn ended.
#[derive(Clone, Copy, Debug, PartialEq, Eq, Structural)]
pub enum TurnStatus {
    InProgress,
    Completed,
    Interrupted,
    Failed,
}

/// What `{:?}` prints for a turn status.
pub open spec fn status_label(s: TurnStatus) -> Seq<char> {
    match s {
        TurnStatus::InProgress => "InProgress"@,
        TurnStatus::Completed => "Completed"@,
        TurnStatus::Interrupted => "Interrupted"@,
        TurnStatus::Failed => "Failed"@,
    }
}

/// What `{:?}` prints for a turn status.
pub fn status_name(s: TurnStatus) -> (r: &'static str)
    ensures
        r@ == status_label(s),
{
    match s {
        TurnStatus::InProgress => "InProgress",
        TurnStatus::Completed => "Completed",
        TurnStatus::Interrupted => "Interrupted",
        TurnStatus::Failed => "Failed",
    }
}

/// Token counts of a turn.
#[derive(Clone, Copy, Debug, PartialEq, Eq, Structural)]
pub struct TokenUsage {
    pub input_tokens: u64,
    pub output_tokens: u64,
}

/// The kinds of completed items.
#[derive(Clone, Copy, Debug, PartialEq, Eq, Structural)]
pub enum ItemKind {
    AgentMessage,
    Reasoning,
    ToolCall,
    ToolResult,
    Other,
}

/// What the worker reads of a completed item: its kind and the payload's
/// fields it uses.
#[derive(Clone, Debug)]
pub struct CompletedItem {
    pub kind: ItemKind,
    /// The payload's `text`, when it is a string.
    pub text: Option<String>,
    /// The payload's `tool_use_id`, when it is a string.
    pub tool_use_id: Option<String>,
    /// The payload read as a tool call.
    pub call: ToolCallPayload,
    /// A preview of the payload's `input`, when it has one.
    pub input_preview: Option<String>,
    /// The payload's `content` as text, when it has one.
    pub content: Option<String>,
    /// The payload's `is_error`, when it is a boolean.
    pub is_error: Option<bool>,
}

/// A notification from the server.
#[derive(Clone, Debug)]
pub enum ServerEvent {
    TurnStarted { turn_id: TurnId, model_slug: String },
    ItemDelta { delta: String },
    ItemCompleted(CompletedItem),
    TurnCompleted { status: TurnStatus, usage: Option<TokenUsage> },
    TurnUsageUpdated { total_input_tokens: usize, total_output_tokens: usize },
    TurnFailed { status: TurnStatus, usage: Option<TokenUsage> },
    SessionTitleUpdated { session_id: String, title: Option<String> },
    ApprovalRequested {
        session_id: SessionId,
        turn_id: TurnId,
        approval_id: String,
        action_summary: String,
        justification: String,
    },
    Other,
}

/// What the worker tells the interface.
#[derive(Clone, Debug, PartialEq, Eq)]
pub enum WorkerEvent {
    TurnStarted { model: String },
    TextDelta(String),
    ReasoningDelta(String),
    AssistantMessageCompleted(String),
    ReasoningCompleted(String),
    ToolCall { tool_use_id: String, summary: String, detail: Option<String> },
    ToolResult { tool_use_id: String, preview: String, is_error: bool, truncated: bool },
    TurnFinished { stop_reason: String, turn_count: usize, total_input_tokens: usize, total_output_tokens: usize },
    UsageUpdated { total_input_tokens: usize, total_output_tokens: usize },
    TurnFailed { message: String, turn_count: usize, total_input_tokens: usize, total_output_tokens: usize },
    SessionTitleUpdated { session_id: String, title: String },
    ApprovalRequest {
        session_id: SessionId,
        turn_id: TurnId,
        approval_id: String,
        action_summary: String,
        justification: String,
    },
}

/// What the worker keeps between notifications.
#[derive(Clone, Debug)]
pub struct NotificationState {
    pub active_turn_id: Option<TurnId>,
    pub model: String,
    pub latest_completed_agent_message: Option<String>,
    pub turn_count: usize,
    pub total_input_tokens: usize,
    pub total_output_tokens: usize,
}

// ---------------------------------------------------------------- items

/// A string's text trimmed, when it is not blank.
pub open spec fn nonblank(s: Option<String>) -> Option<Seq<char>> {
    match s {
        Some(t) => if trim(t@).len() > 0 {
            Some(trim(t@))
        } else {
            None
        },
        None => None,
    }
}

fn nonblank_text(s: &Option<String>) -> (r: Option<String>)
    ensures
        match r {
            Some(t) => nonblank(*s) == Some(t@),
            None => nonblank(*s) is None,
        },
{
    match s {
        Some(t) => {
            let trimmed = trim_chars(chars_of(t.as_str()).as_slice());
            if trimmed.len() > 0 {
                Some(string_of(trimmed.as_slice()))
            } else {
                None
            }
        },
        None => None,
    }
}

/// The text of a completed assistant message, trimmed, when not blank.
pub fn completed_agent_message_text(item: &CompletedItem) -> (r: Option<String>)
    ensures
        match r {
            Some(t) => item.kind == ItemKind::AgentMessage && nonblank(item.text) == Some(t@),
            None => item.kind != ItemKind::AgentMessage || nonblank(item.text) is None,
        },
{
    if item.kind == ItemKind::AgentMessage {
        nonblank_text(&item.text)
    } else {
        None
    }
}

/// The text of an optional string, or nothing.
pub open spec fn or_empty(s: Option<String>) -> Seq<char> {
    match s {
        Some(t) => t@,
        None => Seq::empty(),
    }
}

/// The event a completed item announces: finished assistant and reasoning
/// text (when not blank), a tool call with its summary and the preview of
/// its input (when not empty), or a tool result.
pub open spec fn completed_event_ok(item: CompletedItem, e: Option<WorkerEvent>) -> bool {
    match item.kind {
        ItemKind::AgentMessage => match nonblank(item.text) {
            Some(t) => e matches Some(WorkerEvent::AssistantMessageCompleted(m)) && m@ == t,
            None => e is None,
        },
        ItemKind::Reasoning => match nonblank(item.text) {
            Some(t) => e matches Some(WorkerEvent::ReasoningCompleted(m)) && m@ == t,
            None => e is None,
        },
        ItemKind::ToolCall => e matches Some(WorkerEvent::ToolCall { tool_use_id, summary, detail }) && (tool_use_id@
            == or_empty(item.tool_use_id) && summary@ == call_summary(item.call) && match item.input_preview {
            Some(p) => if p@.len() > 0 {
                detail matches Some(d) && d@ == p@
            } else {
                detail is None
            },
            None => detail is None,
        }),
        ItemKind::ToolResult => e matches Some(WorkerEvent::ToolResult { tool_use_id, preview, is_error, truncated })
            && (tool_use_id@ == or_empty(item.tool_use_id) && preview@ == or_empty(item.content) && is_error == match item.is_error {
            Some(b) => b,
            None => false,
        } && !truncated),
        ItemKind::Other => e is None,
    }
}

fn text_or_empty(s: &Option<String>) -> (r: String)
    ensures
        r@ == or_empty(*s),
{
    match s {
        Some(t) => t.as_str().to_owned(),
        None => String::new(),
    }
}

/// The event a completed item announces, if any.
pub fn completed_item_event(item: &CompletedItem) -> (r: Option<WorkerEvent>)
    ensures
        completed_event_ok(*item, r),
{
    match item.kind {
        ItemKind::AgentMessage => match nonblank_text(&item.text) {
            Some(t) => Some(WorkerEvent::AssistantMessageCompleted(t)),
            None => None,
        },
        ItemKind::Reasoning => match nonblank_text(&item.text) {
            Some(t) => Some(WorkerEvent::ReasoningCompleted(t)),
            None => None,
        },
        ItemKind::ToolCall => {
            let detail = match &item.input_preview {
                Some(p) => if chars_of(p.as_str()).len() > 0 {
                    Some(p.as_str().to_owned())
                } else {
                    None
                },
                None => None,
            };
            Some(
                WorkerEvent::ToolCall {
                    tool_use_id: text_or_empty(&item.tool_use_id),
                    summary: summarize_tool_call(&item.call),
                    detail,
                },
            )
        },
        ItemKind::ToolResult => Some(
            WorkerEvent::ToolResult {
                tool_use_id: text_or_empty(&item.tool_use_id),
                preview: text_or_empty(&item.content),
                is_error: match item.is_error {
                    Some(b) => b,
                    None => false,
                },
                truncated: false,
            },
        ),
        ItemKind::Other => None,
    }
}

// ---------------------------------------------------------------- dispatch

/// The counters of a state.
pub open spec fn counters(s: NotificationState) -> (usize, usize, usize) {
    (s.turn_count, s.total_input_tokens, s.total_output_tokens)
}

/// How a notification changes the worker's state and what it tells the
/// interface. A notification whose method and payload do not go together
/// changes nothing, except that `turn/started` always forgets the last
/// completed assistant message.
pub open spec fn dispatch_ok(
    method: Seq<char>,
    event: ServerEvent,
    s: NotificationState,
    t: NotificationState,
    out: Option<WorkerEvent>,
) -> bool {
    if method == "turn/started"@ {
        &&& t.latest_completed_agent_message is None
        &&& t.turn_count == s.turn_count && t.total_input_tokens == s.total_input_tokens
            && t.total_output_tokens == s.total_output_tokens
        &&& match event {
            ServerEvent::TurnStarted { turn_id, model_slug } => t.active_turn_id == Some(turn_id) && t.model@
                == model_slug@ && (out matches Some(WorkerEvent::TurnStarted { model }) && model@ == model_slug@),
            _ => t.active_turn_id == s.active_turn_id && t.model@ == s.model@ && out is None,
        }
    } else if method == "item/agentMessage/delta"@ || method == "item/reasoning/textDelta"@ || method
        == "item/reasoning/summaryTextDelta"@ {
        &&& same_state(s, t)
        &&& match event {
            ServerEvent::ItemDelta { delta } => if method == "item/agentMessage/delta"@ {
                out matches Some(WorkerEvent::TextDelta(d)) && d@ == delta@
            } else {
                out matches Some(WorkerEvent::ReasoningDelta(d)) && d@ == delta@
            },
            _ => out is None,
        }
    } else if method == "item/completed"@ {
        match event {
            ServerEvent::ItemCompleted(item) => {
                &&& t.active_turn_id == s.active_turn_id && t.model@ == s.model@ && counters(t) == counters(s)
                &&& match (item.kind == ItemKind::AgentMessage, nonblank(item.text)) {
                    (true, Some(text)) => t.latest_completed_agent_message matches Some(m) && m@ == text,
                    _ => opt_text(t.latest_completed_agent_message) == opt_text(s.latest_completed_agent_message),
                }
                &&& completed_event_ok(item, out)
            },
            _ => same_state(s, t) && out is None,
        }
    } else if method == "turn/completed"@ {
        match event {
            ServerEvent::TurnCompleted { status, usage } => if status == TurnStatus::Completed || status
                == TurnStatus::Interrupted {
                let (inp, outp) = match usage {
                    Some(u) => (u.input_tokens as usize, u.output_tokens as usize),
                    None => (s.total_input_tokens, s.total_output_tokens),
                };
                &&& t.active_turn_id is None && t.model@ == s.model@
                &&& t.turn_count == s.turn_count + 1 && t.total_input_tokens == inp && t.total_output_tokens == outp
                &&& t.latest_completed_agent_message is None
                &&& out matches Some(
                    WorkerEvent::TurnFinished { stop_reason, turn_count, total_input_tokens, total_output_tokens },
                ) && stop_reason@ == status_label(status) && turn_count == t.turn_count && total_input_tokens == inp
                    && total_output_tokens == outp
            } else {
                &&& t.active_turn_id is None && t.model@ == s.model@ && counters(t) == counters(s)
                &&& opt_text(t.latest_completed_agent_message) == opt_text(s.latest_completed_agent_message)
                &&& out is None
            },
            _ => same_state(s, t) && out is None,
        }
    } else if method == "turn/usage/updated"@ {
        match event {
            ServerEvent::TurnUsageUpdated { total_input_tokens, total_output_tokens } => {
                &&& t.active_turn_id == s.active_turn_id && t.model@ == s.model@ && t.turn_count == s.turn_count
                &&& t.total_input_tokens == total_input_tokens && t.total_output_tokens == total_output_tokens
                &&& opt_text(t.latest_completed_agent_message) == opt_text(s.latest_completed_agent_message)
                &&& out == Some(WorkerEvent::UsageUpdated { total_input_tokens, total_output_tokens })
            },
            _ => same_state(s, t) && out is None,
        }
    } else if method == "turn/failed"@ {
        match event {
            ServerEvent::TurnFailed { status, usage } => {
                let (inp, outp) = match usage {
                    Some(u) => (u.input_tokens as usize, u.output_tokens as usize),
                    None => (s.total_input_tokens, s.total_output_tokens),
                };
                let message = match s.latest_completed_agent_message {
                    Some(m) => m@,
                    None => "turn failed with status "@ + status_label(status),
                };
                &&& t.active_turn_id is None && t.model@ == s.model@ && t.turn_count == s.turn_count
                &&& t.total_input_tokens == inp && t.total_output_tokens == outp
                &&& t.latest_completed_agent_message is None
                &&& out matches Some(
                    WorkerEvent::TurnFailed { message: m, turn_count, total_input_tokens, total_output_tokens },
                ) && m@ == message && turn_count == s.turn_count && total_input_tokens == inp && total_output_tokens
                    == outp
            },
            _ => same_state(s, t) && out is None,
        }
    } else if method == "session/title/updated"@ {
        &&& same_state(s, t)
        &&& match event {
            ServerEvent::SessionTitleUpdated { session_id, title: Some(title) } => out matches Some(
                WorkerEvent::SessionTitleUpdated { session_id: sid, title: tt },
            ) && sid@ == session_id@ && tt@ == title@,
            _ => out is None,
        }
    } else if method == "approval/requested"@ {
        &&& same_state(s, t)
        &&& match event {
            ServerEvent::ApprovalRequested { session_id, turn_id, approval_id, action_summary, justification } => out
                matches Some(
                WorkerEvent::ApprovalRequest {
                    session_id: sid,
                    turn_id: tid,
                    approval_id: aid,
                    action_summary: a,
                    justification: j,
                },
            ) && sid == session_id && tid == turn_id && aid@ == approval_id@ && a@ == action_summary@ && j@
                == justification@,
            _ => out is None,
        }
    } else {
        same_state(s, t) && out is None
    }
}

/// An optional string's text.
pub open spec fn opt_text(s: Option<String>) -> Option<Seq<char>> {
    match s {
        Some(t) => Some(t@),
        None => None,
    }
}

/// The state is unchanged.
pub open spec fn same_state(s: NotificationState, t: NotificationState) -> bool {
    &&& t.active_turn_id == s.active_turn_id
    &&& t.model@ == s.model@
    &&& counters(t) == counters(s)
    &&& opt_text(t.latest_completed_agent_message) == opt_text(s.latest_completed_agent_message)
}

fn is_method(method: &[char], name: &str) -> (r: bool)
    ensures
        r == (method@ == name@),
{
    chars_eq(method, chars_of(name).as_slice())
}

fn copy_opt(s: &Option<String>) -> (r: Option<String>)
    ensures
        opt_text(r) == opt_text(*s),
{
    match s {
        Some(t) => Some(t.as_str().to_owned()),
        None => None,
    }
}

fn failure_message(latest: &Option<String>, status: TurnStatus) -> (r: String)
    ensures
        r@ == match *latest {
            Some(m) => m@,
            None => "turn failed with status "@ + status_label(status),
        },
{
    match latest {
        Some(m) => m.as_str().to_owned(),
        None => {
            let mut v = chars_of("turn failed with status ");
            crate::text::extend_chars(&mut v, chars_of(status_name(status)).as_slice());
            string_of(v.as_slice())
        },
    }
}

/// Turns one server notification into the interface's event, if any, and
/// updates the worker's state.
pub fn dispatch_server_notification(method: &str, event: &ServerEvent, state: &mut NotificationState) -> (r: Option<
    WorkerEvent,
>)
    requires
        old(state).turn_count < usize::MAX,
    ensures
        dispatch_ok(method@, *event, *old(state), *final(state), r),
{
    let m = chars_of(method);
    if is_method(m.as_slice(), "turn/started") {
        state.latest_completed_agent_message = None;
        return match event {
            ServerEvent::TurnStarted { turn_id, model_slug } => {
                state.active_turn_id = Some(*turn_id);
                state.model = model_slug.as_str().to_owned();
                Some(WorkerEvent::TurnStarted { model: model_slug.as_str().to_owned() })
            },
            _ => None,
        };
    }
    if is_method(m.as_slice(), "item/agentMessage/delta") {
        return match event {
            ServerEvent::ItemDelta { delta } => Some(WorkerEvent::TextDelta(delta.as_str().to_owned())),
            _ => None,
        };
    }
    if is_method(m.as_slice(), "item/reasoning/textDelta") || is_method(m.as_slice(), "item/reasoning/summaryTextDelta") {
        return match event {
            ServerEvent::ItemDelta { delta } => Some(WorkerEvent::ReasoningDelta(delta.as_str().to_owned())),
            _ => None,
        };
    }
    if is_method(m.as_slice(), "item/completed") {
        return match event {
            ServerEvent::ItemCompleted(item) => {
                match completed_agent_message_text(item) {
                    Some(text) => {
                        state.latest_completed_agent_message = Some(text);
                    },
                    None => {},
                }
                completed_item_event(item)
            },
            _ => None,
        };
    }
    if is_method(m.as_slice(), "turn/completed") {
        return match event {
            ServerEvent::TurnCompleted { status, usage } => {
                state.active_turn_id = None;
                if *status == TurnStatus::Completed || *status == TurnStatus::Interrupted {
                    state.turn_count = state.turn_count + 1;
                    match usage {
                        Some(u) => {
                            state.total_input_tokens = u.input_tokens as usize;
                            state.total_output_tokens = u.output_tokens as usize;
                        },
                        None => {},
                    }
                    let finished = WorkerEvent::TurnFinished {
                        stop_reason: status_name(*status).to_owned(),
                        turn_count: state.turn_count,
                        total_input_tokens: state.total_input_tokens,
                        total_output_tokens: state.total_output_tokens,
                    };
                    state.latest_completed_agent_message = None;
                    Some(finished)
                } else {
                    None
                }
            },
            _ => None,
        };
    }
    if is_method(m.as_slice(), "turn/usage/updated") {
        return match event {
            ServerEvent::TurnUsageUpdated { total_input_tokens, total_output_tokens } => {
                state.total_input_tokens = *total_input_tokens;
                state.total_output_tokens = *total_output_tokens;
                Some(
                    WorkerEvent::UsageUpdated {
                        total_input_tokens: *total_input_tokens,
                        total_output_tokens: *total_output_tokens,
                    },
                )
            },
            _ => None,
        };
    }
    if is_method(m.as_slice(), "turn/failed") {
        return match event {
            ServerEvent::TurnFailed { status, usage } => {
                state.active_turn_id = None;
                let message = failure_message(&state.latest_completed_agent_message, *status);
                state.latest_completed_agent_message = None;
                match usage {
                    Some(u) => {
                        state.total_input_tokens = u.input_tokens as usize;
                        state.total_output_tokens = u.output_tokens as usize;
                    },
                    None => {},
                }
                Some(
                    WorkerEvent::TurnFailed {
                        message,
                        turn_count: state.turn_count,
                        total_input_tokens: state.total_input_tokens,
                        total_output_tokens: state.total_output_tokens,
                    },
                )
            },
            _ => None,
        };
    }
    if is_method(m.as_slice(), "session/title/updated") {
        return match event {
            ServerEvent::SessionTitleUpdated { session_id, title: Some(title) } => Some(
                WorkerEvent::SessionTitleUpdated {
                    session_id: session_id.as_str().to_owned(),
                    title: title.as_str().to_owned(),
                },
            ),
            _ => None,
        };
    }
    if is_method(m.as_slice(), "approval/requested") {
        return match event {
            ServerEvent::ApprovalRequested { session_id, turn_id, approval_id, action_summary, justification } => Some(
                WorkerEvent::ApprovalRequest {
                    session_id: *session_id,
                    turn_id: *turn_id,
                    approval_id: approval_id.as_str().to_owned(),
                    action_summary: action_summary.as_str().to_owned(),
                    justification: justification.as_str().to_owned(),
                },
            ),
            _ => None,
        };
    }
    None
}

// ---------------------------------------------------------------- env

/// The environment as key and value texts.
pub open spec fn env_view(env: Seq<(String, String)>) -> Seq<(Seq<char>, Seq<char>)> {
    env.map_values(|e: (String, String)| (e.0@, e.1@))
}

/// The first position of `key` in the environment.
pub open spec fn key_index(env: Seq<(Seq<char>, Seq<char>)>, key: Seq<char>) -> Option<int>
    decreases env.len(),
{
    if env.len() == 0 {
        None
    } else if env[0].0 == key {
        Some(0)
    } else {
        match key_index(env.drop_first(), key) {
            Some(i) => Some(i + 1),
            None => None,
        }
    }
}

/// The environment with `key` set to `value`: its first entry updated, or
/// a new entry at the end.
pub open spec fn env_set(env: Seq<(Seq<char>, Seq<char>)>, key: Seq<char>, value: Seq<char>) -> Seq<(Seq<char>, Seq<char>)> {
    match key_index(env, key) {
        Some(i) => env.update(i, (key, value)),
        None => env.push((key, value)),
    }
}

/// The environment without any entry for `key`.
pub open spec fn env_unset(env: Seq<(Seq<char>, Seq<char>)>, key: Seq<char>) -> Seq<(Seq<char>, Seq<char>)>
    decreases env.len(),
{
    if env.len() == 0 {
        Seq::empty()
    } else if env.last().0 == key {
        env_unset(env.drop_last(), key)
    } else {
        env_unset(env.drop_last(), key).push(env.last())
    }
}

proof fn lemma_key_index_bounds(env: Seq<(Seq<char>, Seq<char>)>, key: Seq<char>)
    ensures
        match key_index(env, key) {
            Some(i) => 0 <= i < env.len() && env[i].0 == key && forall|j: int| 0 <= j < i ==> env[j].0 != key,
            None => forall|j: int| 0 <= j < env.len() ==> env[j].0 != key,
        },
    decreases env.len(),
{
    if env.len() > 0 {
        lemma_key_index_bounds(env.drop_first(), key);
        assert forall|j: int| 1 <= j < env.len() implies env[j] == env.drop_first()[j - 1] by {}
    }
}

/// Sets `key` to `value` in a process environment.
pub fn apply_env_override(env: &mut Vec<(String, String)>, key: &str, value: &str)
    ensures
        env_view(final(env)@) == env_set(env_view(old(env)@), key@, value@),
{
    let k = chars_of(key);
    let ghost ev = env_view(env@);
    proof {
        lemma_key_index_bounds(ev, key@);
    }
    let mut i: usize = 0;
    while i < env.len()
        invariant
            i <= env.len(),
            k@ == key@,
            ev == env_view(env@),
            ev == env_view(old(env)@),
            forall|j: int| 0 <= j < i ==> ev[j].0 != key@,
        decreases env.len() - i,
    {
        if chars_eq(chars_of(env[i].0.as_str()).as_slice(), k.as_slice()) {
            let entry = (key.to_owned(), value.to_owned());
            let ghost before = env@;
            env.set(i, entry);
            proof {
                lemma_key_index_bounds(ev, key@);
                assert(ev[i as int].0 == key@);
                assert(key_index(ev, key@) == Some(i as int)) by {
                    match key_index(ev, key@) {
                        Some(p) => {
                            if p < i {
                            } else if p > i {
                            }
                        },
                        None => {},
                    }
                }
                assert(env_view(env@) =~= ev.update(i as int, (key@, value@)));
            }
            return;
        }
        i += 1;
    }
    proof {
        lemma_key_index_bounds(ev, key@);
        if key_index(ev, key@) is Some {
            let p = key_index(ev, key@)->Some_0;
            assert(ev[p].0 == key@);
        }
    }
    env.push((key.to_owned(), value.to_owned()));
    assert(env_view(env@) =~= ev.push((key@, value@)));
}

/// Removes every entry for `key` from a process environment.
fn remove_key(env: &mut Vec<(String, String)>, key: &str)
    ensures
        env_view(final(env)@) == env_unset(env_view(old(env)@), key@),
{
    let k = chars_of(key);
    let ghost ev = env_view(env@);
    let mut kept: Vec<(String, String)> = Vec::new();
    let mut i: usize = 0;
    while i < env.len()
        invariant
            i <= env.len(),
            k@ == key@,
            ev == env_view(env@),
            env_view(kept@) == env_unset(ev.take(i as int), key@),
        decreases env.len() - i,
    {
        assert(ev.take((i + 1) as int).drop_last() =~= ev.take(i as int));
        if !chars_eq(chars_of(env[i].0.as_str()).as_slice(), k.as_slice()) {
            let ghost before = kept@;
            kept.push((env[i].0.as_str().to_owned(), env[i].1.as_str().to_owned()));
            assert(env_view(kept@) =~= env_view(before).push(ev[i as int]));
        }
        i += 1;
    }
    assert(ev.take(i as int) =~= ev);
    *env = kept;
}

/// Sets `key` to `value`, or removes `key` when there is no value.
pub fn apply_optional_env_override(env: &mut Vec<(String, String)>, key: &str, value: Option<String>)
    ensures
        env_view(final(env)@) == match value {
            Some(v) => env_set(env_view(old(env)@), key@, v@),
            None => env_unset(env_view(old(env)@), key@),
        },
{
    match value {
        Some(v) => apply_env_override(env, key, v.as_str()),
        None => remove_key(env, key),
    }
}

// ---------------------------------------------------------------- commands

/// How the interface reports an answered approval.
pub open spec fn outcome_label(decision: ApprovalDecision) -> Seq<char> {
    match decision {
        ApprovalDecision::Approve => "approved"@,
        ApprovalDecision::Deny => "denied"@,
        ApprovalDecision::Cancel => "cancelled"@,
    }
}

/// How the interface reports an answered approval.
pub fn approval_outcome(decision: ApprovalDecision) -> (r: &'static str)
    ensures
        r@ == outcome_label(decision),
{
    match decision {
        ApprovalDecision::Approve => "approved",
        ApprovalDecision::Deny => "denied",
        ApprovalDecision::Cancel => "cancelled",
    }
}

/// The first line of `s`, empty when it has none.
pub open spec fn first_line(s: Seq<char>) -> Seq<char> {
    if crate::text::lines(s).len() > 0 {
        crate::text::lines(s)[0]
    } else {
        Seq::empty()
    }
}

/// Turns the approval prompt in the transcript into its resolution: titled
/// with the outcome, its body cut to its first line and a note that the
/// answer was sent.
pub fn resolve_approval_item(item: &mut crate::tui::transcript::TranscriptItem, decision: ApprovalDecision)
    ensures
        final(item).kind == crate::tui::transcript::TranscriptItemKind::ApprovalResolution,
        final(item).title@ == "Approval "@ + outcome_label(decision),
        final(item).body@ == first_line(old(item).body@) + "\n(sent "@ + outcome_label(decision) + " to server)"@,
        final(item).fold_stage == old(item).fold_stage,
{
    let outcome = approval_outcome(decision);
    let ls = crate::text::lines_of(chars_of(item.body.as_str()).as_slice());
    let mut body: Vec<char> = if ls.len() > 0 {
        assert(crate::text::views(ls@)[0] == ls@[0]@);
        crate::text::copy_chars(&ls[0])
    } else {
        Vec::new()
    };
    crate::tui::transcript::push_str(&mut body, "\n(sent ");
    crate::tui::transcript::push_str(&mut body, outcome);
    crate::tui::transcript::push_str(&mut body, " to server)");
    let mut title = chars_of("Approval ");
    crate::tui::transcript::push_str(&mut title, outcome);
    item.kind = crate::tui::transcript::TranscriptItemKind::ApprovalResolution;
    item.title = string_of(title.as_slice());
    item.body = string_of(body.as_slice());
}

/// The listing entry of a saved session: untitled sessions say so, and the
/// active session is marked.
pub fn session_list_entry(
    session_id: SessionId,
    id_text: &str,
    title: Option<String>,
    updated_at: &str,
    active: Option<SessionId>,
) -> (r: crate::tui::panels::SessionListEntry)
    ensures
        r.session_id@ == id_text@,
        r.title@ == match title {
            Some(t) => t@,
            None => "(untitled)"@,
        },
        r.updated_at@ == updated_at@,
        r.is_active == (active == Some(session_id)),
{
    crate::tui::panels::SessionListEntry {
        session_id: id_text.to_owned(),
        title: match title {
            Some(t) => t,
            None => "(untitled)".to_owned(),
        },
        updated_at: updated_at.to_owned(),
        is_active: match active {
            Some(a) => a == session_id,
            None => false,
        },
    }
}

/// An interrupt reaches the server only while a turn of a session runs.
pub fn interrupt_target(active_turn_id: Option<TurnId>, session_id: Option<SessionId>) -> (r: Option<(SessionId, TurnId)>)
    ensures
        r == match (active_turn_id, session_id) {
            (Some(t), Some(s)) => Some((s, t)),
            _ => None,
        },
{
    match (active_turn_id, session_id) {
        (Some(t), Some(s)) => Some((s, t)),
        _ => None,
    }
}

// ---------------------------------------------------------------- laws

/// After `key` is set, its first entry holds the value, and nothing else
/// changes but the entry count, which grows by at most one.
pub proof fn law_env_set_then_lookup(env: Seq<(Seq<char>, Seq<char>)>, key: Seq<char>, value: Seq<char>)
    ensures
        ({
            let e = env_set(env, key, value);
            &&& key_index(e, key) matches Some(i) && e[i] == (key, value)
            &&& e.len() == env.len() || e.len() == env.len() + 1
        }),
{
    lemma_key_index_bounds(env, key);
    let e = env_set(env, key, value);
    lemma_key_index_bounds(e, key);
    match key_index(env, key) {
        Some(i) => {
            assert(e[i].0 == key);
            match key_index(e, key) {
                Some(p) => {
                    if p < i {
                        assert(e[p] == env[p]);
                    } else if p > i {
                    }
                },
                None => {},
            }
        },
        None => {
            assert(e[env.len() as int].0 == key);
            match key_index(e, key) {
                Some(p) => {
                    if p < env.len() {
                        assert(e[p] == env[p]);
                    }
                },
                None => {},
            }
        },
    }
}

/// Unsetting a key leaves no entry for it.
pub proof fn law_env_unset_removes(env: Seq<(Seq<char>, Seq<char>)>, key: Seq<char>)
    ensures
        forall|j: int| 0 <= j < env_unset(env, key).len() ==> #[trigger] env_unset(env, key)[j].0 != key,
    decreases env.len(),
{
    if env.len() > 0 {
        law_env_unset_removes(env.drop_last(), key);
        let r = env_unset(env.drop_last(), key);
        assert forall|j: int| 0 <= j < env_unset(env, key).len() implies #[trigger] env_unset(env, key)[j].0 != key by {
            if env.last().0 != key && j == r.len() {
                assert(env_unset(env, key)[j] == env.last());
            } else {
                assert(env_unset(env, key)[j] == r[j]);
            }
        }
    }
}

/// A completed turn is counted once, and the same turn never starts and
/// finishes the count twice: the count grows by exactly one per completed
/// or interrupted turn.
pub proof fn law_turn_count_step(
    s: NotificationState,
    t: NotificationState,
    status: TurnStatus,
    usage: Option<TokenUsage>,
    out: Option<WorkerEvent>,
)
    requires
        dispatch_ok("turn/completed"@, ServerEvent::TurnCompleted { status, usage }, s, t, out),
    ensures
        t.turn_count == s.turn_count + if status == TurnStatus::Completed || status == TurnStatus::Interrupted {
            1int
        } else {
            0int
        },
        t.active_turn_id is None,
{
    reveal_strlit("turn/started");
    reveal_strlit("item/agentMessage/delta");
    reveal_strlit("item/reasoning/textDelta");
    reveal_strlit("item/reasoning/summaryTextDelta");
    reveal_strlit("item/completed");
    reveal_strlit("turn/completed");
    let m = "turn/completed"@;
    assert("turn/completed"@.len() == 14);
    assert("turn/started"@.len() == 12);
    assert(m != "turn/started"@);
    assert(m != "item/agentMessage/delta"@);
    assert(m != "item/reasoning/textDelta"@);
    assert(m != "item/reasoning/summaryTextDelta"@);
    assert(m[0] != "item/completed"@[0]);
    assert(m != "item/completed"@);
}

} // verus!
