use lpagent::tui::history::{project_history_items, SessionHistoryItem, SessionHistoryItemKind};
use lpagent::tui::tool_render::{
    compact_tool_summary, normalize_display_output, render_skill_list_body, render_skill_source,
    summarize_tool_call, summarize_tool_input, truncate_tool_output, SkillRecord, SkillSource,
    ToolCallPayload, ToolInput,
};
use lpagent::tui::transcript::{TranscriptItem, TranscriptItemKind};
use lpagent::tui::worker_loop::{
    request_failed, session_resumed, session_started, turn_started, worker_step, WorkerAction, WorkerCommand,
    WorkerState,
};

fn payload(tool: Option<&str>, fields: &[(&str, &str)], preview: &str) -> ToolCallPayload {
    ToolCallPayload {
        tool_name: tool.map(|t| t.to_string()),
        input: ToolInput {
            string_fields: fields
                .iter()
                .map(|(k, v)| (k.to_string(), v.to_string()))
                .collect(),
            preview: preview.to_string(),
        },
    }
}

#[test]
fn bash_tool_summary_uses_command_text() {
    let p = payload(
        Some("bash"),
        &[("command", "Get-Date -Format \"yyyy-MM-dd\"")],
        "{\n  \"command\": \"Get-Date -Format \\\"yyyy-MM-dd\\\"\"\n}",
    );
    assert_eq!(summarize_tool_call(&p), "bash: Get-Date -Format \"yyyy-MM-dd\"");
}

#[test]
fn tool_output_preview_truncates_large_content() {
    let content = (1..=12)
        .map(|index| format!("line {index}"))
        .collect::<Vec<_>>()
        .join("\n");

    assert_eq!(
        truncate_tool_output(&content),
        "line 1\nline 2\nline 3\nline 4\nline 5\nline 6\nline 7\nline 8\n… "
    );
}

#[test]
fn display_output_normalization_trims_crlf_padding() {
    assert_eq!(
        normalize_display_output("\r\n\r\nhello\r\nworld\r\n\r\n"),
        "hello\nworld"
    );
}

#[test]
fn project_history_merges_tool_call_and_result() {
    let items = vec![
        SessionHistoryItem {
            kind: SessionHistoryItemKind::ToolCall,
            title: "Ran powershell -Command \"Get-Date\"".to_string(),
            body: String::new(),
        },
        SessionHistoryItem {
            kind: SessionHistoryItemKind::ToolResult,
            title: "Tool output".to_string(),
            body: "2026-04-09".to_string(),
        },
    ];

    assert_eq!(
        project_history_items(&items),
        vec![TranscriptItem::restored_tool_result(
            "Ran powershell -Command \"Get-Date\"",
            "2026-04-09"
        )]
    );
}

#[test]
fn project_history_keeps_unpaired_entries() {
    let items = vec![
        SessionHistoryItem {
            kind: SessionHistoryItemKind::User,
            title: "You".to_string(),
            body: "hi".to_string(),
        },
        SessionHistoryItem {
            kind: SessionHistoryItemKind::ToolCall,
            title: "bash: ls".to_string(),
            body: "ignored".to_string(),
        },
        SessionHistoryItem {
            kind: SessionHistoryItemKind::Error,
            title: "Error".to_string(),
            body: "boom".to_string(),
        },
        SessionHistoryItem {
            kind: SessionHistoryItemKind::ToolCall,
            title: "read: x".to_string(),
            body: String::new(),
        },
        SessionHistoryItem {
            kind: SessionHistoryItemKind::Assistant,
            title: "Assistant".to_string(),
            body: "done".to_string(),
        },
    ];
    assert_eq!(
        project_history_items(&items),
        vec![
            TranscriptItem::new(TranscriptItemKind::User, "You", "hi"),
            TranscriptItem::tool_error("bash: ls", "boom"),
            TranscriptItem::tool_call("read: x"),
            TranscriptItem::new(TranscriptItemKind::Assistant, "Assistant", "done"),
        ]
    );
}

#[test]
fn tool_output_preview_edge_cases() {
    assert_eq!(truncate_tool_output(""), "");
    assert_eq!(truncate_tool_output("\n\nshort\n"), "short");
    let long = "x".repeat(1300);
    let out = truncate_tool_output(&long);
    assert_eq!(out, format!("{}\n… ", "x".repeat(1200)));
    let two = format!("{}\n{}", "a".repeat(1000), "b".repeat(300));
    assert_eq!(
        truncate_tool_output(&two),
        format!("{}\n{}\n… ", "a".repeat(1000), "b".repeat(200))
    );
}

#[test]
fn compact_summary_collapses_and_cuts() {
    assert_eq!(compact_tool_summary("  a \n b\tc ", 10), "a b c");
    assert_eq!(compact_tool_summary("abcdef", 3), "abc…");
    assert_eq!(compact_tool_summary("abc", 3), "abc");
}

#[test]
fn tool_summaries_pick_fields_by_tool() {
    let read = payload(Some("read"), &[("path", "b.rs"), ("filePath", "a.rs")], "");
    assert_eq!(summarize_tool_call(&read), "read: a.rs");
    let write = payload(Some("write"), &[("filePath", "a.rs"), ("path", "b.rs")], "");
    assert_eq!(summarize_tool_call(&write), "write: b.rs");
    let web = payload(Some("websearch"), &[("query", "rust verus")], "");
    assert_eq!(summarize_tool_call(&web), "websearch: rust verus");
    let bash = payload(Some("bash"), &[("cmd", "ls")], "");
    assert_eq!(summarize_tool_call(&bash), "bash: ls");
    let other = payload(Some("glob"), &[("pattern", "*.rs")], "{\"pattern\": \"*.rs\"}");
    assert_eq!(summarize_tool_call(&other), "glob: {\"pattern\": \"*.rs\"}");
    let unnamed = payload(None, &[], "");
    assert_eq!(summarize_tool_call(&unnamed), "tool");
    let input = ToolInput { string_fields: vec![], preview: "p".to_string() };
    assert_eq!(summarize_tool_input("bash", &input), "p");
}

#[test]
fn skill_rendering() {
    assert_eq!(render_skill_source(&SkillSource::User), "user");
    assert_eq!(
        render_skill_source(&SkillSource::Workspace { cwd: "/w".to_string() }),
        "workspace (/w)"
    );
    assert_eq!(
        render_skill_source(&SkillSource::Plugin { plugin_id: "p1".to_string() }),
        "plugin (p1)"
    );
    assert_eq!(render_skill_list_body(&[]), "No skills found");
    let skills = vec![
        SkillRecord {
            name: "a".to_string(),
            description: "first".to_string(),
            enabled: true,
            source: SkillSource::User,
            path: "/s/a".to_string(),
        },
        SkillRecord {
            name: "b".to_string(),
            description: "second".to_string(),
            enabled: false,
            source: SkillSource::Plugin { plugin_id: "x".to_string() },
            path: "/s/b".to_string(),
        },
    ];
    assert_eq!(
        render_skill_list_body(&skills),
        "a (enabled)\nfirst\nsource: user\npath: /s/a\n\nb (disabled)\nsecond\nsource: plugin (x)\npath: /s/b"
    );
}

use lpagent::server::approval::{ApprovalDecision, SessionId, TurnId};
use lpagent::tui::worker::{
    resolve_approval_item,
    apply_env_override, apply_optional_env_override, approval_outcome, completed_agent_message_text,
    completed_item_event, dispatch_server_notification, interrupt_target, session_list_entry,
    CompletedItem, ItemKind, NotificationState, ServerEvent, TokenUsage, TurnStatus, WorkerEvent,
};

fn state() -> NotificationState {
    NotificationState {
        active_turn_id: None,
        model: "m0".to_string(),
        latest_completed_agent_message: None,
        turn_count: 0,
        total_input_tokens: 0,
        total_output_tokens: 0,
    }
}

fn item(kind: ItemKind, text: Option<&str>) -> CompletedItem {
    CompletedItem {
        kind,
        text: text.map(|t| t.to_string()),
        tool_use_id: Some("t1".to_string()),
        call: payload(Some("bash"), &[("command", "ls")], ""),
        input_preview: Some("{\"command\": \"ls\"}".to_string()),
        content: Some("out".to_string()),
        is_error: Some(true),
    }
}

#[test]
fn turn_lifecycle_updates_state_and_emits_events() {
    let mut s = state();
    let e = dispatch_server_notification(
        "turn/started",
        &ServerEvent::TurnStarted { turn_id: TurnId(7), model_slug: "gpt".to_string() },
        &mut s,
    );
    assert_eq!(e, Some(WorkerEvent::TurnStarted { model: "gpt".to_string() }));
    assert_eq!(s.active_turn_id, Some(TurnId(7)));
    assert_eq!(s.model, "gpt");

    let e = dispatch_server_notification(
        "item/agentMessage/delta",
        &ServerEvent::ItemDelta { delta: "he".to_string() },
        &mut s,
    );
    assert_eq!(e, Some(WorkerEvent::TextDelta("he".to_string())));

    let e = dispatch_server_notification(
        "item/completed",
        &ServerEvent::ItemCompleted(item(ItemKind::AgentMessage, Some(" hello "))),
        &mut s,
    );
    assert_eq!(e, Some(WorkerEvent::AssistantMessageCompleted("hello".to_string())));
    assert_eq!(s.latest_completed_agent_message.as_deref(), Some("hello"));

    let e = dispatch_server_notification(
        "turn/completed",
        &ServerEvent::TurnCompleted {
            status: TurnStatus::Completed,
            usage: Some(TokenUsage { input_tokens: 10, output_tokens: 20 }),
        },
        &mut s,
    );
    assert_eq!(
        e,
        Some(WorkerEvent::TurnFinished {
            stop_reason: "Completed".to_string(),
            turn_count: 1,
            total_input_tokens: 10,
            total_output_tokens: 20,
        })
    );
    assert_eq!(s.active_turn_id, None);
    assert_eq!(s.latest_completed_agent_message, None);
}

#[test]
fn failed_turn_reports_last_message_or_status() {
    let mut s = state();
    s.latest_completed_agent_message = Some("partial".to_string());
    let e = dispatch_server_notification(
        "turn/failed",
        &ServerEvent::TurnFailed { status: TurnStatus::Failed, usage: None },
        &mut s,
    );
    assert_eq!(
        e,
        Some(WorkerEvent::TurnFailed {
            message: "partial".to_string(),
            turn_count: 0,
            total_input_tokens: 0,
            total_output_tokens: 0,
        })
    );
    let e = dispatch_server_notification(
        "turn/failed",
        &ServerEvent::TurnFailed { status: TurnStatus::Failed, usage: None },
        &mut s,
    );
    match e {
        Some(WorkerEvent::TurnFailed { message, .. }) => {
            assert_eq!(message, "turn failed with status Failed")
        }
        other => panic!("unexpected {other:?}"),
    }
}

#[test]
fn mismatched_or_unknown_notifications_do_nothing() {
    let mut s = state();
    assert_eq!(
        dispatch_server_notification("turn/completed", &ServerEvent::Other, &mut s),
        None
    );
    assert_eq!(dispatch_server_notification("nope", &ServerEvent::Other, &mut s), None);
    let e = dispatch_server_notification(
        "turn/completed",
        &ServerEvent::TurnCompleted { status: TurnStatus::Failed, usage: None },
        &mut s,
    );
    assert_eq!(e, None);
    assert_eq!(s.turn_count, 0);
    let e = dispatch_server_notification(
        "session/title/updated",
        &ServerEvent::SessionTitleUpdated { session_id: "s".to_string(), title: None },
        &mut s,
    );
    assert_eq!(e, None);
}

#[test]
fn approval_requests_and_usage_are_forwarded() {
    let mut s = state();
    let e = dispatch_server_notification(
        "approval/requested",
        &ServerEvent::ApprovalRequested {
            session_id: SessionId(1),
            turn_id: TurnId(2),
            approval_id: "a".to_string(),
            action_summary: "run".to_string(),
            justification: "why".to_string(),
        },
        &mut s,
    );
    assert_eq!(
        e,
        Some(WorkerEvent::ApprovalRequest {
            session_id: SessionId(1),
            turn_id: TurnId(2),
            approval_id: "a".to_string(),
            action_summary: "run".to_string(),
            justification: "why".to_string(),
        })
    );
    let e = dispatch_server_notification(
        "turn/usage/updated",
        &ServerEvent::TurnUsageUpdated { total_input_tokens: 3, total_output_tokens: 4 },
        &mut s,
    );
    assert_eq!(e, Some(WorkerEvent::UsageUpdated { total_input_tokens: 3, total_output_tokens: 4 }));
    assert_eq!((s.total_input_tokens, s.total_output_tokens), (3, 4));
}

#[test]
fn completed_items_map_to_events() {
    assert_eq!(completed_item_event(&item(ItemKind::AgentMessage, Some("   "))), None);
    assert_eq!(
        completed_item_event(&item(ItemKind::Reasoning, Some("thinking "))),
        Some(WorkerEvent::ReasoningCompleted("thinking".to_string()))
    );
    assert_eq!(
        completed_item_event(&item(ItemKind::ToolCall, None)),
        Some(WorkerEvent::ToolCall {
            tool_use_id: "t1".to_string(),
            summary: "bash: ls".to_string(),
            detail: Some("{\"command\": \"ls\"}".to_string()),
        })
    );
    assert_eq!(
        completed_item_event(&item(ItemKind::ToolResult, None)),
        Some(WorkerEvent::ToolResult {
            tool_use_id: "t1".to_string(),
            preview: "out".to_string(),
            is_error: true,
            truncated: false,
        })
    );
    assert_eq!(completed_item_event(&item(ItemKind::Other, None)), None);
    assert_eq!(completed_agent_message_text(&item(ItemKind::Reasoning, Some("x"))), None);
}

#[test]
fn env_overrides_set_and_unset() {
    let mut env = vec![("A".to_string(), "1".to_string()), ("B".to_string(), "2".to_string())];
    apply_env_override(&mut env, "B", "3");
    apply_env_override(&mut env, "C", "4");
    assert_eq!(
        env,
        vec![
            ("A".to_string(), "1".to_string()),
            ("B".to_string(), "3".to_string()),
            ("C".to_string(), "4".to_string())
        ]
    );
    apply_optional_env_override(&mut env, "A", None);
    apply_optional_env_override(&mut env, "D", Some("5".to_string()));
    assert_eq!(
        env,
        vec![
            ("B".to_string(), "3".to_string()),
            ("C".to_string(), "4".to_string()),
            ("D".to_string(), "5".to_string())
        ]
    );
}

#[test]
fn command_outcomes() {
    assert_eq!(approval_outcome(ApprovalDecision::Approve), "approved");
    assert_eq!(approval_outcome(ApprovalDecision::Deny), "denied");
    assert_eq!(approval_outcome(ApprovalDecision::Cancel), "cancelled");
    let e = session_list_entry(SessionId(1), "s-1", None, "2026", Some(SessionId(1)));
    assert_eq!(e.title, "(untitled)");
    assert!(e.is_active);
    let e = session_list_entry(SessionId(2), "s-2", Some("T".to_string()), "2026", Some(SessionId(1)));
    assert!(!e.is_active);
    assert_eq!(e.title, "T");
    assert_eq!(interrupt_target(Some(TurnId(1)), None), None);
    assert_eq!(
        interrupt_target(Some(TurnId(1)), Some(SessionId(2))),
        Some((SessionId(2), TurnId(1)))
    );
}

#[test]
fn approval_prompt_becomes_its_resolution() {
    let mut item = TranscriptItem::new(TranscriptItemKind::ApprovalPrompt, "Approval needed", "run ls\njustification");
    resolve_approval_item(&mut item, ApprovalDecision::Deny);
    assert_eq!(item.kind, TranscriptItemKind::ApprovalResolution);
    assert_eq!(item.title, "Approval denied");
    assert_eq!(item.body, "run ls\n(sent denied to server)");
}

fn worker_state() -> WorkerState {
    WorkerState {
        session_id: None,
        model: "m1".to_string(),
        thinking: Some("high".to_string()),
        active_turn_id: None,
    }
}

#[test]
fn first_prompt_starts_session_then_turn() {
    let mut s = worker_state();
    match worker_step(&mut s, WorkerCommand::SubmitPrompt("hi".to_string())) {
        WorkerAction::StartSession { model, prompt } => {
            assert_eq!((model.as_str(), prompt.as_str()), ("m1", "hi"));
        },
        other => panic!("unexpected {other:?}"),
    }
    // The server resolved another model: the first turn already uses it.
    match session_started(&mut s, SessionId(7), Some("m2".to_string()), "hi".to_string()) {
        WorkerAction::StartTurn { session_id, prompt, model, thinking } => {
            assert_eq!(session_id, SessionId(7));
            assert_eq!((prompt.as_str(), model.as_str(), thinking.as_deref()), ("hi", "m2", Some("high")));
        },
        other => panic!("unexpected {other:?}"),
    }
    turn_started(&mut s, TurnId(1));
    assert_eq!(s.model, "m2");
    match worker_step(&mut s, WorkerCommand::SubmitPrompt("again".to_string())) {
        WorkerAction::StartTurn { session_id, model, .. } => assert_eq!((session_id, model.as_str()), (SessionId(7), "m2")),
        other => panic!("unexpected {other:?}"),
    }
    assert!(matches!(worker_step(&mut s, WorkerCommand::InterruptTurn), WorkerAction::Interrupt(SessionId(7), TurnId(1))));
}

#[test]
fn failed_request_reports_counts() {
    let counts = NotificationState {
        active_turn_id: None,
        model: "m".to_string(),
        latest_completed_agent_message: None,
        turn_count: 3,
        total_input_tokens: 10,
        total_output_tokens: 5,
    };
    assert_eq!(
        request_failed(&counts, "boom".to_string()),
        WorkerEvent::TurnFailed { message: "boom".to_string(), turn_count: 3, total_input_tokens: 10, total_output_tokens: 5 }
    );
}

#[test]
fn rename_needs_a_session_and_new_session_forgets_it() {
    let mut s = worker_state();
    match worker_step(&mut s, WorkerCommand::RenameSession("t".to_string())) {
        WorkerAction::Fail(m) => {
            assert_eq!(m, "no active session exists yet; send a prompt or switch to a saved session first")
        },
        other => panic!("unexpected {other:?}"),
    }
    assert!(matches!(worker_step(&mut s, WorkerCommand::InterruptTurn), WorkerAction::Nothing));
    session_resumed(&mut s, SessionId(3));
    assert!(matches!(worker_step(&mut s, WorkerCommand::RenameSession("t".to_string())), WorkerAction::RenameSession(SessionId(3), _)));
    s.active_turn_id = Some(TurnId(9));
    assert!(matches!(worker_step(&mut s, WorkerCommand::StartNewSession), WorkerAction::NewSessionPrepared));
    assert_eq!((s.session_id, s.active_turn_id), (None, None));
}
