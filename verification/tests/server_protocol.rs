use lpagent::server::sessions::{fork_session, order_by_recent, resolved_model, session_config, ForkSource};
use lpagent::server::titles::{SessionTitle, TitleState};
use lpagent::server::inputs::{SandboxMode, SandboxPolicyRecord};
use lpagent::server::protocol::{approval_not_found, subscription_id};
use lpagent::server::turn_stream::{
    final_turn_status, first_assistant_reply, wants_generated_title, ConversationMessage, StreamKind, TurnStream,
};
use lpagent::tui::worker::TurnStatus;
use lpagent::server::approval::{SessionId, TurnId};
use lpagent::server::turn_state::{SessionStatus, SessionTurns, TurnBroadcast};
use lpagent::server::bootstrap::{user_skill_roots, workspace_skill_roots};
use lpagent::server::inputs::InputItem;
use lpagent::server::protocol::{
    interrupt_check, next_sequence, not_initialized, route_incoming, skill_error_code, steer_check,
    turn_start_admit, turn_start_precheck, ProtocolErrorCode, Route, RpcMethod, SkillErrorKind,
};
use lpagent::mcp::{trusted_mcp_tool_names, McpServerStatus, McpToolDescriptor};

fn text(t: &str) -> InputItem {
    InputItem::Text { text: t.to_string() }
}

#[test]
fn messages_are_routed_by_method_and_handshake() {
    assert_eq!(route_incoming("initialized", false, false), Route::MarkReady);
    assert_eq!(route_incoming("initialize", true, false), Route::Initialize);
    assert_eq!(route_incoming("turn/start", true, false), Route::NotInitialized);
    assert_eq!(route_incoming("turn/start", false, false), Route::Ignore);
    assert_eq!(route_incoming("turn/start", true, true), Route::Call(RpcMethod::TurnStart));
    assert_eq!(route_incoming("session/title/update", true, true), Route::Call(RpcMethod::SessionTitleUpdate));
    assert_eq!(route_incoming("events/subscribe", true, true), Route::Call(RpcMethod::EventsSubscribe));
    assert_eq!(route_incoming("nope", true, true), Route::UnknownMethod);
    assert_eq!(route_incoming("nope", false, true), Route::Ignore);
    assert_eq!(not_initialized().message, "connection has not completed initialize/initialized");
}

#[test]
fn turn_start_is_refused_in_order() {
    let e = turn_start_precheck(&[], true).unwrap_err();
    assert_eq!((e.code, e.message), (ProtocolErrorCode::EmptyInput, "turn input is empty"));
    let e = turn_start_precheck(&[text("   ")], true).unwrap_err();
    assert_eq!(e.code, ProtocolErrorCode::EmptyInput);
    let e = turn_start_precheck(&[text("hi")], false).unwrap_err();
    assert_eq!((e.code, e.message), (ProtocolErrorCode::SessionNotFound, "session does not exist"));
    assert_eq!(turn_start_precheck(&[text(" hi "), InputItem::Skill { id: "s".into() }], true).unwrap(), "hi\n[skill:s]");
    let e = turn_start_admit(true).unwrap_err();
    assert_eq!((e.code, e.message), (ProtocolErrorCode::TurnAlreadyRunning, "session already has an active turn"));
    assert!(turn_start_admit(false).is_ok());
    assert_eq!(next_sequence(None), 1);
    assert_eq!(next_sequence(Some(4)), 5);
    assert_eq!(skill_error_code(SkillErrorKind::SkillNotFound), ProtocolErrorCode::InvalidParams);
    assert_eq!(skill_error_code(SkillErrorKind::DuplicateSkillId), ProtocolErrorCode::InternalError);
}

#[test]
fn interrupts_and_steers_need_the_active_turn() {
    assert!(interrupt_check(true, Some(TurnId(3)), TurnId(3)).is_ok());
    assert_eq!(interrupt_check(false, Some(TurnId(3)), TurnId(3)).unwrap_err().code, ProtocolErrorCode::SessionNotFound);
    assert_eq!(interrupt_check(true, None, TurnId(3)).unwrap_err().message, "turn is not active");
    assert_eq!(interrupt_check(true, Some(TurnId(2)), TurnId(3)).unwrap_err().message, "turn does not exist");
    assert_eq!(steer_check(&[text("go")], true, Some(TurnId(1)), TurnId(1)).unwrap(), "go");
    assert_eq!(steer_check(&[], true, Some(TurnId(1)), TurnId(1)).unwrap_err().message, "turn steer input is empty");
    assert_eq!(steer_check(&[text("go")], true, None, TurnId(1)).unwrap_err().code, ProtocolErrorCode::NoActiveTurn);
    assert_eq!(
        steer_check(&[text("go")], true, Some(TurnId(2)), TurnId(1)).unwrap_err().code,
        ProtocolErrorCode::ExpectedTurnMismatch
    );
}

#[test]
fn skill_roots_resolve_against_their_bases() {
    let roots = vec!["/abs".to_string(), "rel".to_string()];
    assert_eq!(user_skill_roots(&roots, "/home/u/.lpa"), vec!["/abs", "/home/u/.lpa/rel"]);
    assert_eq!(workspace_skill_roots(&roots, Some("/w/.lpa/")), vec!["/abs", "/w/.lpa/rel"]);
    assert_eq!(workspace_skill_roots(&roots, None), vec!["/abs"]);
}

#[test]
fn trusted_servers_name_their_tools() {
    let d = |n: &str| McpToolDescriptor { name: n.into(), description: String::new(), input_schema: String::new(), read_only_hint: None };
    let statuses = vec![
        McpServerStatus { server_id: "a".into(), tools: vec![d("x"), d("y")] },
        McpServerStatus { server_id: "b".into(), tools: vec![d("z")] },
    ];
    assert_eq!(trusted_mcp_tool_names(&statuses, &["a".to_string()]), vec!["mcp__a__x", "mcp__a__y"]);
    assert!(trusted_mcp_tool_names(&statuses, &[]).is_empty());
}

#[test]
fn turn_stream_collects_text_into_one_item_per_kind() {
    let mut s = TurnStream::new();
    assert_eq!(s.item_for(StreamKind::Assistant), None);
    s.push_delta(StreamKind::Assistant, 7, "Hel");
    s.push_delta(StreamKind::Reasoning, 8, "think");
    s.push_delta(StreamKind::Assistant, 99, "lo");
    assert_eq!(s.item_for(StreamKind::Assistant), Some(7));
    let items = s.finished_items();
    assert_eq!(items, vec![(StreamKind::Assistant, 7, "Hello".to_string()), (StreamKind::Reasoning, 8, "think".to_string())]);
    assert_eq!(s.usage_totals((100, 50), 10, 5), (110, 55));
    assert_eq!(s.usage_totals((999, 999), 20, 8), (120, 58));
    assert!(TurnStream::new().finished_items().is_empty());
}

#[test]
fn first_reply_skips_users_and_blank_replies() {
    let m = |a: bool, t: &[&str]| ConversationMessage { from_assistant: a, texts: t.iter().map(|s| s.to_string()).collect() };
    let msgs = vec![m(false, &["hi"]), m(true, &["  ", "\n"]), m(true, &["Hel", "lo"]), m(true, &["later"])];
    assert_eq!(first_assistant_reply(&msgs).as_deref(), Some("Hello"));
    assert_eq!(first_assistant_reply(&[m(false, &["x"])]), None);
    assert!(wants_generated_title(true, &Some("r".to_string())));
    assert!(!wants_generated_title(false, &Some("r".to_string())));
    assert!(!wants_generated_title(true, &None));
}

#[test]
fn session_overrides_keep_the_other_setting() {
    let sandbox = SandboxPolicyRecord { mode: SandboxMode::Restricted, workspace_write: true };
    let baseline = SandboxPolicyRecord { mode: SandboxMode::Unrestricted, workspace_write: true };
    assert_eq!(session_config::<u8>(None, 0, None, Some(baseline)), None);
    assert_eq!(session_config::<u8>(None, 0, Some(sandbox), Some(baseline)), Some((0, Some(sandbox))));
    assert_eq!(session_config::<u8>(Some(2), 0, None, Some(baseline)), Some((2, Some(baseline))));
    assert_eq!(resolved_model(None, "default"), "default");
    assert_eq!(resolved_model(Some("m".to_string()), "default"), "m");
}

#[test]
fn sessions_list_most_recent_first() {
    assert_eq!(order_by_recent(&[5, 9, 5, 1, 9]), vec![1, 4, 0, 2, 3]);
    assert!(order_by_recent(&[]).is_empty());
    assert_eq!(approval_not_found().message, "no pending approval request exists with that approval_id");
    assert_eq!(subscription_id(12), "sub-12-1");
}

#[test]
fn tool_call_closes_stream_items() {
    let mut s = TurnStream::new();
    s.push_delta(StreamKind::Assistant, 1, "Let me look");
    s.push_delta(StreamKind::Reasoning, 2, "need ls");
    let closed = s.close_for_tool_call();
    assert_eq!(closed.len(), 2);
    assert_eq!((closed[0].0, closed[0].1, closed[0].2.as_str()), (StreamKind::Assistant, 1, "Let me look"));
    assert_eq!((closed[1].0, closed[1].1, closed[1].2.as_str()), (StreamKind::Reasoning, 2, "need ls"));
    assert_eq!(s.item_for(StreamKind::Assistant), None);
    // Text after the call goes to a new item.
    s.push_delta(StreamKind::Assistant, 3, "Done.");
    let finished = s.finished_items();
    assert_eq!(finished.len(), 1);
    assert_eq!((finished[0].1, finished[0].2.as_str()), (3, "Done."));
}

#[test]
fn final_status_follows_the_query_result() {
    assert_eq!(final_turn_status(true), TurnStatus::Completed);
    assert_eq!(final_turn_status(false), TurnStatus::Failed);
}

#[test]
fn fork_copies_the_source_session() {
    let source = ForkSource {
        cwd: "/work".to_string(),
        title: SessionTitle { title: Some("Plan".to_string()), state: TitleState::Provisional },
        ephemeral: false,
        resolved_model: None,
        total_input_tokens: 10,
        total_output_tokens: 4,
        total_cache_creation_tokens: 2,
        total_cache_read_tokens: 3,
        last_input_tokens: 8,
        turn_count: 2,
        loaded_item_count: 6,
    };
    let fork = fork_session(&source, SessionId(2), None, None, "default-model");
    assert_eq!(fork.session_id, SessionId(2));
    assert_eq!(fork.cwd, "/work");
    assert_eq!(fork.title.title.as_deref(), Some("Plan"));
    assert_eq!(fork.title.state, TitleState::Provisional);
    assert_eq!(fork.resolved_model, "default-model");
    assert_eq!((fork.total_input_tokens, fork.total_output_tokens), (10, 4));
    assert_eq!(fork.next_item_seq, 7);
    assert_eq!((fork.total_cache_creation_tokens, fork.total_cache_read_tokens), (2, 3));
    assert_eq!((fork.last_input_tokens, fork.turn_count), (8, 2));
    assert!(fork.persisted);
    let renamed = fork_session(&source, SessionId(3), Some("/other".to_string()), Some("Copy".to_string()), "m");
    assert_eq!((renamed.cwd.as_str(), renamed.title.title.as_deref()), ("/other", Some("Copy")));
}

#[test]
fn turns_start_finish_and_interrupt_in_order() {
    let mut s = SessionTurns::new();
    let (t1, bs) = s.start_turn(TurnId(1), "m".to_string()).unwrap();
    assert_eq!(t1.sequence, 1);
    assert_eq!(t1.status, TurnStatus::InProgress);
    assert!(matches!(bs[0], TurnBroadcast::StatusChanged(SessionStatus::ActiveTurn)));
    assert!(matches!(&bs[1], TurnBroadcast::TurnStarted(t) if t.turn_id == TurnId(1)));
    let refused = s.start_turn(TurnId(2), "m".to_string()).unwrap_err();
    assert_eq!(refused.message, "session already has an active turn");
    assert_eq!(s.interrupt_turn(TurnId(9)).unwrap_err().message, "turn does not exist");
    let bs = s.finish_turn(t1, false);
    assert_eq!(bs.len(), 3);
    assert!(matches!(&bs[0], TurnBroadcast::TurnFailed(t) if t.status == TurnStatus::Failed));
    assert!(matches!(bs[2], TurnBroadcast::StatusChanged(SessionStatus::Idle)));
    assert_eq!(s.status, SessionStatus::Idle);
    assert_eq!(s.interrupt_turn(TurnId(1)).unwrap_err().message, "turn is not active");
    let (t2, _) = s.start_turn(TurnId(2), "m".to_string()).unwrap();
    assert_eq!(t2.sequence, 2);
    let (stopped, bs) = s.interrupt_turn(TurnId(2)).unwrap();
    assert_eq!(stopped.status, TurnStatus::Interrupted);
    assert!(matches!(&bs[0], TurnBroadcast::TurnInterrupted(_)));
    assert!(matches!(&bs[1], TurnBroadcast::TurnCompleted(_)));
    assert_eq!(s.latest_turn.as_ref().unwrap().sequence, 2);
    assert!(s.active_turn.is_none());
}
