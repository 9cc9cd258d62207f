use lpagent::server::bootstrap::{split_csv, ServerProcessArgs};

#[test]
fn split_csv_trims_and_drops_empties() {
    assert_eq!(
        split_csv(" read , ,bash,, ls "),
        vec!["read".to_string(), "bash".to_string(), "ls".to_string()]
    );
}

#[test]
fn split_csv_empty_input_is_empty() {
    assert!(split_csv("").is_empty());
}

#[test]
fn split_csv_single_entry() {
    assert_eq!(split_csv("\tread\n"), vec!["read".to_string()]);
    assert!(split_csv(" , ,").is_empty());
}

#[test]
fn server_args_hold_working_root() {
    let args = ServerProcessArgs { working_root: Some("/tmp/w".to_string()) };
    assert_eq!(args.clone().working_root.as_deref(), Some("/tmp/w"));
}

use lpagent::server::approval::{
    approval_result, decision_name, remembers_tool, scope_name, ApprovalDecision,
    ApprovalManager, ApprovalResult, ApprovalScope, SessionId, TurnId,
};

fn register(
    manager: &mut ApprovalManager,
    id: &str,
    session: u128,
    turn: u128,
) -> tokio::sync::oneshot::Receiver<ApprovalResult> {
    manager.register(
        id.to_string(),
        SessionId(session),
        TurnId(turn),
        "bash".to_string(),
        "run ls".to_string(),
        "list files".to_string(),
    )
}

#[test]
fn respond_resolves_registered_approval() {
    let mut manager = ApprovalManager::new();
    let mut rx = register(&mut manager, "a1", 1, 2);
    let resolved = manager
        .respond("a1", ApprovalDecision::Approve, ApprovalScope::Once)
        .unwrap();
    assert_eq!(resolved.session_id, SessionId(1));
    assert_eq!(resolved.turn_id, TurnId(2));
    assert_eq!(resolved.tool_name, "bash");
    assert_eq!(resolved.action_summary, "run ls");
    assert_eq!(resolved.justification, "list files");
    assert_eq!(rx.try_recv().unwrap(), ApprovalResult { approved: true });
}

#[test]
fn respond_denies_unless_approved() {
    let mut manager = ApprovalManager::default();
    let mut rx = register(&mut manager, "a1", 1, 2);
    assert!(manager
        .respond("a1", ApprovalDecision::Deny, ApprovalScope::Session)
        .is_ok());
    assert_eq!(rx.try_recv().unwrap(), ApprovalResult { approved: false });
    let mut rx = register(&mut manager, "a2", 1, 2);
    assert!(manager
        .respond("a2", ApprovalDecision::Cancel, ApprovalScope::Turn)
        .is_ok());
    assert_eq!(rx.try_recv().unwrap(), ApprovalResult { approved: false });
}

#[test]
fn respond_to_unknown_or_answered_approval_fails() {
    let mut manager = ApprovalManager::new();
    assert!(manager
        .respond("nope", ApprovalDecision::Approve, ApprovalScope::Once)
        .is_err());
    let _rx = register(&mut manager, "a1", 1, 2);
    assert!(manager
        .respond("a1", ApprovalDecision::Approve, ApprovalScope::Once)
        .is_ok());
    assert!(manager
        .respond("a1", ApprovalDecision::Approve, ApprovalScope::Once)
        .is_err());
}

#[test]
fn register_replaces_and_denies_previous_approval() {
    let mut manager = ApprovalManager::new();
    let mut first = register(&mut manager, "a1", 1, 2);
    let mut second = manager.register(
        "a1".to_string(),
        SessionId(3),
        TurnId(4),
        "write".to_string(),
        "edit".to_string(),
        "why".to_string(),
    );
    assert_eq!(first.try_recv().unwrap(), ApprovalResult { approved: false });
    let resolved = manager
        .respond("a1", ApprovalDecision::Approve, ApprovalScope::Once)
        .unwrap();
    assert_eq!(resolved.tool_name, "write");
    assert_eq!(resolved.session_id, SessionId(3));
    assert_eq!(second.try_recv().unwrap(), ApprovalResult { approved: true });
}

#[test]
fn cancel_for_turn_denies_only_that_turn() {
    let mut manager = ApprovalManager::new();
    let mut a = register(&mut manager, "a", 1, 10);
    let mut b = register(&mut manager, "b", 1, 11);
    let mut c = register(&mut manager, "c", 2, 10);
    manager.cancel_for_turn(&TurnId(10));
    assert_eq!(a.try_recv().unwrap(), ApprovalResult { approved: false });
    assert_eq!(c.try_recv().unwrap(), ApprovalResult { approved: false });
    assert!(b.try_recv().is_err());
    assert!(manager
        .respond("a", ApprovalDecision::Approve, ApprovalScope::Once)
        .is_err());
    assert!(manager
        .respond("b", ApprovalDecision::Approve, ApprovalScope::Once)
        .is_ok());
    assert_eq!(b.try_recv().unwrap(), ApprovalResult { approved: true });
}

#[test]
fn cancel_for_session_denies_only_that_session() {
    let mut manager = ApprovalManager::new();
    let mut a = register(&mut manager, "a", 1, 10);
    let mut b = register(&mut manager, "b", 2, 10);
    manager.cancel_for_session(&SessionId(1));
    assert_eq!(a.try_recv().unwrap(), ApprovalResult { approved: false });
    assert!(b.try_recv().is_err());
    assert!(manager
        .respond("b", ApprovalDecision::Deny, ApprovalScope::Once)
        .is_ok());
}

#[test]
fn decision_and_scope_names() {
    assert_eq!(decision_name(ApprovalDecision::Approve), "approve");
    assert_eq!(decision_name(ApprovalDecision::Deny), "deny");
    assert_eq!(decision_name(ApprovalDecision::Cancel), "cancel");
    assert_eq!(scope_name(ApprovalScope::Once), "once");
    assert_eq!(scope_name(ApprovalScope::Turn), "turn");
    assert_eq!(scope_name(ApprovalScope::Session), "session");
    assert_eq!(scope_name(ApprovalScope::PathPrefix), "path_prefix");
    assert_eq!(scope_name(ApprovalScope::Host), "host");
    assert_eq!(scope_name(ApprovalScope::Tool), "tool");
}

#[test]
fn only_session_or_tool_approvals_are_remembered() {
    assert!(remembers_tool(ApprovalDecision::Approve, ApprovalScope::Session));
    assert!(remembers_tool(ApprovalDecision::Approve, ApprovalScope::Tool));
    assert!(!remembers_tool(ApprovalDecision::Approve, ApprovalScope::Once));
    assert!(!remembers_tool(ApprovalDecision::Deny, ApprovalScope::Session));
    assert!(approval_result(ApprovalDecision::Approve).approved);
    assert!(!approval_result(ApprovalDecision::Cancel).approved);
}

use lpagent::server::inputs::{
    parse_sandbox_mode, render_input_items, InputItem, SandboxMode, SandboxPolicyRecord,
};

#[test]
fn render_input_items_joins_non_empty_parts() {
    let items = vec![
        InputItem::Text { text: "  hello  ".to_string() },
        InputItem::Text { text: "   ".to_string() },
        InputItem::Skill { id: "review".to_string() },
        InputItem::LocalImage { path: "/tmp/a.png".to_string() },
        InputItem::Mention { path: "src/lib.rs".to_string(), name: None },
        InputItem::Mention { path: "src/x.rs".to_string(), name: Some("x".to_string()) },
    ];
    assert_eq!(
        render_input_items(&items).unwrap(),
        "hello\n[skill:review]\n[image:/tmp/a.png]\n[mention:src/lib.rs]\n[mention:x]"
    );
}

#[test]
fn render_input_items_of_blank_input_is_none() {
    assert!(render_input_items(&[]).is_none());
    assert!(render_input_items(&[InputItem::Text { text: " \n".to_string() }]).is_none());
}

#[test]
fn parse_sandbox_mode_accepts_known_names() {
    assert_eq!(
        parse_sandbox_mode(" Unrestricted "),
        Some(SandboxPolicyRecord { mode: SandboxMode::Unrestricted, workspace_write: true })
    );
    let ww = Some(SandboxPolicyRecord { mode: SandboxMode::Restricted, workspace_write: true });
    assert_eq!(parse_sandbox_mode("workspace-write"), ww);
    assert_eq!(parse_sandbox_mode("WORKSPACE_WRITE"), ww);
    let ro = Some(SandboxPolicyRecord { mode: SandboxMode::Restricted, workspace_write: false });
    assert_eq!(parse_sandbox_mode("read-only"), ro);
    assert_eq!(parse_sandbox_mode("Read_Only"), ro);
    assert_eq!(parse_sandbox_mode("readonly"), ro);
    assert_eq!(parse_sandbox_mode("full"), None);
    assert_eq!(parse_sandbox_mode(""), None);
}
