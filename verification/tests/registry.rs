use lpagent::mcp::{McpServerStatus, McpToolDescriptor};
use lpagent::server::bootstrap::server_tool_registry;
use lpagent::registry::{
    apply_tool_filters, register_builtin_tools, ApplyPatchTool, LsTool, ToolEntry, ToolRegistry,
};

fn registry_with(names: &[&str]) -> ToolRegistry {
    let mut reg = ToolRegistry::new();
    for name in names {
        reg.register(ToolEntry::new(name, true));
    }
    reg
}

#[test]
fn register_and_get() {
    let mut reg = ToolRegistry::new();
    reg.register(ToolEntry::new("test_tool", true));
    assert!(reg.get("test_tool").is_some());
    assert!(reg.get("nonexistent").is_none());
}

#[test]
fn all_returns_registered_tools() {
    let mut reg = ToolRegistry::new();
    reg.register(ToolEntry::new("a", true));
    reg.register(ToolEntry::new("b", false));
    assert_eq!(reg.all().len(), 2);
}

#[test]
fn register_overwrites_duplicate_name() {
    let mut reg = ToolRegistry::new();
    reg.register(ToolEntry::new("same", true));
    reg.register(ToolEntry::new("same", false));
    let tool = reg.get("same").unwrap();
    assert!(!tool.is_read_only());
    assert_eq!(reg.all().len(), 1);
}

#[test]
fn default_creates_empty_registry() {
    let reg = ToolRegistry::default();
    assert!(reg.all().is_empty());
}

#[test]
fn apply_tool_filters_allow_keeps_only_listed() {
    let mut reg = registry_with(&["read", "ls", "bash"]);
    apply_tool_filters(&mut reg, &["read".to_string(), "ls".to_string()], &[]);
    assert!(reg.get("read").is_some());
    assert!(reg.get("ls").is_some());
    assert!(reg.get("bash").is_none());
    assert_eq!(reg.all().len(), 2);
}

#[test]
fn apply_tool_filters_deny_removes_listed() {
    let mut reg = registry_with(&["read", "ls", "bash"]);
    apply_tool_filters(&mut reg, &[], &["bash".to_string()]);
    assert!(reg.get("bash").is_none());
    assert_eq!(reg.all().len(), 2);
}

#[test]
fn apply_tool_filters_empty_is_noop() {
    let mut reg = registry_with(&["read", "ls"]);
    apply_tool_filters(&mut reg, &[], &[]);
    assert_eq!(reg.all().len(), 2);
}

#[test]
fn apply_tool_filters_deny_wins_over_allow() {
    let mut reg = registry_with(&["read", "ls", "bash"]);
    apply_tool_filters(
        &mut reg,
        &["read".to_string(), "bash".to_string()],
        &["bash".to_string()],
    );
    assert!(reg.get("read").is_some());
    assert!(reg.get("ls").is_none());
    assert!(reg.get("bash").is_none());
    assert_eq!(reg.all().len(), 1);
}

#[test]
fn apply_tool_filters_allow_of_unknown_names_empties_registry() {
    let mut reg = registry_with(&["read", "ls"]);
    apply_tool_filters(&mut reg, &["nothing".to_string()], &[]);
    assert!(reg.all().is_empty());
}

#[test]
fn retain_keeps_what_the_predicate_accepts() {
    let mut reg = registry_with(&["read", "ls", "bash"]);
    reg.retain(|name| name.len() > 2);
    assert!(reg.get("read").is_some());
    assert!(reg.get("bash").is_some());
    assert!(reg.get("ls").is_none());
    assert_eq!(reg.all().len(), 2);
}

#[test]
fn get_reports_flags_of_registered_entry() {
    let mut reg = ToolRegistry::new();
    reg.register(ToolEntry::new("x", false));
    let t = reg.get("x").unwrap();
    assert_eq!(t.name(), "x");
    assert!(!t.is_read_only());
}

#[test]
fn register_builtin_tools_populates_registry() {
    let mut registry = ToolRegistry::new();
    register_builtin_tools(&mut registry);

    let expected = [
        "bash",
        "read",
        "write",
        "glob",
        "grep",
        "ls",
        "invalid",
        "question",
        "todowrite",
        "webfetch",
        "websearch",
        "skill",
        "apply_patch",
        "update_plan",
    ];
    for name in &expected {
        assert!(
            registry.get(name).is_some(),
            "expected builtin tool '{}' to be registered",
            name
        );
    }
    assert_eq!(registry.all().len(), expected.len());
}

#[test]
fn unimplemented_tools_are_not_registered() {
    let mut registry = ToolRegistry::new();
    register_builtin_tools(&mut registry);
    assert!(registry.get("task").is_none());
    assert!(registry.get("lsp").is_none());
}

#[test]
fn builtin_ls_is_read_only() {
    let mut registry = ToolRegistry::new();
    register_builtin_tools(&mut registry);
    assert!(registry.get("ls").unwrap().is_read_only());
    assert!(!registry.get("apply_patch").unwrap().is_read_only());
}

#[test]
fn builtin_tool_names() {
    assert_eq!(LsTool.name(), "ls");
    assert!(LsTool.is_read_only());
    assert_eq!(ApplyPatchTool.name(), "apply_patch");
    assert_eq!(LsTool.entry().name(), "ls");
    assert_eq!(ApplyPatchTool.entry().name(), "apply_patch");
}

#[test]
fn filters_applied_twice_equal_once() {
    let allowed = vec!["read".to_string(), "ls".to_string()];
    let denied = vec!["ls".to_string()];
    let mut once = registry_with(&["read", "ls", "bash"]);
    apply_tool_filters(&mut once, &allowed, &denied);
    let mut twice = registry_with(&["read", "ls", "bash"]);
    apply_tool_filters(&mut twice, &allowed, &denied);
    apply_tool_filters(&mut twice, &allowed, &denied);
    assert_eq!(once.all().len(), 1);
    assert_eq!(twice.all().len(), 1);
    assert!(twice.get("read").is_some());
}

#[test]
fn register_keeps_other_tools() {
    let mut reg = registry_with(&["a", "b"]);
    reg.register(ToolEntry::new("c", false));
    assert!(reg.get("a").unwrap().is_read_only());
    assert!(reg.get("b").is_some());
    assert!(!reg.get("c").unwrap().is_read_only());
    assert_eq!(reg.all().len(), 3);
}

#[test]
fn tool_definitions_maps_correctly() {
    let mut reg = ToolRegistry::new();
    reg.register(ToolEntry::with_definition("my_tool", "dummy", "{\"type\":\"object\"}", true));
    let defs = reg.tool_definitions();
    assert_eq!(defs.len(), 1);
    assert_eq!(defs[0].name, "my_tool");
    assert_eq!(defs[0].description, "dummy");
    assert_eq!(defs[0].input_schema, "{\"type\":\"object\"}");
}

#[test]
fn builtin_schemas_are_json_objects() {
    let ls: serde_json::Value = serde_json::from_str(LsTool.input_schema()).unwrap();
    assert!(ls.is_object());
    assert_eq!(ls["properties"]["path"]["type"], "string");
    let ap: serde_json::Value = serde_json::from_str(ApplyPatchTool.input_schema()).unwrap();
    assert_eq!(ap["required"][0], "patchText");
    let mut reg = ToolRegistry::new();
    register_builtin_tools(&mut reg);
    let defs = reg.tool_definitions();
    let ls_def = defs.iter().find(|d| d.name == "ls").unwrap();
    assert_eq!(ls_def.input_schema, LsTool.input_schema());
}

#[test]
fn filters_keep_surviving_tool_definitions() {
    let mut reg = ToolRegistry::new();
    reg.register(ToolEntry::with_definition("read", "reads a file", "{\"type\":\"object\"}", true));
    reg.register(ToolEntry::with_definition("bash", "runs a command", "{}", false));
    apply_tool_filters(&mut reg, &[], &["bash".to_string()]);
    assert_eq!(reg.all().len(), 1);
    let t = reg.get("read").unwrap();
    assert_eq!(t.description(), "reads a file");
    assert_eq!(t.input_schema(), "{\"type\":\"object\"}");
    assert!(t.is_read_only());
}

#[test]
fn builtin_tools_have_nonempty_schemas() {
    let mut registry = ToolRegistry::new();
    register_builtin_tools(&mut registry);

    for tool in registry.all() {
        assert!(!tool.name().is_empty());
        assert!(!tool.description().is_empty());
        let schema: serde_json::Value = serde_json::from_str(tool.input_schema()).unwrap();
        assert!(schema.is_object(), "tool '{}' schema should be an object", tool.name());
    }
}

#[test]
fn server_registry_filters_builtins_and_mcp_tools() {
    let statuses = vec![McpServerStatus {
        server_id: "docs".into(),
        tools: vec![McpToolDescriptor {
            name: "search".into(),
            description: "find docs".into(),
            input_schema: "{\"type\":\"object\"}".into(),
            read_only_hint: Some(true),
        }],
    }];
    let all = server_tool_registry(&statuses, &[], &[]);
    assert_eq!(all.all().len(), 15);
    let some = server_tool_registry(
        &statuses,
        &["ls".to_string(), "mcp__docs__search".to_string()],
        &["ls".to_string()],
    );
    assert_eq!(some.all().len(), 1);
    assert_eq!(some.get("mcp__docs__search").unwrap().description(), "find docs");
}
