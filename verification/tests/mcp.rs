use lpagent::mcp::{
    flatten_call_tool_result, register_mcp_tools, CallToolResult, ContentBlock, McpServerStatus,
    McpToolAdapter, McpToolDescriptor,
};
use lpagent::registry::{ToolEntry, ToolRegistry};

fn descriptor(name: &str, hint: Option<bool>) -> McpToolDescriptor {
    McpToolDescriptor {
        name: name.to_owned(),
        description: "mock tool".into(),
        input_schema: "{\"type\":\"object\"}".into(),
        read_only_hint: hint,
    }
}

#[test]
fn adapter_returns_text_blocks_joined() {
    let result = CallToolResult {
        content: vec![ContentBlock::Text("hello".into()), ContentBlock::Text("world".into())],
        is_error: false,
    };
    let out = flatten_call_tool_result(&result, None);
    assert_eq!(out.content, "hello\nworld");
    assert!(!out.is_error);
}

#[test]
fn adapter_preserves_is_error_true_from_result() {
    let result = CallToolResult { content: vec![ContentBlock::Text("boom".into())], is_error: true };
    let out = flatten_call_tool_result(&result, None);
    assert_eq!(out.content, "boom");
    assert!(out.is_error);
}

#[test]
fn adapter_namespaces_exposed_name() {
    let adapter = McpToolAdapter::new("docs", &descriptor("search", None));
    assert_eq!(adapter.exposed_name(), "mcp__docs__search");
    assert_eq!(adapter.name(), "mcp__docs__search");
    assert_eq!(adapter.tool_name(), "search");
    assert_eq!(adapter.server_id(), "docs");
    assert_eq!(adapter.description(), "mock tool");
}

#[test]
fn adapter_honors_read_only_hint() {
    assert!(McpToolAdapter::new("docs", &descriptor("search", Some(true))).is_read_only());
    assert!(!McpToolAdapter::new("docs", &descriptor("search", Some(false))).is_read_only());
    assert!(!McpToolAdapter::new("docs", &descriptor("search", None)).is_read_only());
}

#[test]
fn flatten_describes_non_text_blocks() {
    let result = CallToolResult {
        content: vec![
            ContentBlock::Image { mime_type: "png".into(), data_len: 12 },
            ContentBlock::Resource("{\"uri\":\"a\"}".into()),
            ContentBlock::Other("42".into()),
        ],
        is_error: false,
    };
    assert_eq!(
        flatten_call_tool_result(&result, None).content,
        "[image/png: 12 bytes]\n[resource: {\"uri\":\"a\"}]\n[unsupported: 42]"
    );
    let empty = CallToolResult { content: vec![], is_error: false };
    assert_eq!(flatten_call_tool_result(&empty, None).content, "");
}

#[test]
fn bootstrap_registers_mcp_tools_into_registry() {
    let mut registry = ToolRegistry::new();
    registry.register(ToolEntry::new("mcp__docs__taken", false));
    let statuses = vec![
        McpServerStatus {
            server_id: "docs".into(),
            tools: vec![descriptor("search", Some(true)), descriptor("taken", Some(true))],
        },
        McpServerStatus { server_id: "docs".into(), tools: vec![descriptor("search", Some(false))] },
    ];
    register_mcp_tools(&mut registry, &statuses);
    assert_eq!(registry.all().len(), 2);
    assert!(registry.get("mcp__docs__search").unwrap().is_read_only());
    assert!(!registry.get("mcp__docs__taken").unwrap().is_read_only());
}

#[test]
fn flatten_keeps_raw_result_as_metadata() {
    let result = CallToolResult { content: vec![ContentBlock::Text("hi".into())], is_error: false };
    let raw = "{\"content\":[{\"type\":\"text\",\"text\":\"hi\"}]}".to_string();
    let out = flatten_call_tool_result(&result, Some(raw.clone()));
    assert_eq!(out.content, "hi");
    assert_eq!(out.metadata, Some(raw));
    assert_eq!(flatten_call_tool_result(&result, None).metadata, None);
}

#[test]
fn registered_mcp_tool_keeps_description_and_schema() {
    let mut registry = ToolRegistry::new();
    let statuses =
        vec![McpServerStatus { server_id: "docs".into(), tools: vec![descriptor("search", None)] }];
    register_mcp_tools(&mut registry, &statuses);
    let tool = registry.get("mcp__docs__search").unwrap();
    assert_eq!(tool.description(), "mock tool");
    assert_eq!(tool.input_schema(), "{\"type\":\"object\"}");
    assert!(!tool.is_read_only());
}
