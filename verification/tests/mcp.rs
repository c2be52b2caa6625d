use logdb::mcp::{
    classify_message, classify_tool, method_not_found_message, tool_kinds, unknown_tool_message,
    McpMethod, ToolKind,
};
use logdb::routes::mcp_bundle;

#[test]
fn messages_are_classified() {
    assert_eq!(classify_message("initialize", true), McpMethod::Initialize);
    assert_eq!(classify_message("ping", true), McpMethod::Ping);
    assert_eq!(classify_message("tools/list", true), McpMethod::ToolsList);
    assert_eq!(classify_message("tools/call", true), McpMethod::ToolsCall);
    assert_eq!(classify_message("notifications/initialized", true), McpMethod::Notification);
    assert_eq!(classify_message("tools/call", false), McpMethod::Notification);
    assert_eq!(classify_message("resources/list", true), McpMethod::NotFound);
    assert_eq!(method_not_found_message("x/y"), "method not found: x/y");
}

#[test]
fn every_listed_tool_resolves_by_name() {
    let kinds = tool_kinds();
    assert!(!kinds.is_empty());
    for k in kinds {
        assert_eq!(classify_tool(k.name()), Some(k));
        assert!(!k.description().is_empty());
    }
    assert_eq!(classify_tool("logs_search"), Some(ToolKind::Search));
    assert_eq!(classify_tool("logs_nope"), None);
    assert_eq!(unknown_tool_message("logs_nope"), "unknown tool: logs_nope");
}

#[test]
fn mcp_bundle_points_at_the_endpoint() {
    let b = mcp_bundle("https://logs.example.com//", "lk_abc");
    assert_eq!(b.url, "https://logs.example.com/mcp");
    assert_eq!(b.token, "lk_abc");
    assert_eq!(b.env, "LOGDB_QUERY_KEY=lk_abc");
    assert!(b.yaml.contains("url: \"https://logs.example.com/mcp\""));
    assert!(b.yaml.contains("Authorization: \"Bearer lk_abc\""));
}

#[test]
fn tool_schemas_are_objects_and_require_ids_where_needed() {
    for k in tool_kinds() {
        let schema: serde_json::Value = serde_json::from_str(k.input_schema()).unwrap();
        assert_eq!(schema["type"], "object");
        let required = schema.get("required");
        match k {
            ToolKind::Get | ToolKind::Context => {
                assert_eq!(required, Some(&serde_json::Value::Array(vec![serde_json::Value::String("id".to_string())])))
            }
            _ => assert_eq!(required, None),
        }
    }
}
