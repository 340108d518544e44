use agentprof::event::JsonValue;
use agentprof::mcp_config::{json_lookup, parse_value};

fn obj(pairs: Vec<(&str, JsonValue)>) -> JsonValue {
    JsonValue::Object(pairs.into_iter().map(|(k, v)| (k.to_string(), v)).collect())
}

fn s(v: &str) -> JsonValue {
    JsonValue::String(v.to_string())
}

#[test]
fn vscode_schema_extracts_server_names_only() {
    let v = obj(vec![(
        "mcpServers",
        obj(vec![
            ("filesystem", obj(vec![("command", s("fs-server"))])),
            ("github", obj(vec![("command", s("npx"))])),
        ]),
    )]);
    let cfg = parse_value(&v);
    assert_eq!(cfg.servers.len(), 2);
    assert_eq!(cfg.servers[0].0, "filesystem");
    assert_eq!(cfg.servers[1].0, "github");
    assert!(cfg.servers[1].1.tools.is_none());
}

#[test]
fn self_describing_schema_extracts_tool_lists() {
    let v = obj(vec![(
        "servers",
        obj(vec![(
            "github",
            obj(vec![(
                "tools",
                JsonValue::Array(vec![s("search"), JsonValue::Number("7".into()), s("create"), s("delete")]),
            )]),
        )]),
    )]);
    let cfg = parse_value(&v);
    let tools = cfg.servers[0].1.tools.as_ref().expect("tools listed");
    assert_eq!(tools, &vec!["search".to_string(), "create".to_string(), "delete".to_string()]);
}

#[test]
fn self_describing_entry_without_tools_array() {
    let v = obj(vec![("servers", obj(vec![("x", obj(vec![("tools", s("nope"))])), ("y", JsonValue::Null)]))]);
    let cfg = parse_value(&v);
    assert_eq!(cfg.servers.len(), 2);
    assert!(cfg.servers[0].1.tools.is_none());
    assert!(cfg.servers[1].1.tools.is_none());
}

#[test]
fn mcp_servers_takes_precedence_over_servers() {
    let v = obj(vec![
        ("mcpServers", obj(vec![("a", JsonValue::Null)])),
        ("servers", obj(vec![("b", obj(vec![("tools", JsonValue::Array(vec![]))]))])),
    ]);
    let cfg = parse_value(&v);
    assert_eq!(cfg.servers.len(), 1);
    assert_eq!(cfg.servers[0].0, "a");
}

#[test]
fn unknown_schema_returns_empty_parsed_config() {
    let v = obj(vec![(
        "totallyDifferentKey",
        JsonValue::Array(vec![JsonValue::Number("1".into()), JsonValue::Number("2".into())]),
    )]);
    assert!(parse_value(&v).servers.is_empty());
    assert!(parse_value(&JsonValue::Array(vec![])).servers.is_empty());
    let not_object = obj(vec![("mcpServers", JsonValue::Array(vec![]))]);
    assert!(parse_value(&not_object).servers.is_empty());
}

#[test]
fn lookup_finds_keys_of_objects_only() {
    let v = obj(vec![("k", JsonValue::Bool(true))]);
    assert_eq!(json_lookup(&v, "k"), Some(&JsonValue::Bool(true)));
    assert_eq!(json_lookup(&v, "missing"), None);
    assert_eq!(json_lookup(&JsonValue::Null, "k"), None);
}
