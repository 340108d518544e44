use agentprof::sidecar::{full_tool_name, sidecar_file_server, Sidecar, ToolEntry};

fn entry(name: &str, desc: Option<&str>) -> ToolEntry {
    ToolEntry {
        name: name.to_string(),
        description: desc.map(str::to_string),
        input_schema: None,
        annotations: None,
    }
}

#[test]
fn sidecar_global_groups_key_by_full_name() {
    let s = Sidecar::from_server_groups(vec![(
        "github".to_string(),
        vec![entry("search", Some("Search issues"))],
    )]);
    assert_eq!(s.len(), 1);
    let e = s.lookup_concrete("mcp__github__search").expect("found");
    assert_eq!(e.name, "search");
    assert_eq!(e.description.as_deref(), Some("Search issues"));
    assert!(s.lookup_concrete("mcp__github__other").is_none());
}

#[test]
fn sidecar_three_tools_over_two_servers() {
    let s = Sidecar::from_server_groups(vec![
        ("filesystem".to_string(), vec![entry("read_file", None)]),
        ("github".to_string(), vec![entry("search_issues", None), entry("create_issue", None)]),
    ]);
    assert_eq!(s.len(), 3);
    assert!(s.lookup_concrete("mcp__github__search_issues").is_some());
    assert!(s.lookup_concrete("mcp__github__create_issue").is_some());
    assert!(s.lookup_concrete("mcp__filesystem__read_file").is_some());
    assert!(!s.is_empty());
}

#[test]
fn sidecar_later_entries_replace_earlier_ones() {
    let s = Sidecar::from_server_groups(vec![
        ("a".to_string(), vec![entry("t", Some("first"))]),
        ("a".to_string(), vec![entry("t", Some("second"))]),
    ]);
    assert_eq!(s.len(), 1);
    assert_eq!(s.lookup_concrete("mcp__a__t").unwrap().description.as_deref(), Some("second"));
}

#[test]
fn empty_sidecar() {
    let s = Sidecar::from_server_groups(Vec::new());
    assert!(s.is_empty());
    assert_eq!(s.len(), 0);
}

#[test]
fn full_name_and_per_server_files() {
    assert_eq!(full_tool_name("srv", "tool"), "mcp__srv__tool");
    assert_eq!(sidecar_file_server("/d/github.json").as_deref(), Some("github"));
    assert_eq!(sidecar_file_server("/d/README.md"), None);
    assert_eq!(sidecar_file_server("/d/noext"), None);
}
