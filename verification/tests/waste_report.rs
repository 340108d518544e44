use agentprof::waste_report::{
    largest_waste, never_called_rows, per_server_rows, render_md, tool_token_max, ServerWaste, ToolUsage,
    WasteAggregate,
};

fn tool(name: &str, loaded: usize, calls: usize) -> ToolUsage {
    ToolUsage { tool_name: name.to_string(), sessions_loaded: loaded, total_call_count: calls }
}

fn sample() -> WasteAggregate {
    WasteAggregate {
        sessions: 3,
        per_server: vec![
            ServerWaste {
                server: "github".to_string(),
                sessions_loaded: 3,
                sessions_with_zero_calls: 1,
                total_unused_tokens: 1200,
                tool_usage: vec![tool("mcp__github__create_issue", 3, 0), tool("mcp__github__list_repos", 3, 4)],
            },
            ServerWaste {
                server: "fs".to_string(),
                sessions_loaded: 2,
                sessions_with_zero_calls: 2,
                total_unused_tokens: 1200,
                tool_usage: vec![tool("mcp__fs__read", 2, 0)],
            },
        ],
        never_called_tools: vec![
            "mcp__github__create_issue".to_string(),
            "mcp__fs__read".to_string(),
            "mcp__x__y".to_string(),
        ],
        total_unused_tokens: 2400,
    }
}

fn tokens() -> Vec<(String, u64)> {
    vec![("mcp__github__create_issue".to_string(), 300), ("mcp__fs__read".to_string(), 600)]
}

#[test]
fn waste_markdown_report() {
    let md = render_md(&sample(), 2, &tokens(), "2026-06-08");
    let expected = "# MCP Waste Report (3 sessions, generated 2026-06-08)\n\n\
## Summary\n\n\
- 3 sessions analyzed\n\
- 2 MCP servers in scope\n\
- 3 tools NEVER called across ANY session\n\
- ≈2400 wasted tokens (heuristic / sidecar / mixed — see `--export json` for per-session provenance)\n\
- Largest waste: `fs` server, ≈1200 tokens across 2 sessions\n\
\n\
## \"Always unused\" — 3 tools (top 2)\n\n\
| Tool | Server | Sessions loaded | Tokens (per session) |\n\
|------|--------|----------------:|---------------------:|\n\
| mcp__github__create_issue | github | 3 | ≈300 |\n\
| mcp__fs__read | fs | 2 | ≈600 |\n\
\n\
## Per-server cross-session\n\n\
| Server | Sessions loaded | Sessions w/0 calls | Calls (sum) | Wasted tokens |\n\
|--------|----------------:|-------------------:|------------:|--------------:|\n\
| github | 3 | 1 | 4 | ≈1200 |\n\
| fs | 2 | 2 | 0 | ≈1200 |\n";
    assert_eq!(md, expected);
}

#[test]
fn waste_rows_and_largest() {
    let a = sample();
    let rows = never_called_rows(&a, 10, &tokens());
    assert_eq!(rows.len(), 3);
    assert_eq!(rows[2].server, "(unknown)");
    assert_eq!(rows[2].sessions_loaded, 0);
    assert_eq!(rows[2].tokens, 0);
    let per = per_server_rows(&a);
    assert_eq!(per[0].total_calls, 4);
    // Equal totals: the last server wins.
    assert_eq!(largest_waste(&a), Some(1));
    let mut none = sample();
    for s in &mut none.per_server {
        s.total_unused_tokens = 0;
    }
    assert_eq!(largest_waste(&none), None);
    let md = render_md(&none, 2, &tokens(), "2026-06-08");
    assert!(!md.contains("Largest waste"));
}

#[test]
fn waste_report_without_unused_tools_has_no_unused_table() {
    let mut a = sample();
    a.never_called_tools.clear();
    let md = render_md(&a, 5, &tokens(), "2026-06-08");
    assert!(!md.contains("Always unused"));
    assert!(md.contains("- 0 tools NEVER called across ANY session\n"));
    assert!(md.contains("across 2 sessions\n\n## Per-server cross-session"));
}

#[test]
fn tool_tokens_keep_the_largest_figure() {
    let obs = vec![
        ("mcp__a__x".to_string(), 300),
        ("mcp__b__y".to_string(), 50),
        ("mcp__a__x".to_string(), 450),
        ("mcp__a__x".to_string(), 200),
        ("mcp__c__z".to_string(), 0),
    ];
    assert_eq!(
        tool_token_max(&obs),
        vec![
            ("mcp__a__x".to_string(), 450),
            ("mcp__b__y".to_string(), 50),
            ("mcp__c__z".to_string(), 0),
        ]
    );
    assert!(tool_token_max(&Vec::new()).is_empty());
}
