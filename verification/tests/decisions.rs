use agentprof::aggregate::{bucket_limit, watch_aggregate_flags, AggExportFormat};
use agentprof::config::{choose_editor, config_dir_err, init_refusal, opt_addr, opt_path};
use agentprof::exit::{exit_code_for, ExitKind};
use agentprof::mcp_config::{config_tool_lists, ParsedMcpConfig, ServerInfo};
use agentprof::mcp_waste::{
    all_failed_message, all_sessions_failed, expand_tilde, no_sessions_message,
    resolve_mcp_config_path,
};
use agentprof::refs::{
    sort_for_aggregate, storage_first, wrap_adapter_err, AdapterDataSource, AgentKind,
    DataSourceError, SessionRef,
};
use agentprof::selector::{
    flamegraph_unredacted, html_to_stdout, ignored_flags, needs_waste, AnalysisSection,
    ExportFormat, PrivacyLevel,
};
use agentprof::serve::{interval_or_default, serve_storage_path};
use agentprof::session::{session_id_for_path, AdapterError};
use agentprof::table::{list_empty_line, list_footer, take_limit};

fn sref(id: &str, started: Option<i64>) -> SessionRef {
    SessionRef {
        id: id.into(),
        agent: AgentKind::Copilot,
        started_at_ms: started,
        raw_path: None,
        raw_mtime_ms: None,
        source: "x".into(),
    }
}

#[test]
fn aggregate_order_newest_first_then_id() {
    let sorted = sort_for_aggregate(vec![
        sref("b", Some(5)),
        sref("z", None),
        sref("a", Some(5)),
        sref("c", Some(9)),
    ]);
    let ids: Vec<&str> = sorted.iter().map(|r| r.id.as_str()).collect();
    assert_eq!(ids, vec!["c", "a", "b", "z"]);
}

#[test]
fn storage_first_decisions() {
    assert_eq!(storage_first::<u8>(None).unwrap(), None);
    assert_eq!(storage_first(Some(Ok::<u8, DataSourceError>(7))).unwrap(), Some(7));
    assert_eq!(
        storage_first(Some(Err::<u8, DataSourceError>(DataSourceError::NotFound { id: "s".into() })))
            .unwrap(),
        None
    );
    assert!(matches!(
        storage_first(Some(Err::<u8, DataSourceError>(DataSourceError::Storage { message: "io".into() }))),
        Err(DataSourceError::Storage { .. })
    ));
    let e = wrap_adapter_err("adapter:copilot", AdapterError::MissingSessionStart { path: "/p".into() });
    assert!(matches!(e, DataSourceError::Adapter { source: "adapter:copilot", .. }));
}

#[test]
fn adapter_data_source_names() {
    let ds = AdapterDataSource::new(AgentKind::Copilot, "/tmp/none".to_string());
    assert_eq!(ds.name(), "adapter:copilot");
    assert_eq!(ds.root(), "/tmp/none");
}

#[test]
fn analyze_flag_rules() {
    let default = AnalysisSection::all_vec();
    let waste = vec![AnalysisSection::McpWaste];
    assert!(needs_waste(&waste, ExportFormat::Md));
    assert!(needs_waste(&default, ExportFormat::Tui));
    assert!(!needs_waste(&default, ExportFormat::Json));
    assert_eq!(
        ignored_flags(ExportFormat::Tui, &waste, true, PrivacyLevel::Redact),
        vec!["--output", "--section", "--privacy"]
    );
    assert!(ignored_flags(ExportFormat::Tui, &default, false, PrivacyLevel::Unchanged).is_empty());
    assert_eq!(ignored_flags(ExportFormat::Speedscope, &waste, true, PrivacyLevel::Unchanged), vec!["--section"]);
    assert!(ignored_flags(ExportFormat::Md, &waste, true, PrivacyLevel::Anonymize).is_empty());
    assert!(html_to_stdout(ExportFormat::Html, false));
    assert!(!html_to_stdout(ExportFormat::Html, true));
    assert!(flamegraph_unredacted(ExportFormat::Speedscope, PrivacyLevel::Anonymize));
    assert!(!flamegraph_unredacted(ExportFormat::Md, PrivacyLevel::Anonymize));
    assert!(!flamegraph_unredacted(ExportFormat::Html, PrivacyLevel::Unchanged));
}

#[test]
fn config_tool_lists_keep_listed_servers() {
    let cfg = ParsedMcpConfig {
        servers: vec![
            ("a".into(), ServerInfo { tools: None }),
            ("b".into(), ServerInfo { tools: Some(vec!["t1".into()]) }),
        ],
    };
    assert_eq!(config_tool_lists(&cfg), vec![("b".to_string(), vec!["t1".to_string()])]);
}

#[test]
fn mcp_config_location() {
    assert_eq!(expand_tilde("~/x/mcp.json", Some("/home/u")), "/home/u/x/mcp.json");
    assert_eq!(expand_tilde("~/x/mcp.json", None), "~/x/mcp.json");
    assert_eq!(expand_tilde("./mcp.json", Some("/home/u")), "./mcp.json");
    assert_eq!(resolve_mcp_config_path(None, Some("/home/u")).unwrap(), "/home/u/.copilot/mcp.json");
    assert_eq!(resolve_mcp_config_path(Some("/etc/m.json"), None).unwrap(), "/etc/m.json");
    assert_eq!(resolve_mcp_config_path(None, None).unwrap_err(), "could not resolve user home directory");
}

#[test]
fn run_failure_messages() {
    assert_eq!(no_sessions_message("7d", "/r"), "no sessions matched --since 7d under /r");
    assert_eq!(all_failed_message(3), "all 3 session(s) failed to parse");
    assert!(all_sessions_failed(0, 2));
    assert!(!all_sessions_failed(1, 2));
    assert!(!all_sessions_failed(0, 0));
}

#[test]
fn exit_code_classification() {
    assert_eq!(exit_code_for(Some(ExitKind::OutputError)), 3);
    assert_eq!(exit_code_for(Some(ExitKind::DataError)), 2);
    assert_eq!(exit_code_for(None), 1);
}

#[test]
fn watch_aggregate_refuses_export_and_output() {
    assert!(watch_aggregate_flags(None, false).is_ok());
    assert!(watch_aggregate_flags(Some(AggExportFormat::Json), false).is_err());
    assert!(watch_aggregate_flags(Some(AggExportFormat::Md), false).is_err());
    assert!(watch_aggregate_flags(None, true).is_err());
    assert_eq!(bucket_limit(0, 9), 9);
    assert_eq!(bucket_limit(3, 9), 3);
    assert_eq!(bucket_limit(30, 9), 9);
}

#[test]
fn serve_store_checks() {
    assert!(serve_storage_path(None, false).unwrap_err().starts_with("agentprof serve requires --storage-path"));
    assert_eq!(
        serve_storage_path(Some("/nonexistent/path/agentprof.db".into()), false).unwrap_err(),
        "storage path does not exist: /nonexistent/path/agentprof.db — run `agentprof db init --storage-path <PATH>` first"
    );
    assert_eq!(serve_storage_path(Some("/s.db".into()), true).unwrap(), "/s.db");
    assert_eq!(interval_or_default(None), 5);
    assert_eq!(interval_or_default(Some(30)), 30);
}

#[test]
fn config_command_helpers() {
    assert!(config_dir_err().starts_with("cannot determine config directory"));
    assert_eq!(opt_path(Some("/a")), "\"/a\"");
    assert_eq!(opt_path(None), "(unset)");
    assert_eq!(opt_addr(None), "\"\" (disabled)");
    assert_eq!(opt_addr(Some("0.0.0.0:1")), "\"0.0.0.0:1\"");
    assert_eq!(
        init_refusal("/c.toml", true, false).unwrap(),
        "config file already exists at /c.toml; pass --force to overwrite"
    );
    assert!(init_refusal("/c.toml", true, true).is_none());
    assert!(init_refusal("/c.toml", false, false).is_none());
    assert_eq!(choose_editor(Some("".into()), Some("vi".into())).unwrap(), "vi");
    assert_eq!(choose_editor(Some("code".into()), Some("vi".into())).unwrap(), "code");
    assert_eq!(
        choose_editor(None, Some("".into())).unwrap_err(),
        "no editor configured: set $VISUAL or $EDITOR"
    );
}

#[test]
fn list_helpers() {
    let refs = vec![sref("a", None), sref("b", None), sref("c", None)];
    assert_eq!(take_limit(refs.clone(), 0).len(), 3);
    assert_eq!(take_limit(refs.clone(), 2).len(), 2);
    assert_eq!(take_limit(refs, 9).len(), 3);
    assert_eq!(list_footer(2, 5, "7d", 0), "\n(2 of 5 sessions shown; --since=7d --limit=0)");
    assert_eq!(list_empty_line("7d", "/r"), "(no sessions matching --since=7d in /r)");
}

#[test]
fn session_id_from_path() {
    assert_eq!(session_id_for_path(Some("abc".into()), "/x/y/events.jsonl"), "abc");
    assert_eq!(session_id_for_path(None, "/x/y/events.jsonl"), "y");
    assert_eq!(session_id_for_path(None, "/"), "unknown");
}
