use agentprof::event::UtcTimestamp;
use agentprof::refs::{
    adapter_for, adapter_ref_to_datasource_ref, diff_fields, merge_refs, name_for, select_since,
    supported_agents, system_time_to_ms, AdapterRef, AgentKind, CopilotAdapter, DualPathWarning,
    SessionRef,
};

fn make_ref(id: &str, mtime: Option<i64>, source: &str) -> SessionRef {
    SessionRef {
        id: id.to_string(),
        agent: AgentKind::Copilot,
        started_at_ms: mtime,
        raw_path: None,
        raw_mtime_ms: mtime,
        source: source.to_string(),
    }
}

#[test]
fn system_time_to_ms_unix_epoch_is_zero() {
    assert_eq!(system_time_to_ms(UtcTimestamp { unix_secs: 0, nanos: 0 }), Some(0));
}

#[test]
fn system_time_to_ms_truncates_and_rejects_pre_epoch() {
    assert_eq!(system_time_to_ms(UtcTimestamp { unix_secs: 2, nanos: 999_999_999 }), Some(2999));
    assert_eq!(system_time_to_ms(UtcTimestamp { unix_secs: -1, nanos: 500_000_000 }), None);
    assert_eq!(system_time_to_ms(UtcTimestamp { unix_secs: i64::MAX, nanos: 0 }), None);
}

#[test]
fn name_for_known_kinds() {
    assert_eq!(name_for(AgentKind::Copilot), "adapter:copilot");
    assert_eq!(name_for(AgentKind::Claude), "adapter:anthropic");
    assert_eq!(name_for(AgentKind::Codex), "adapter:codex");
}

#[test]
fn adapter_for_copilot_is_some() {
    assert!(adapter_for(AgentKind::Copilot).is_some());
}

#[test]
fn adapter_for_claude_and_codex_are_none() {
    assert!(adapter_for(AgentKind::Claude).is_none());
    assert!(adapter_for(AgentKind::Codex).is_none());
    assert_eq!(supported_agents(), vec![AgentKind::Copilot]);
}

#[test]
fn copilot_adapter_reports_its_kind() {
    assert_eq!(CopilotAdapter.agent_kind(), AgentKind::Copilot);
}

#[test]
fn diff_fields_detects_mtime_change() {
    let a = make_ref("s1", Some(2000), "adapter:copilot");
    let b = make_ref("s1", Some(1000), "sqlite");
    let diffs = diff_fields(&a, &b);
    assert!(diffs.contains(&"raw_mtime_ms"));
    assert!(diffs.contains(&"started_at_ms"));
}

#[test]
fn diff_fields_empty_for_identical() {
    let a = make_ref("s1", Some(1000), "adapter:copilot");
    let b = make_ref("s1", Some(1000), "sqlite");
    assert!(diff_fields(&a, &b).is_empty());
}

#[test]
fn diff_fields_reports_raw_path_last() {
    let mut a = make_ref("s1", Some(1), "a");
    let b = make_ref("s1", Some(2), "b");
    a.raw_path = Some("/x".into());
    assert_eq!(diff_fields(&a, &b), vec!["raw_mtime_ms", "started_at_ms", "raw_path"]);
}

#[test]
fn merge_refs_sorts_desc() {
    let mut warnings: Vec<DualPathWarning> = Vec::new();
    let adapter = vec![
        make_ref("a", Some(100), "adapter:copilot"),
        make_ref("b", Some(300), "adapter:copilot"),
    ];
    let storage = vec![make_ref("c", Some(200), "sqlite")];
    let merged = merge_refs(adapter, storage, &mut warnings);
    let ids: Vec<&str> = merged.iter().map(|r| r.id.as_str()).collect();
    assert_eq!(ids, vec!["b", "c", "a"]);
}

#[test]
fn merge_refs_adapter_wins_and_warns_on_divergence() {
    let mut warnings: Vec<DualPathWarning> = Vec::new();
    let adapter = vec![make_ref("s", Some(500), "adapter:copilot"), make_ref("t", Some(10), "adapter:copilot")];
    let storage = vec![
        make_ref("s", Some(400), "sqlite"),
        make_ref("t", Some(10), "sqlite"),
        make_ref("old", None, "sqlite"),
    ];
    let merged = merge_refs(adapter, storage, &mut warnings);
    assert_eq!(merged.len(), 3);
    assert_eq!(merged[0].id, "s");
    assert_eq!(merged[0].source, "adapter:copilot");
    assert_eq!(merged[1].id, "t");
    assert_eq!(merged[1].source, "adapter:copilot");
    assert_eq!(merged[2].id, "old");
    assert_eq!(warnings.len(), 1);
    assert_eq!(warnings[0].session_id, "s");
    assert_eq!(warnings[0].differing_fields, vec!["raw_mtime_ms", "started_at_ms"]);
    assert!(warnings[0].adapter_won);
}

#[test]
fn datasource_ref_from_adapter_ref() {
    let a = AdapterRef {
        id: "x".into(),
        agent: AgentKind::Copilot,
        path: "/r/x/events.jsonl".into(),
        modified_at: UtcTimestamp { unix_secs: 3, nanos: 5_000_000 },
        size_bytes: 1,
        is_live: true,
    };
    let r = adapter_ref_to_datasource_ref(&a, Some(42), "adapter:copilot");
    assert_eq!(r.id, "x");
    assert_eq!(r.started_at_ms, Some(42));
    assert_eq!(r.raw_path.as_deref(), Some("/r/x/events.jsonl"));
    assert_eq!(r.raw_mtime_ms, Some(3005));
    assert_eq!(r.source, "adapter:copilot");
}

#[test]
fn select_since_keeps_recent_in_order() {
    let mk = |id: &str, s: i64| AdapterRef {
        id: id.into(),
        agent: AgentKind::Copilot,
        path: String::new(),
        modified_at: UtcTimestamp { unix_secs: s, nanos: 0 },
        size_bytes: 0,
        is_live: false,
    };
    let all = vec![mk("a", 50), mk("b", 10), mk("c", 100)];
    let kept = select_since(all, Some(UtcTimestamp { unix_secs: 50, nanos: 0 }));
    let ids: Vec<&str> = kept.iter().map(|r| r.id.as_str()).collect();
    assert_eq!(ids, vec!["a", "c"]);
    let all2 = vec![mk("a", 50), mk("b", 10)];
    assert_eq!(select_since(all2, None).len(), 2);
}
