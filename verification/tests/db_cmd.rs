use agentprof::db::{
    fmt_ms, ingest_failed, ingest_failure_message, ingest_progress_due, ingest_scope,
    ingest_target, jsonl_from_value, prune_report, stats_table, IngestArgs, IngestScope, JsonTexts,
    StoreCounts,
};
use agentprof::event::UtcTimestamp;
use agentprof::refs::{AdapterRef, AgentKind};

fn args(agent: &str, since: Option<&str>, all: bool, session: Option<&str>) -> IngestArgs {
    IngestArgs {
        agent: agent.to_string(),
        root: None,
        since: since.map(str::to_string),
        all,
        session: session.map(str::to_string),
    }
}

#[test]
fn ingest_scope_choices() {
    assert!(matches!(ingest_scope(&args("copilot", None, false, Some("s1"))), Ok(IngestScope::One(id)) if id == "s1"));
    assert!(matches!(
        ingest_scope(&args("copilot", None, true, None)),
        Ok(IngestScope::Window(u64::MAX, 999_999_999))
    ));
    assert!(matches!(ingest_scope(&args("copilot", Some("2h"), false, None)), Ok(IngestScope::Window(7200, 0))));
    assert_eq!(
        ingest_scope(&args("codex", None, true, None)).unwrap_err(),
        "unsupported --agent: codex (only `copilot` is wired today)"
    );
    assert_eq!(
        ingest_scope(&args("copilot", Some("x"), false, None)).unwrap_err(),
        "invalid --since: unrecognized --since: x; use <N>d/h/m/s or 'all'"
    );
    assert_eq!(
        ingest_scope(&args("copilot", None, false, None)).unwrap_err(),
        "must specify --since, --all, or --session"
    );
}

fn r(id: &str) -> AdapterRef {
    AdapterRef {
        id: id.to_string(),
        agent: AgentKind::Copilot,
        path: String::new(),
        modified_at: UtcTimestamp { unix_secs: 0, nanos: 0 },
        size_bytes: 0,
        is_live: false,
    }
}

#[test]
fn ingest_target_by_id() {
    assert_eq!(ingest_target(vec![r("a"), r("b")], "b").unwrap().id, "b");
    assert_eq!(ingest_target(vec![r("a")], "z").unwrap_err(), "session id not found: z");
}

#[test]
fn ingest_outcome_rules() {
    assert!(ingest_failed(3, 0));
    assert!(!ingest_failed(3, 1));
    assert!(!ingest_failed(0, 0));
    assert!(ingest_progress_due(10, 25));
    assert!(ingest_progress_due(25, 25));
    assert!(!ingest_progress_due(11, 25));
    assert_eq!(
        ingest_failure_message(4),
        "all 4 session(s) failed to ingest; check stderr for per-session errors"
    );
}

#[test]
fn prune_messages() {
    assert_eq!(prune_report(3, "30d", true), "agentprof: would prune 3 session(s) older than 30d");
    assert_eq!(prune_report(0, "7d", false), "agentprof: pruned 0 session(s) older than 7d");
}

#[test]
fn stats_table_lines() {
    let c = StoreCounts {
        size_bytes: 4096,
        session_count: 2,
        tools_loaded_count: 5,
        turn_buckets_count: 9,
        oldest_started_ms: Some(0),
        newest_started_ms: None,
    };
    let lines = stats_table("/tmp/a.sqlite", "cache", &c);
    assert_eq!(
        lines,
        vec![
            "path:                /tmp/a.sqlite",
            "mode:                cache",
            "size_bytes:          4096",
            "sessions:            2",
            "tools_loaded:        5",
            "turn_buckets:        9",
            "oldest_started:      1970-01-01T00:00:00Z",
            "newest_started:      -",
        ]
    );
    assert_eq!(fmt_ms(1_780_012_800_000).as_deref(), Some("2026-05-29T00:00:00Z"));
    assert_eq!(fmt_ms(i64::MAX), None);
}

fn texts(v: &serde_json::Value) -> JsonTexts {
    match v {
        serde_json::Value::Object(map) => JsonTexts::Object(
            map.iter()
                .map(|(k, vv)| (serde_json::to_string(k).unwrap(), vv.to_string()))
                .collect(),
        ),
        other => JsonTexts::Other(other.to_string()),
    }
}

#[test]
fn jsonl_emits_one_line_per_key() {
    let v: serde_json::Value = serde_json::from_str(r#"{"a": 1, "b": [2,3], "c": null}"#).unwrap();
    let s = jsonl_from_value(&texts(&v));
    let lines: Vec<&str> = s.lines().collect();
    assert_eq!(lines.len(), 3);
    for line in lines {
        let parsed: serde_json::Value = serde_json::from_str(line).unwrap();
        assert_eq!(parsed.as_object().unwrap().len(), 1);
    }
    assert_eq!(s, "{\"a\":1}\n{\"b\":[2,3]}\n{\"c\":null}\n");
}

#[test]
fn jsonl_non_object_falls_back_to_value_wrapper() {
    let v: serde_json::Value = serde_json::from_str("42").unwrap();
    let s = jsonl_from_value(&texts(&v));
    let parsed: serde_json::Value = serde_json::from_str(s.trim()).unwrap();
    assert_eq!(parsed["value"], 42);
}

#[test]
fn jsonl_lines_are_one_entry_objects() {
    let v = JsonTexts::Object(vec![
        ("\"a\"".to_string(), "1".to_string()),
        ("\"b\"".to_string(), "{\"c\":[2,3]}".to_string()),
    ]);
    let s = jsonl_from_value(&v);
    let pieces: Vec<&str> = s.split('\n').collect();
    assert_eq!(pieces, vec!["{\"a\":1}", "{\"b\":{\"c\":[2,3]}}", ""]);
    let other = jsonl_from_value(&JsonTexts::Other("\"x\"".to_string()));
    assert_eq!(other, "{\"value\":\"x\"}\n");
}
