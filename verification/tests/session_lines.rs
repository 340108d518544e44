use agentprof::event::{
    CopilotEvent, ModelChangeData, SessionContext, SessionStartData, UtcTimestamp, WithEnvelope,
};
use agentprof::refs::AgentKind;
use agentprof::session::{
    assemble_session, is_blank, is_monotonic, looks_like_incomplete_json, AdapterError, LineInput,
    MetaBuilder, ParseWarning,
};

#[test]
fn looks_like_incomplete_json_detects_unclosed_brace() {
    assert!(looks_like_incomplete_json(r#"{"type":"abc","data":{"x":1"#));
    assert!(!looks_like_incomplete_json(r#"{"type":"abc","data":{}}"#));
}

#[test]
fn looks_like_incomplete_json_ignores_unbalanced_braces_inside_strings() {
    assert!(!looks_like_incomplete_json(r#"{"k":"{value with brace inside}"}"#));
}

#[test]
fn incomplete_json_open_string_and_escapes() {
    assert!(looks_like_incomplete_json(r#"{"k":"unterminated"#));
    assert!(!looks_like_incomplete_json(r#"{"k":"escaped \" quote {"}"#));
    assert!(!looks_like_incomplete_json(""));
    assert!(!looks_like_incomplete_json("}}"));
}

fn env<D>(data: D, secs: i64) -> WithEnvelope<D> {
    WithEnvelope {
        id: format!("e{secs}"),
        timestamp: UtcTimestamp { unix_secs: secs, nanos: 0 },
        parent_id: None,
        ephemeral: None,
        agent_id: None,
        data,
    }
}

fn start(secs: i64) -> CopilotEvent {
    CopilotEvent::SessionStart(env(
        SessionStartData {
            session_id: "sess-1".into(),
            version: 1,
            producer: "copilot-agent".into(),
            copilot_version: "1.0.54".into(),
            start_time: UtcTimestamp { unix_secs: secs, nanos: 0 },
            context: SessionContext {
                cwd: "/work".into(),
                git_root: None,
                branch: Some("main".into()),
                head_commit: None,
                repository: Some("owner/repo".into()),
                host_type: None,
            },
            already_in_use: false,
        },
        secs,
    ))
}

fn model_change(secs: i64) -> CopilotEvent {
    CopilotEvent::ModelChange(env(ModelChangeData { new_model: "gpt-5".into() }, secs))
}

fn text(t: &str, decoded: Result<CopilotEvent, String>) -> LineInput {
    LineInput::Text { text: t.to_string(), decoded }
}

#[test]
fn assemble_collects_events_warnings_and_meta() {
    let lines = vec![
        text("{start}", Ok(start(100))),
        text("   ", Err("blank".into())),
        LineInput::Unreadable("disk error".into()),
        text("{bad", Err("EOF while parsing".into())),
        text("{mc}", Ok(model_change(200))),
    ];
    let raw = assemble_session(lines, false, "/root/sess-dir/events.jsonl").unwrap();
    assert_eq!(raw.events.len(), 2);
    assert_eq!(raw.meta.id, "sess-1");
    assert_eq!(raw.meta.agent, AgentKind::Copilot);
    assert_eq!(raw.meta.started_at, UtcTimestamp { unix_secs: 100, nanos: 0 });
    assert_eq!(raw.meta.producer.as_deref(), Some("copilot-agent"));
    assert_eq!(raw.meta.agent_version.as_deref(), Some("1.0.54"));
    assert_eq!(raw.meta.cwd.as_deref(), Some("/work"));
    assert_eq!(raw.meta.repository.as_deref(), Some("owner/repo"));
    assert_eq!(raw.meta.branch.as_deref(), Some("main"));
    assert!(!raw.meta.is_live);
    assert_eq!(raw.parse_warnings.len(), 2);
    assert!(matches!(&raw.parse_warnings[0], ParseWarning::Io { line_no: 2, error } if error == "disk error"));
    assert!(matches!(&raw.parse_warnings[1], ParseWarning::Json { line_no: 3, error } if error == "EOF while parsing"));
}

#[test]
fn live_session_truncated_last_line_is_skipped_silently() {
    let lines = vec![
        text("{start}", Ok(start(100))),
        text(r#"{"type":"x","data":{"a":1"#, Err("EOF".into())),
    ];
    let raw = assemble_session(lines, true, "/r/s/events.jsonl").unwrap();
    assert!(raw.parse_warnings.is_empty());
    assert!(raw.meta.is_live);
}

#[test]
fn finished_session_truncated_last_line_is_a_warning() {
    let lines = vec![
        text("{start}", Ok(start(100))),
        text(r#"{"type":"x","data":{"a":1"#, Err("EOF".into())),
    ];
    let raw = assemble_session(lines, false, "/r/s/events.jsonl").unwrap();
    assert_eq!(raw.parse_warnings.len(), 1);
    assert!(matches!(&raw.parse_warnings[0], ParseWarning::Json { line_no: 1, .. }));
}

#[test]
fn live_session_truncated_middle_line_still_warns() {
    let lines = vec![
        text("{start}", Ok(start(100))),
        text(r#"{"type":"x""#, Err("EOF".into())),
        text("{mc}", Ok(model_change(101))),
    ];
    let raw = assemble_session(lines, true, "/r/s/events.jsonl").unwrap();
    assert_eq!(raw.parse_warnings.len(), 1);
}

#[test]
fn backwards_timestamps_add_out_of_order_warning() {
    let lines = vec![text("{start}", Ok(start(100))), text("{mc}", Ok(model_change(50)))];
    let raw = assemble_session(lines, false, "/r/s/events.jsonl").unwrap();
    assert_eq!(raw.parse_warnings.len(), 1);
    assert!(matches!(raw.parse_warnings[0], ParseWarning::OutOfOrder));
}

#[test]
fn missing_session_start_is_an_error() {
    let lines = vec![text("{mc}", Ok(model_change(1)))];
    match assemble_session(lines, false, "/r/s/events.jsonl") {
        Err(AdapterError::MissingSessionStart { path }) => assert_eq!(path, "/r/s/events.jsonl"),
        other => panic!("expected MissingSessionStart, got {other:?}"),
    }
}

#[test]
fn meta_id_falls_back_to_directory_name() {
    let mut b = MetaBuilder::new();
    b.started_at = Some(UtcTimestamp { unix_secs: 1, nanos: 0 });
    let meta = b.build(false, "/root/abc-123/events.jsonl").unwrap();
    assert_eq!(meta.id, "abc-123");
    let mut b2 = MetaBuilder::new();
    b2.started_at = Some(UtcTimestamp { unix_secs: 1, nanos: 0 });
    let meta2 = b2.build(true, "events.jsonl").unwrap();
    assert_eq!(meta2.id, "unknown");
    assert!(MetaBuilder::new().build(false, "/x/events.jsonl").is_none());
}

#[test]
fn monotonic_and_blank_helpers() {
    assert!(is_monotonic(&[]));
    assert!(is_monotonic(&[start(1), model_change(1), model_change(2)]));
    assert!(!is_monotonic(&[start(3), model_change(2)]));
    assert!(is_blank(" \t\r\n"));
    assert!(is_blank(""));
    assert!(!is_blank(" x "));
}
