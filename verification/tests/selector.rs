use std::str::FromStr;

use agentprof::event::UtcTimestamp;
use agentprof::refs::{AdapterRef, AgentKind};
use agentprof::selector::{
    looks_like_uuid, resolve_events_path, select_session, AnalysisSection, SessionSelector,
};

#[test]
fn session_selector_parses_latest_and_previous() {
    assert!(matches!(SessionSelector::from_str("latest").unwrap(), SessionSelector::Latest));
    assert!(matches!(SessionSelector::from_str("previous").unwrap(), SessionSelector::Previous));
}

#[test]
fn session_selector_parses_uuid() {
    let s = SessionSelector::from_str("00000000-0000-0000-0000-000000000001").unwrap();
    match s {
        SessionSelector::Uuid(u) => assert_eq!(u, "00000000-0000-0000-0000-000000000001"),
        other => panic!("expected Uuid, got {other:?}"),
    }
}

#[test]
fn session_selector_parses_path_with_slash() {
    let s = SessionSelector::from_str("/tmp/sess/events.jsonl").unwrap();
    match s {
        SessionSelector::Path(p) => assert_eq!(p, "/tmp/sess/events.jsonl"),
        other => panic!("expected Path, got {other:?}"),
    }
}

#[test]
fn session_selector_rejects_garbage() {
    let err = SessionSelector::from_str("garbage").unwrap_err();
    assert!(err.contains("unrecognized session selector"));
    assert!(err.contains("latest"));
}

#[test]
fn session_selector_rejects_uuid_shaped_non_hex() {
    let err = SessionSelector::from_str("0000000g-0000-0000-0000-000000000001").unwrap_err();
    assert!(err.contains("unrecognized session selector"));
}

#[test]
fn session_selector_error_quotes_the_value() {
    let err = SessionSelector::parse("bad\"x").unwrap_err();
    assert_eq!(
        err,
        "unrecognized session selector: \"bad\\\"x\" (use 'latest', 'previous', a UUID like '00000000-0000-0000-0000-000000000001', or a filesystem path)"
    );
}

#[test]
fn session_selector_backslash_is_a_path() {
    assert!(matches!(SessionSelector::parse("C:\\logs").unwrap(), SessionSelector::Path(p) if p == "C:\\logs"));
}

#[test]
fn looks_like_uuid_accepts_canonical_form() {
    assert!(looks_like_uuid("00000000-0000-0000-0000-000000000001"));
    assert!(looks_like_uuid("abcdef01-2345-6789-abcd-ef0123456789"));
    assert!(looks_like_uuid("ABCDEF01-2345-6789-ABCD-EF0123456789"));
}

#[test]
fn looks_like_uuid_rejects_wrong_length() {
    assert!(!looks_like_uuid(""));
    assert!(!looks_like_uuid("00000000-0000-0000-0000-00000000000"));
    assert!(!looks_like_uuid("00000000-0000-0000-0000-0000000000010"));
}

#[test]
fn looks_like_uuid_rejects_dashes_in_wrong_positions() {
    assert!(!looks_like_uuid("0-000000-0000-0000-0000-00000000000-"));
}

#[test]
fn looks_like_uuid_rejects_non_hex_with_correct_shape() {
    assert!(!looks_like_uuid("0000000g-0000-0000-0000-000000000001"));
    assert!(!looks_like_uuid("00000000-0000-0000-0000-00000000000g"));
    assert!(!looks_like_uuid("00000000-0000-0000-0000-00000000000Z"));
}

#[test]
fn all_vec_contains_all_three_sections() {
    let v = AnalysisSection::all_vec();
    assert_eq!(v.len(), 3);
    assert!(v.contains(&AnalysisSection::TurnSummary));
    assert!(v.contains(&AnalysisSection::ToolRank));
    assert!(v.contains(&AnalysisSection::HookRank));
    assert!(!v.contains(&AnalysisSection::McpWaste));
}

fn sref(id: &str, secs: i64) -> AdapterRef {
    AdapterRef {
        id: id.to_string(),
        agent: AgentKind::Copilot,
        path: format!("/root/{id}/events.jsonl"),
        modified_at: UtcTimestamp { unix_secs: secs, nanos: 0 },
        size_bytes: 10,
        is_live: false,
    }
}

#[test]
fn select_latest_previous_and_uuid() {
    let all = || vec![sref("c", 30), sref("b", 20), sref("a", 10)];
    assert_eq!(select_session(all(), &SessionSelector::Latest, "/root").unwrap().id, "c");
    assert_eq!(select_session(all(), &SessionSelector::Previous, "/root").unwrap().id, "b");
    assert_eq!(
        select_session(all(), &SessionSelector::Uuid("a".into()), "/root").unwrap().id,
        "a"
    );
}

#[test]
fn select_reports_why_nothing_matched() {
    assert_eq!(
        select_session(Vec::new(), &SessionSelector::Latest, "/r").unwrap_err(),
        "no sessions found under /r"
    );
    assert_eq!(
        select_session(Vec::new(), &SessionSelector::Previous, "/r").unwrap_err(),
        "no sessions found under /r"
    );
    assert_eq!(
        select_session(vec![sref("only", 1)], &SessionSelector::Previous, "/r").unwrap_err(),
        "no previous session: only 1 session present"
    );
    let many: Vec<AdapterRef> = (0..7).map(|i| sref(&format!("s{i}"), 100 - i)).collect();
    assert_eq!(
        select_session(many, &SessionSelector::Uuid("zz".into()), "/r").unwrap_err(),
        "session UUID zz not found under /r; first 5 available: s0, s1, s2, s3, s4"
    );
    assert_eq!(
        select_session(vec![sref("a", 1)], &SessionSelector::Path("/x".into()), "/r").unwrap_err(),
        "internal: Path selector reached discovery path"
    );
}

#[test]
fn events_path_resolution() {
    assert_eq!(resolve_events_path("/x/events.jsonl", true, false), "/x/events.jsonl");
    assert_eq!(resolve_events_path("/x/sess", false, true), "/x/sess/events.jsonl");
    assert_eq!(resolve_events_path("/x/missing.jsonl", false, false), "/x/missing.jsonl");
    assert_eq!(resolve_events_path("/x/missing", false, false), "/x/missing/events.jsonl");
}
