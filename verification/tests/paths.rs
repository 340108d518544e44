use agentprof::event::UtcTimestamp;
use agentprof::paths::{assemble_discovered, has_inuse_lock, is_inuse_lock_name, SessionDirEntry};

fn entry(name: &str, secs: i64, files: &[&str]) -> SessionDirEntry {
    SessionDirEntry {
        dir_name: Some(name.to_string()),
        dir_path: format!("/root/{name}"),
        events_path: format!("/root/{name}/events.jsonl"),
        modified_at: UtcTimestamp { unix_secs: secs, nanos: 0 },
        size_bytes: 42,
        file_names: files.iter().map(|f| f.to_string()).collect(),
    }
}

#[test]
fn has_inuse_lock_detects_pattern() {
    assert!(!has_inuse_lock(&[]));
    assert!(!has_inuse_lock(&["events.jsonl".to_string()]));
    assert!(has_inuse_lock(&["events.jsonl".to_string(), "inuse.42.lock".to_string()]));
}

#[test]
fn lock_name_rules() {
    assert!(is_inuse_lock_name("inuse.42.lock"));
    assert!(is_inuse_lock_name("inuse.7.LOCK"));
    assert!(is_inuse_lock_name("inuse.lock"));
    assert!(!is_inuse_lock_name("inuse.42.lck"));
    assert!(!is_inuse_lock_name("notinuse.42.lock"));
    assert!(!is_inuse_lock_name("inuse.42.lock.bak"));
    assert!(!is_inuse_lock_name("inuse"));
}

#[test]
fn discover_sorts_descending_by_mtime() {
    let refs = assemble_discovered(vec![
        entry("old", 10, &["events.jsonl"]),
        entry("new", 30, &["events.jsonl", "inuse.1.lock"]),
        entry("mid", 20, &["events.jsonl"]),
    ]);
    let ids: Vec<&str> = refs.iter().map(|r| r.id.as_str()).collect();
    assert_eq!(ids, vec!["new", "mid", "old"]);
    assert!(refs[0].is_live);
    assert!(!refs[1].is_live);
    assert_eq!(refs[0].path, "/root/new/events.jsonl");
    assert_eq!(refs[0].size_bytes, 42);
}

#[test]
fn discover_keeps_walk_order_for_equal_times() {
    let refs = assemble_discovered(vec![entry("a", 5, &[]), entry("b", 5, &[]), entry("c", 9, &[])]);
    let ids: Vec<&str> = refs.iter().map(|r| r.id.as_str()).collect();
    assert_eq!(ids, vec!["c", "a", "b"]);
}

#[test]
fn discover_uses_path_when_name_is_not_utf8() {
    let mut e = entry("x", 1, &[]);
    e.dir_name = None;
    e.dir_path = "/root/\u{fffd}".to_string();
    let refs = assemble_discovered(vec![e]);
    assert_eq!(refs[0].id, "/root/\u{fffd}");
}
