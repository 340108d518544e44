use agentprof::event::{CopilotEvent, UserMessageData, UtcTimestamp, WithEnvelope};
use agentprof::tools_changed::{
    extract_loaded_set_from_session, find_tools_changed_notices, is_valid_tool_name,
    parse_new_tools_line,
};

fn names_of(content: &str) -> Vec<String> {
    let mut acc: Vec<String> = Vec::new();
    for block in find_tools_changed_notices(content) {
        acc.extend(parse_new_tools_line(&block));
    }
    acc
}

fn user_message(transformed: Option<&str>) -> CopilotEvent {
    CopilotEvent::UserMessage(WithEnvelope {
        id: "u1".into(),
        timestamp: UtcTimestamp { unix_secs: 0, nanos: 0 },
        parent_id: None,
        ephemeral: None,
        agent_id: None,
        data: UserMessageData {
            content: "hello".into(),
            transformed_content: transformed.map(str::to_string),
            source: Some("user".into()),
            attachments: Vec::new(),
            interaction_id: "i1".into(),
        },
    })
}

#[test]
fn extract_empty_session_returns_empty_set() {
    let set = extract_loaded_set_from_session(&[]);
    assert!(set.is_empty());
}

#[test]
fn parse_single_new_tools_line() {
    let content = "<tools_changed_notice>\nNew tools available: mcp__github__search, mcp__github__create\n</tools_changed_notice>";
    let acc = names_of(content);
    assert_eq!(acc.len(), 2);
    assert!(acc.contains(&"mcp__github__search".to_string()));
}

#[test]
fn parse_ignores_tools_no_longer_available_line() {
    let content = "<tools_changed_notice>\nNew tools available: mcp__a__t1\n\nTools no longer available: mcp__a__t2\n</tools_changed_notice>";
    let acc = names_of(content);
    assert!(acc.contains(&"mcp__a__t1".to_string()));
    assert!(!acc.contains(&"mcp__a__t2".to_string()));
}

#[test]
fn parse_multiple_notices_in_one_content() {
    let content = "<tools_changed_notice>\nNew tools available: mcp__a__t1\n</tools_changed_notice>\nFoo bar\n<tools_changed_notice>\nNew tools available: mcp__b__t2\n</tools_changed_notice>";
    let blocks = find_tools_changed_notices(content);
    assert_eq!(blocks.len(), 2);
}

#[test]
fn parse_notice_in_middle_of_content_works() {
    let content = "Some preamble\n<tools_changed_notice>\nNew tools available: mcp__a__t1\n</tools_changed_notice>\nSome postamble";
    let blocks = find_tools_changed_notices(content);
    assert_eq!(blocks.len(), 1);
}

#[test]
fn parse_malformed_block_no_close_tag_gracefully_skipped() {
    let content = "<tools_changed_notice>\nNew tools available: mcp__a__t1\n(no close tag)";
    let blocks = find_tools_changed_notices(content);
    assert!(blocks.is_empty());
}

#[test]
fn extract_filters_non_mcp_tools() {
    let content = "<tools_changed_notice>\nNew tools available: bash, mcp__github__search, exit_plan_mode\n</tools_changed_notice>";
    let set = extract_loaded_set_from_session(&[user_message(Some(content))]);
    assert_eq!(set.len(), 1);
    assert!(set.contains(&"mcp__github__search".to_string()));
}

#[test]
fn extract_tolerates_user_message_without_transformed_content() {
    let set = extract_loaded_set_from_session(&[user_message(None)]);
    assert!(set.is_empty());
}

#[test]
fn extract_is_sorted_and_deduplicated_across_events() {
    let a = "<tools_changed_notice>\nNew tools available: mcp__z__t, mcp__a__t\n</tools_changed_notice>";
    let b = "<tools_changed_notice>\r\n  New tools available:  mcp__a__t ,mcp__m__t\r\n</tools_changed_notice>";
    let set = extract_loaded_set_from_session(&[user_message(Some(a)), user_message(Some(b))]);
    assert_eq!(set, vec!["mcp__a__t", "mcp__m__t", "mcp__z__t"]);
}

#[test]
fn invalid_names_are_dropped() {
    let content = "<tools_changed_notice>\nNew tools available: ok_name, bad name, , also-ok, bad/slash\n</tools_changed_notice>";
    assert_eq!(names_of(content), vec!["ok_name", "also-ok"]);
    assert!(is_valid_tool_name("a-b_c9"));
    assert!(!is_valid_tool_name(""));
    assert!(!is_valid_tool_name("a.b"));
}

#[test]
fn block_body_is_between_the_tags() {
    let blocks = find_tools_changed_notices("x<tools_changed_notice>BODY</tools_changed_notice>y");
    assert_eq!(blocks, vec!["BODY"]);
}
