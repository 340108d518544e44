use agentprof::escape::{html_escape, md_escape};

#[test]
fn html_escape_handles_all_five_metacharacters() {
    let input = r#"<script src="x" attr='y'>&"#;
    let escaped = html_escape(input);
    assert!(!escaped.contains('<'));
    assert!(!escaped.contains('>'));
    assert!(!escaped.contains('"'));
    assert!(!escaped.contains('\''));
    assert_eq!(escaped, "&lt;script src=&quot;x&quot; attr=&#39;y&#39;&gt;&amp;");
}

#[test]
fn html_escape_preserves_safe_text() {
    assert_eq!(html_escape("plain text 123"), "plain text 123");
}

#[test]
fn html_escape_escapes_ampersand_first() {
    assert_eq!(html_escape("&<"), "&amp;&lt;");
}

#[test]
fn html_escape_keeps_non_ascii() {
    assert_eq!(html_escape("é<ü>"), "é&lt;ü&gt;");
}

#[test]
fn md_escape_pipes_and_newlines() {
    assert_eq!(md_escape("a|b\nc"), "a\\|b c");
    assert_eq!(md_escape("plain"), "plain");
    assert_eq!(md_escape(""), "");
    assert_eq!(md_escape("||"), "\\|\\|");
}
