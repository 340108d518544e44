use agentprof::refs::DualPathWarning;
use agentprof::table::{format_table, list_row_cells_of, render_table, warning_line, ListRow};

#[test]
fn format_table_handles_empty_rows() {
    let table = format_table(&[], false);
    assert_eq!(table.lines().count(), 1);
    assert!(table.contains("ID"));
    assert!(table.contains("Started"));
}

#[test]
fn format_table_aligns_columns() {
    let rows = vec![
        ListRow {
            id: "shortid".to_string(),
            started_at_ms: 1_780_912_800_000,
            model: Some("model-a".to_string()),
            turns: 5,
            out_tokens: "100".to_string(),
            duration: Some("3.0s".to_string()),
            size: "1.0k".to_string(),
        },
        ListRow {
            id: "a-much-longer-session-id-here".to_string(),
            started_at_ms: 1_780_916_400_000,
            model: None,
            turns: 50,
            out_tokens: "1.23M".to_string(),
            duration: None,
            size: "40.1M".to_string(),
        },
    ];
    let table = format_table(&rows, false);
    // 1 header + 2 data rows.
    assert_eq!(table.lines().count(), 3);
    assert!(table.contains("a-much-longer-session-id-here"));
    // None model rendered as "-".
    assert!(table.contains(" -      "));
    let lines: Vec<&str> = table.lines().collect();
    let started_col = lines[0].find("Started").unwrap();
    assert_eq!(started_col, "a-much-longer-session-id-here".len() + 2);
    assert_eq!(lines[1].find("2026").unwrap(), started_col);
}

#[test]
fn list_row_cells_fill_missing_with_dash() {
    let r = ListRow {
        id: "s".to_string(),
        started_at_ms: 0,
        model: None,
        turns: 12,
        out_tokens: "1.2k".to_string(),
        duration: None,
        size: "850".to_string(),
    };
    assert_eq!(
        list_row_cells_of(&r),
        vec!["s", "1970-01-01 00:00 UTC", "-", "12", "1.2k", "-", "850"]
    );
}

#[test]
fn render_table_pads_and_bolds_header() {
    let headers = vec!["A".to_string(), "BB".to_string()];
    let rows = vec![vec!["xyz".to_string(), "q".to_string()]];
    assert_eq!(render_table(&headers, &rows, false), "A    BB\nxyz  q \n");
    assert_eq!(render_table(&headers, &rows, true), "\x1b[1mA    BB\x1b[0m\nxyz  q \n");
}

#[test]
fn warning_line_lists_fields() {
    let w = DualPathWarning {
        session_id: "s1".into(),
        differing_fields: vec!["raw_mtime_ms", "raw_path"],
        adapter_won: true,
    };
    assert_eq!(
        warning_line(&w),
        "agentprof: warn: session s1: 2 fields differ (raw_mtime_ms, raw_path); using adapter; will re-upsert"
    );
}
