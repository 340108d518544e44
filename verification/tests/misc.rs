use agentprof::aggregate::{since_bound_ms, within_window, AggBy, AggregateKey};
use agentprof::since::parse_since_window;
use agentprof::config::{config_path_line, serve_lines, show_line, source_marker, PartialServeConfig};
use agentprof::event::UtcTimestamp;
use agentprof::exit::ExitKind;
use agentprof::privacy::sidecar_path;
use agentprof::text::u64_decimal;

#[test]
fn exit_codes() {
    assert_eq!(ExitKind::UserError.code(), 1);
    assert_eq!(ExitKind::DataError.code(), 2);
    assert_eq!(ExitKind::OutputError.code(), 3);
    assert_eq!(ExitKind::DataError.describe(), "data error");
}

#[test]
fn sidecar_path_beside_output_or_in_cwd() {
    assert_eq!(sidecar_path(None), "agentprof-redaction-map.json");
    assert_eq!(sidecar_path(Some("/tmp/r.json")), "/tmp/agentprof-redaction-map.json");
    assert_eq!(sidecar_path(Some("r.json")), "agentprof-redaction-map.json");
    assert_eq!(sidecar_path(Some("/")), "./agentprof-redaction-map.json");
}

#[test]
fn config_show_lines() {
    assert_eq!(source_marker(true), "(from file)");
    assert_eq!(source_marker(false), "(default)");
    assert_eq!(show_line("k", "v", false), "k = v  (default)");
    let lines = serve_lines(None);
    assert_eq!(
        lines,
        vec![
            "",
            "[serve]",
            "bind = \"127.0.0.1:4329\"  (default)",
            "interval_default = 5  (default)",
            "auto_open = true  (default)",
        ]
    );
    let p = PartialServeConfig { bind: Some("0.0.0.0:9000".into()), interval_default: Some(10), auto_open: Some(false) };
    let lines = serve_lines(Some(p));
    assert_eq!(lines[2], "bind = \"0.0.0.0:9000\"  (from file)");
    assert_eq!(lines[3], "interval_default = 10  (from file)");
    assert_eq!(lines[4], "auto_open = false  (from file)");
    assert_eq!(
        config_path_line("/c/config.toml", false, true),
        "/c/config.toml [not found] (from $AGENTPROF_CONFIG)"
    );
    assert_eq!(config_path_line("/c/config.toml", true, false), "/c/config.toml [exists]");
}

#[test]
fn agg_by_maps_to_key() {
    assert_eq!(AggBy::Tool.to_key(), AggregateKey::Tool);
    assert_eq!(AggBy::McpServer.to_key(), AggregateKey::McpServer);
    assert_eq!(AggBy::Day.to_key(), AggregateKey::Day);
    assert_eq!(AggBy::Model.to_key(), AggregateKey::Model);
}

#[test]
fn window_membership() {
    let now = UtcTimestamp { unix_secs: 1000, nanos: 0 };
    let t = |s: i64| UtcTimestamp { unix_secs: s, nanos: 0 };
    assert!(within_window(now, t(900), (100, 0)));
    assert!(!within_window(now, t(899), (100, 0)));
    assert!(within_window(now, t(2000), (0, 0)));
    assert!(within_window(now, t(i64::MIN), (u64::MAX, 999_999_999)));
}

#[test]
fn decimal_formatting() {
    assert_eq!(u64_decimal(0), "0");
    assert_eq!(u64_decimal(1234567890), "1234567890");
    assert_eq!(u64_decimal(u64::MAX), "18446744073709551615");
}

#[test]
fn since_window_report_bound() {
    assert_eq!(since_bound_ms(parse_since_window("all").unwrap()), None);
    assert_eq!(since_bound_ms(parse_since_window("7d").unwrap()), Some(604_800_000));
    assert_eq!(since_bound_ms((0, 0)), Some(0));
    assert_eq!(since_bound_ms((u64::MAX, 0)), Some(i64::MAX));
    assert_eq!(since_bound_ms((9_223_372_036_854_775, 0)), Some(9_223_372_036_854_775_000));
    assert_eq!(since_bound_ms((9_223_372_036_854_776, 0)), Some(i64::MAX));
}
