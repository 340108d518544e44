use std::time::Duration;

use agentprof::aggregate::AggregateKey;
use agentprof::serve::{
    default_by, default_since, lookup, parse_by, short_id, strip_html_suffix,
    validate_aggregate_query, AggregateQuery, McpWasteQuery, StaticAsset,
};

#[test]
fn lookup_known_assets() {
    assert_eq!(lookup("dashboard.css"), Some(("text/css; charset=utf-8", StaticAsset::Css)));
    assert_eq!(
        lookup("dashboard.js"),
        Some(("application/javascript; charset=utf-8", StaticAsset::Js))
    );
    assert_eq!(lookup("favicon.svg"), Some(("image/svg+xml", StaticAsset::FaviconSvg)));
    assert_eq!(lookup("unknown.png"), None);
}

#[test]
fn query_defaults() {
    assert_eq!(default_by(), "model");
    assert_eq!(default_since(), "7d");
    let q = AggregateQuery::default();
    assert_eq!(q.by, "model");
    assert_eq!(q.since, "7d");
    assert_eq!(McpWasteQuery::default().since, "7d");
}

#[test]
fn parse_by_accepts_three_keys() {
    assert_eq!(parse_by("tool"), Ok(AggregateKey::Tool));
    assert_eq!(parse_by("model"), Ok(AggregateKey::Model));
    assert_eq!(parse_by("day"), Ok(AggregateKey::Day));
    assert!(parse_by("mcp-server").unwrap_err().contains("/mcp-waste"));
    assert_eq!(parse_by("x").unwrap_err(), "unknown by=x; use one of: model, tool, day");
}

#[test]
fn aggregate_query_validation() {
    let ok = AggregateQuery { by: "day".into(), since: "2h".into() };
    assert_eq!(validate_aggregate_query(&ok), Ok((AggregateKey::Day, Duration::from_secs(7200))));
    let bad_since = AggregateQuery { by: "tool".into(), since: "2x".into() };
    assert_eq!(
        validate_aggregate_query(&bad_since).unwrap_err(),
        "invalid since=2x: unrecognized --since: 2x; use <N>d/h/m/s or 'all'"
    );
    let bad_by = AggregateQuery { by: "nope".into(), since: "2x".into() };
    assert!(validate_aggregate_query(&bad_by).unwrap_err().starts_with("unknown by=nope"));
}

#[test]
fn chunk_ids_and_short_ids() {
    assert_eq!(strip_html_suffix("abc.html"), "abc");
    assert_eq!(strip_html_suffix("abc"), "abc");
    assert_eq!(strip_html_suffix(".html"), "");
    assert_eq!(strip_html_suffix("a.htm"), "a.htm");
    assert_eq!(short_id("0123456789"), "01234567");
    assert_eq!(short_id("abc"), "abc");
}
