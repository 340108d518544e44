//! Cross-session aggregation choices: the grouping key, the output
//! formats, the `--since` window test on a session's modification time,
//! and the newest-first ordering of the sessions to aggregate.

use vstd::prelude::*;
use crate::event::UtcTimestamp;

verus! {

/// What cross-session buckets are keyed by.
#[derive(Debug, Clone, Copy, PartialEq, Eq, Structural)]
pub enum AggregateKey {
    Tool,
    McpServer,
    Day,
    Model,
}

/// The `--by` choices of `aggregate`.
#[derive(Debug, Clone, Copy, PartialEq, Eq, Structural)]
pub enum AggBy {
    /// Group by tool name.
    Tool,
    /// Group by MCP server (`mcp__<server>__<tool>` prefix).
    McpServer,
    /// Group by UTC calendar date.
    Day,
    /// Group by first-turn model id.
    Model,
}

/// Output format of `aggregate`.
#[derive(Debug, Clone, Copy, PartialEq, Eq, Structural)]
pub enum AggExportFormat {
    Md,
    Json,
    Csv,
    Html,
    Tui,
}

impl AggBy {
    /// The grouping key this choice stands for, one to one.
    pub fn to_key(self) -> (r: AggregateKey)
        ensures
            r == match self {
                AggBy::Tool => AggregateKey::Tool,
                AggBy::McpServer => AggregateKey::McpServer,
                AggBy::Day => AggregateKey::Day,
                AggBy::Model => AggregateKey::Model,
            },
    {
        match self {
            AggBy::Tool => AggregateKey::Tool,
            AggBy::McpServer => AggregateKey::McpServer,
            AggBy::Day => AggregateKey::Day,
            AggBy::Model => AggregateKey::Model,
        }
    }
}

/// `to_key` maps distinct choices to distinct keys.
pub proof fn law_to_key_injective(a: AggBy, b: AggBy)
    ensures
        (match a {
            AggBy::Tool => AggregateKey::Tool,
            AggBy::McpServer => AggregateKey::McpServer,
            AggBy::Day => AggregateKey::Day,
            AggBy::Model => AggregateKey::Model,
        }) == (match b {
            AggBy::Tool => AggregateKey::Tool,
            AggBy::McpServer => AggregateKey::McpServer,
            AggBy::Day => AggregateKey::Day,
            AggBy::Model => AggregateKey::Model,
        }) ==> a == b,
{
}

/// Nanoseconds since the Unix epoch of `t`.
pub open spec fn ts_nanos(t: UtcTimestamp) -> int {
    t.unix_secs * 1_000_000_000 + t.nanos
}

/// A session last modified at `modified` belongs to a window of
/// `(secs, nanos)` ending at `now`: it was modified no longer ago than
/// the window, or it is modified after `now`.
pub open spec fn in_window(now: UtcTimestamp, modified: UtcTimestamp, window: (u64, u32)) -> bool {
    ts_nanos(now) - ts_nanos(modified) <= window.0 * 1_000_000_000 + window.1
}

/// Whether a session modified at `modified` falls in the `--since` window
/// `(secs, nanos)` that ends at `now` (see [`in_window`]).
pub fn within_window(now: UtcTimestamp, modified: UtcTimestamp, window: (u64, u32)) -> (r: bool)
    requires
        now.nanos < 1_000_000_000,
        modified.nanos < 1_000_000_000,
    ensures
        r == in_window(now, modified, window),
{
    let n: i128 = now.unix_secs as i128 * 1_000_000_000 + now.nanos as i128;
    let m: i128 = modified.unix_secs as i128 * 1_000_000_000 + modified.nanos as i128;
    let w: i128 = window.0 as i128 * 1_000_000_000 + window.1 as i128;
    n - m <= w
}

/// `watch aggregate` always shows the terminal UI: it refuses any
/// `--export` (`export` is the value given, `None` when the flag is
/// absent) and any `--output`.
pub fn watch_aggregate_flags(export: Option<AggExportFormat>, has_output: bool) -> (r: Result<(), String>)
    ensures
        r is Ok <==> (export is None && !has_output),
        r matches Err(e) ==> e@ == "`watch aggregate` does not accept --export or --output; output is always interactive TUI. Re-run without those flags."@,
{
    proof {
        reveal_strlit("`watch aggregate` does not accept --export or --output; output is always interactive TUI. Re-run without those flags.");
    }
    if export.is_some() || has_output {
        return Err(
            "`watch aggregate` does not accept --export or --output; output is always interactive TUI. Re-run without those flags.".to_owned(),
        );
    }
    Ok(())
}

/// `--limit`: the number of buckets kept, `0` meaning all of them.
pub fn bucket_limit(limit: usize, len: usize) -> (r: usize)
    ensures
        r == if limit == 0 || limit > len { len } else { limit },
{
    if limit == 0 || limit > len {
        len
    } else {
        limit
    }
}

/// The largest `--since` window, which `all` denotes: `Duration::MAX`.
pub open spec fn is_all_window(window: (u64, u32)) -> bool {
    window.0 == u64::MAX && window.1 == 999_999_999
}

/// The lower time bound a report records for the `--since` window
/// `(secs, nanos)`, in milliseconds.
///
/// - `all` records no bound;
/// - otherwise the window's whole seconds, capped at `i64::MAX`, become a
///   chrono duration of that many seconds (`TimeDelta::try_seconds`), or
///   chrono's largest duration, `i64::MAX` ms, when they exceed the
///   `i64::MAX / 1000` seconds that chrono holds.
pub open spec fn since_bound_spec(window: (u64, u32)) -> Option<i64> {
    if is_all_window(window) {
        None
    } else {
        let secs: int = if window.0 > i64::MAX { i64::MAX as int } else { window.0 as int };
        if secs <= i64::MAX / 1000 {
            Some((secs * 1000) as i64)
        } else {
            Some(i64::MAX)
        }
    }
}

/// The lower time bound, in milliseconds, that an aggregate report records
/// for a `--since` window (see [`since_bound_spec`]): `None` for `all`.
pub fn since_bound_ms(window: (u64, u32)) -> (r: Option<i64>)
    ensures
        r == since_bound_spec(window),
        r is None <==> is_all_window(window),
{
    if window.0 == u64::MAX && window.1 == 999_999_999 {
        return None;
    }
    let max_secs: u64 = 9_223_372_036_854_775_807;
    let secs: u64 = if window.0 > max_secs { max_secs } else { window.0 };
    if secs <= 9_223_372_036_854_775 {
        let ms: u64 = secs * 1000;
        Some(ms as i64)
    } else {
        Some(9_223_372_036_854_775_807)
    }
}

} // verus!
