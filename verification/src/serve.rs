//! Request-level rules of the dashboard server: the bundled static
//! assets, the query defaults and validation of the aggregate and
//! MCP-waste views, and the `.html` suffix of chunk routes.

use vstd::prelude::*;
use std::time::Duration;
use crate::aggregate::AggregateKey;
use crate::since::{parse_since, since_spec, spec_duration_new};
use crate::text::{chars_of, push_str};
use crate::order::chars_eq;

verus! {

/// The dashboard's bundled static assets.
#[derive(Debug, Clone, Copy, PartialEq, Eq, Structural)]
pub enum StaticAsset {
    /// `dashboard.css`.
    Css,
    /// `dashboard.js`.
    Js,
    /// `favicon.svg`.
    FaviconSvg,
}

/// The MIME type and asset served for `/static/<name>`, for the three
/// bundled names; `None` (a 404) for any other name.
pub open spec fn lookup_spec(name: Seq<char>) -> Option<(Seq<char>, StaticAsset)> {
    if name == "dashboard.css"@ {
        Some(("text/css; charset=utf-8"@, StaticAsset::Css))
    } else if name == "dashboard.js"@ {
        Some(("application/javascript; charset=utf-8"@, StaticAsset::Js))
    } else if name == "favicon.svg"@ {
        Some(("image/svg+xml"@, StaticAsset::FaviconSvg))
    } else {
        None
    }
}

fn str_eq(a: &str, b: &str) -> (r: bool)
    ensures
        r == (a@ == b@),
{
    let x = chars_of(a);
    let y = chars_of(b);
    chars_eq(x.as_slice(), y.as_slice())
}

/// MIME type and asset for a `/static/<name>` request; `None` for names
/// that are not bundled.
pub fn lookup(name: &str) -> (r: Option<(&'static str, StaticAsset)>)
    ensures
        match r {
            Some((mime, a)) => lookup_spec(name@) == Some((mime@, a)),
            None => lookup_spec(name@) is None,
        },
{
    proof {
        reveal_strlit("dashboard.css");
        reveal_strlit("dashboard.js");
        reveal_strlit("favicon.svg");
        reveal_strlit("text/css; charset=utf-8");
        reveal_strlit("application/javascript; charset=utf-8");
        reveal_strlit("image/svg+xml");
    }
    if str_eq(name, "dashboard.css") {
        Some(("text/css; charset=utf-8", StaticAsset::Css))
    } else if str_eq(name, "dashboard.js") {
        Some(("application/javascript; charset=utf-8", StaticAsset::Js))
    } else if str_eq(name, "favicon.svg") {
        Some(("image/svg+xml", StaticAsset::FaviconSvg))
    } else {
        None
    }
}

/// The default grouping of the aggregate view: `model`.
pub fn default_by() -> (r: String)
    ensures
        r@ == "model"@,
{
    "model".to_owned()
}

/// The default window of the aggregate and MCP-waste views: `7d`.
pub fn default_since() -> (r: String)
    ensures
        r@ == "7d"@,
{
    "7d".to_owned()
}

/// Query of `GET /aggregate`: grouping and window.
#[derive(Debug, Clone)]
pub struct AggregateQuery {
    pub by: String,
    pub since: String,
}

impl Default for AggregateQuery {
    fn default() -> (r: AggregateQuery)
        ensures
            r.by@ == "model"@,
            r.since@ == "7d"@,
    {
        AggregateQuery { by: default_by(), since: default_since() }
    }
}

/// Query of `GET /mcp-waste`: the window.
#[derive(Debug, Clone)]
pub struct McpWasteQuery {
    pub since: String,
}

impl Default for McpWasteQuery {
    fn default() -> (r: McpWasteQuery)
        ensures
            r.since@ == "7d"@,
    {
        McpWasteQuery { since: default_since() }
    }
}

/// The grouping a `by=` value selects for the dashboard's aggregate view,
/// or the message of the `400` it answers: `tool`, `model` and `day` are
/// served; `mcp-server` is refused with a pointer to the MCP-waste view;
/// anything else is unknown.
pub open spec fn parse_by_spec(s: Seq<char>) -> Result<AggregateKey, Seq<char>> {
    if s == "tool"@ {
        Ok(AggregateKey::Tool)
    } else if s == "model"@ {
        Ok(AggregateKey::Model)
    } else if s == "day"@ {
        Ok(AggregateKey::Day)
    } else if s == "mcp-server"@ {
        Err("--by=mcp-server requires --tool-descriptions sidecar + MCP config; use /mcp-waste view instead"@)
    } else {
        Err("unknown by="@ + s + "; use one of: model, tool, day"@)
    }
}

/// Parses the `by=` value of the aggregate view (see [`parse_by_spec`]).
pub fn parse_by(s: &str) -> (r: Result<AggregateKey, String>)
    ensures
        match r {
            Ok(k) => parse_by_spec(s@) == Ok::<AggregateKey, Seq<char>>(k),
            Err(e) => parse_by_spec(s@) == Err::<AggregateKey, Seq<char>>(e@),
        },
{
    proof {
        reveal_strlit("tool");
        reveal_strlit("model");
        reveal_strlit("day");
        reveal_strlit("mcp-server");
        reveal_strlit("--by=mcp-server requires --tool-descriptions sidecar + MCP config; use /mcp-waste view instead");
        reveal_strlit("unknown by=");
        reveal_strlit("; use one of: model, tool, day");
    }
    if str_eq(s, "tool") {
        Ok(AggregateKey::Tool)
    } else if str_eq(s, "model") {
        Ok(AggregateKey::Model)
    } else if str_eq(s, "day") {
        Ok(AggregateKey::Day)
    } else if str_eq(s, "mcp-server") {
        Err("--by=mcp-server requires --tool-descriptions sidecar + MCP config; use /mcp-waste view instead".to_owned())
    } else {
        let mut msg = String::new();
        push_str(&mut msg, "unknown by=");
        push_str(&mut msg, s);
        push_str(&mut msg, "; use one of: model, tool, day");
        Err(msg)
    }
}

/// The grouping and window an aggregate query asks for, or the message of
/// the `400` it gets: an unusable `by=` (see [`parse_by_spec`]), then a
/// malformed `since=` (`invalid since=<value>: <reason>`).
pub fn validate_aggregate_query(q: &AggregateQuery) -> (r: Result<(AggregateKey, Duration), String>)
    ensures
        match parse_by_spec(q.by@) {
            Err(m) => r matches Err(e) && e@ == m,
            Ok(k) => match since_spec(q.since@) {
                Ok(w) => r == Ok::<(AggregateKey, Duration), String>((k, spec_duration_new(w.0, w.1))),
                Err(m) => r matches Err(e) && e@ == "invalid since="@ + q.since@ + ": "@ + m,
            },
        },
{
    proof {
        reveal_strlit("invalid since=");
        reveal_strlit(": ");
    }
    let key = match parse_by(q.by.as_str()) {
        Ok(k) => k,
        Err(msg) => return Err(msg),
    };
    match parse_since(q.since.as_str()) {
        Ok(d) => Ok((key, d)),
        Err(msg) => {
            let mut m = String::new();
            push_str(&mut m, "invalid since=");
            push_str(&mut m, q.since.as_str());
            push_str(&mut m, ": ");
            push_str(&mut m, msg.as_str());
            Err(m)
        },
    }
}

/// `s` without one trailing `.html`, if it has one.
pub open spec fn strip_html_spec(s: Seq<char>) -> Seq<char> {
    if s.len() >= 5 && s.subrange(s.len() - 5, s.len() as int) == ".html"@ {
        s.subrange(0, s.len() - 5)
    } else {
        s
    }
}

/// The id of a chunk route segment: `s` without a trailing `.html`.
pub fn strip_html_suffix(s: &str) -> (r: String)
    ensures
        r@ == strip_html_spec(s@),
{
    proof {
        reveal_strlit(".html");
    }
    let cs = chars_of(s);
    let n = cs.len();
    if n >= 5 && cs[n - 5] == '.' && cs[n - 4] == 'h' && cs[n - 3] == 't' && cs[n - 2] == 'm'
        && cs[n - 1] == 'l' {
        assert(cs@.subrange(n - 5, n as int) =~= ".html"@);
        crate::text::prefix_string(cs.as_slice(), n - 5)
    } else {
        assert(n >= 5 ==> cs@.subrange(n - 5, n as int)[0] == cs@[n - 5]);
        assert(n >= 5 ==> cs@.subrange(n - 5, n as int)[1] == cs@[n - 4]);
        assert(n >= 5 ==> cs@.subrange(n - 5, n as int)[2] == cs@[n - 3]);
        assert(n >= 5 ==> cs@.subrange(n - 5, n as int)[3] == cs@[n - 2]);
        assert(n >= 5 ==> cs@.subrange(n - 5, n as int)[4] == cs@[n - 1]);
        assert(cs@ =~= s@);
        s.to_owned()
    }
}

/// The first eight characters of a session id (all of a shorter one).
pub fn short_id(id: &str) -> (r: String)
    ensures
        r@ == if id@.len() <= 8 { id@ } else { id@.take(8) },
{
    let cs = chars_of(id);
    let k = if cs.len() < 8 { cs.len() } else { 8 };
    let r = crate::text::prefix_string(cs.as_slice(), k);
    assert(cs@.len() <= 8 ==> cs@.take(k as int) =~= cs@);
    r
}

/// The store `serve` opens, or the user error when there is none: no
/// path given, or a path that does not exist.
pub fn serve_storage_path(path: Option<String>, exists: bool) -> (r: Result<String, String>)
    ensures
        match path {
            None => r is Err && r->Err_0@ == "agentprof serve requires --storage-path (or AGENTPROF_STORAGE_PATH env / [storage] path config); run `agentprof db init` then `agentprof db ingest` first"@,
            Some(p) => if exists {
                r == Ok::<String, String>(p)
            } else {
                r is Err && r->Err_0@ == "storage path does not exist: "@ + p@
                    + " — run `agentprof db init --storage-path <PATH>` first"@
            },
        },
{
    proof {
        reveal_strlit("agentprof serve requires --storage-path (or AGENTPROF_STORAGE_PATH env / [storage] path config); run `agentprof db init` then `agentprof db ingest` first");
        reveal_strlit("storage path does not exist: ");
        reveal_strlit(" — run `agentprof db init --storage-path <PATH>` first");
    }
    match path {
        None => Err(
            "agentprof serve requires --storage-path (or AGENTPROF_STORAGE_PATH env / [storage] path config); run `agentprof db init` then `agentprof db ingest` first".to_owned(),
        ),
        Some(p) => {
            if exists {
                Ok(p)
            } else {
                let mut m = String::new();
                push_str(&mut m, "storage path does not exist: ");
                push_str(&mut m, p.as_str());
                push_str(&mut m, " — run `agentprof db init --storage-path <PATH>` first");
                Err(m)
            }
        },
    }
}

/// The browser's default poll interval: the flag's value, else 5 seconds.
pub fn interval_or_default(flag: Option<u8>) -> (r: u8)
    ensures
        r == match flag {
            Some(v) => v,
            None => 5u8,
        },
{
    match flag {
        Some(v) => v,
        None => 5,
    }
}

} // verus!
