//! The `mcp-waste` command's arguments and the rules around its pipeline:
//! where `mcp.json` is looked for, and what the run reports when it has
//! nothing to aggregate.

use vstd::prelude::*;
use crate::pathname::{path_join, spec_path_join};
use crate::text::{chars_of, decimal, push_str, u64_decimal};

verus! {

/// Output formats of `mcp-waste` (no terminal UI).
#[derive(Debug, Clone, Copy, PartialEq, Eq, Structural)]
pub enum McpWasteExport {
    Md,
    Json,
    Html,
}

/// Arguments of `mcp-waste`.
#[derive(Debug, Clone)]
pub struct McpWasteArgs {
    /// Session-state root override.
    pub root: Option<String>,
    /// Time window, e.g. `7d`.
    pub since: String,
    /// Rows of the "always unused" table.
    pub top: usize,
    /// `mcp.json` path override.
    pub mcp_config: Option<String>,
    /// Output format.
    pub export: McpWasteExport,
    /// Output file; stdout when absent.
    pub output: Option<String>,
    /// Heuristic token cost per tool without a sidecar entry.
    pub tokens_per_tool: u64,
    /// Tool-description sidecar (file or directory).
    pub tool_descriptions: Option<String>,
}

/// `p` with a leading `~/` resolved against `home` when a home directory is
/// known; `p` unchanged otherwise.
pub open spec fn expand_tilde_spec(p: Seq<char>, home: Option<Seq<char>>) -> Seq<char> {
    if "~/"@.is_prefix_of(p) && home is Some {
        spec_path_join(home->0, p.skip(2))
    } else {
        p
    }
}

/// Expands a leading `~/` of `p` against `home` (see [`expand_tilde_spec`]).
pub fn expand_tilde(p: &str, home: Option<&str>) -> (r: String)
    ensures
        r@ == expand_tilde_spec(p@, match home {
            Some(h) => Some(h@),
            None => None,
        }),
{
    proof {
        reveal_strlit("~/");
    }
    let cs = chars_of(p);
    let tilde = chars_of("~/");
    if crate::text::starts_with_chars(cs.as_slice(), tilde.as_slice()) {
        if let Some(h) = home {
            let rest = crate::text::slice_string(cs.as_slice(), 2, cs.len());
            assert(rest@ =~= p@.skip(2));
            return path_join(h, rest.as_str());
        }
    }
    p.to_owned()
}

/// Where `mcp.json` is read from: the override (with `~/` expanded), else
/// `<home>/.copilot/mcp.json`; without an override or a home directory,
/// the error `could not resolve user home directory`.
pub fn resolve_mcp_config_path(override_path: Option<&str>, home: Option<&str>) -> (r: Result<
    String,
    String,
>)
    ensures
        match override_path {
            Some(p) => r is Ok && r->Ok_0@ == expand_tilde_spec(p@, match home {
                Some(h) => Some(h@),
                None => None,
            }),
            None => match home {
                Some(h) => r is Ok && r->Ok_0@ == spec_path_join(spec_path_join(h@, ".copilot"@), "mcp.json"@),
                None => r is Err && r->Err_0@ == "could not resolve user home directory"@,
            },
        },
{
    proof {
        reveal_strlit(".copilot");
        reveal_strlit("mcp.json");
        reveal_strlit("could not resolve user home directory");
    }
    match override_path {
        Some(p) => Ok(expand_tilde(p, home)),
        None => match home {
            Some(h) => {
                let dir = path_join(h, ".copilot");
                Ok(path_join(dir.as_str(), "mcp.json"))
            },
            None => Err("could not resolve user home directory".to_owned()),
        },
    }
}

/// The data error when no session falls in the window.
pub fn no_sessions_message(since: &str, root: &str) -> (r: String)
    ensures
        r@ == "no sessions matched --since "@ + since@ + " under "@ + root@,
{
    proof {
        reveal_strlit("no sessions matched --since ");
        reveal_strlit(" under ");
    }
    let mut m = String::new();
    push_str(&mut m, "no sessions matched --since ");
    push_str(&mut m, since);
    push_str(&mut m, " under ");
    push_str(&mut m, root);
    m
}

/// The data error when every session failed: `all <n> session(s) failed to
/// parse` (shared by `aggregate`, `list` and `mcp-waste`).
pub fn all_failed_message(failed: usize) -> (r: String)
    ensures
        r@ == "all "@ + decimal(failed as nat) + " session(s) failed to parse"@,
{
    proof {
        reveal_strlit("all ");
        reveal_strlit(" session(s) failed to parse");
    }
    let mut m = String::new();
    push_str(&mut m, "all ");
    let n = u64_decimal(failed as u64);
    push_str(&mut m, n.as_str());
    push_str(&mut m, " session(s) failed to parse");
    m
}

/// A run over sessions fails as a whole when none of them could be used
/// and at least one failed.
pub fn all_sessions_failed(ok: usize, failed: usize) -> (r: bool)
    ensures
        r == (ok == 0 && failed > 0),
{
    ok == 0 && failed > 0
}

} // verus!
