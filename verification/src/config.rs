//! The `[serve]` block of the config file and how `agentprof config show`
//! presents effective values with their source.

use vstd::prelude::*;
use crate::text::{decimal, push_str, u64_decimal};

verus! {

/// `[serve]` config-file block; every field optional.
#[derive(Debug, Clone, Default)]
pub struct PartialServeConfig {
    /// Bind address, e.g. `127.0.0.1:4329`.
    pub bind: Option<String>,
    /// Browser-side default poll interval in seconds.
    pub interval_default: Option<u8>,
    /// Whether to open the browser on start.
    pub auto_open: Option<bool>,
}

/// `(from file)` for a value the config file set, else `(default)`.
pub open spec fn marker_spec(from_file: bool) -> Seq<char> {
    if from_file {
        "(from file)"@
    } else {
        "(default)"@
    }
}

/// The source annotation of a shown value.
pub fn source_marker(from_file: bool) -> (r: &'static str)
    ensures
        r@ == marker_spec(from_file),
{
    proof {
        reveal_strlit("(from file)");
        reveal_strlit("(default)");
    }
    if from_file {
        "(from file)"
    } else {
        "(default)"
    }
}

/// One `key = value  (source)` line of `config show`.
pub open spec fn line_spec(key: Seq<char>, value: Seq<char>, from_file: bool) -> Seq<char> {
    key + " = "@ + value + "  "@ + marker_spec(from_file)
}

/// Formats one `key = value  (source)` line.
pub fn show_line(key: &str, value: &str, from_file: bool) -> (r: String)
    ensures
        r@ == line_spec(key@, value@, from_file),
{
    proof {
        reveal_strlit(" = ");
        reveal_strlit("  ");
    }
    let mut s = String::new();
    push_str(&mut s, key);
    push_str(&mut s, " = ");
    push_str(&mut s, value);
    push_str(&mut s, "  ");
    push_str(&mut s, source_marker(from_file));
    s
}

/// The `[serve]` defaults: bind `127.0.0.1:4329`, interval 5, open the
/// browser.
pub open spec fn serve_bind(p: PartialServeConfig) -> Seq<char> {
    match p.bind {
        Some(b) => b@,
        None => "127.0.0.1:4329"@,
    }
}

pub open spec fn serve_interval(p: PartialServeConfig) -> u8 {
    match p.interval_default {
        Some(i) => i,
        None => 5,
    }
}

pub open spec fn serve_auto_open(p: PartialServeConfig) -> bool {
    match p.auto_open {
        Some(b) => b,
        None => true,
    }
}

pub open spec fn bool_text(b: bool) -> Seq<char> {
    if b {
        "true"@
    } else {
        "false"@
    }
}

/// The lines `config show` prints for the `[serve]` block: a blank line,
/// the header, then `bind`, `interval_default` and `auto_open` with their
/// effective values (file value, else default) and sources.
pub open spec fn serve_lines_spec(p: PartialServeConfig) -> Seq<Seq<char>> {
    seq![
        Seq::empty(),
        "[serve]"@,
        line_spec("bind"@, "\""@ + serve_bind(p) + "\""@, p.bind is Some),
        line_spec("interval_default"@, decimal(serve_interval(p) as nat), p.interval_default is Some),
        line_spec("auto_open"@, bool_text(serve_auto_open(p)), p.auto_open is Some),
    ]
}

/// The `[serve]` block of `config show` (see [`serve_lines_spec`]).
pub fn serve_lines(partial: Option<PartialServeConfig>) -> (r: Vec<String>)
    ensures
        r@.map_values(|s: String| s@) == serve_lines_spec(match partial {
            Some(p) => p,
            None => PartialServeConfig { bind: None, interval_default: None, auto_open: None },
        }),
{
    proof {
        reveal_strlit("[serve]");
        reveal_strlit("bind");
        reveal_strlit("\"");
        reveal_strlit("127.0.0.1:4329");
        reveal_strlit("interval_default");
        reveal_strlit("auto_open");
        reveal_strlit("true");
        reveal_strlit("false");
    }
    let p = match partial {
        Some(p) => p,
        None => PartialServeConfig { bind: None, interval_default: None, auto_open: None },
    };
    let mut bind = String::new();
    push_str(&mut bind, "\"");
    match &p.bind {
        Some(b) => push_str(&mut bind, b.as_str()),
        None => push_str(&mut bind, "127.0.0.1:4329"),
    }
    push_str(&mut bind, "\"");
    let interval = match p.interval_default {
        Some(i) => i,
        None => 5,
    };
    let auto_open = match p.auto_open {
        Some(b) => b,
        None => true,
    };
    let mut out: Vec<String> = Vec::new();
    out.push(String::new());
    out.push("[serve]".to_owned());
    out.push(show_line("bind", bind.as_str(), p.bind.is_some()));
    let iv = u64_decimal(interval as u64);
    out.push(show_line("interval_default", iv.as_str(), p.interval_default.is_some()));
    out.push(show_line("auto_open", if auto_open { "true" } else { "false" }, p.auto_open.is_some()));
    assert(out@.map_values(|s: String| s@) =~= serve_lines_spec(p));
    out
}

/// The line `config path` prints: the path, its `[exists]` or
/// `[not found]` marker, and ` (from $AGENTPROF_CONFIG)` when the path
/// came from that variable.
pub fn config_path_line(path: &str, exists: bool, from_env: bool) -> (r: String)
    ensures
        r@ == path@ + " "@ + (if exists { "[exists]"@ } else { "[not found]"@ }) + (if from_env {
            " (from $AGENTPROF_CONFIG)"@
        } else {
            Seq::<char>::empty()
        }),
{
    proof {
        reveal_strlit(" ");
        reveal_strlit("[exists]");
        reveal_strlit("[not found]");
        reveal_strlit(" (from $AGENTPROF_CONFIG)");
        reveal_strlit("");
    }
    let mut s = String::new();
    push_str(&mut s, path);
    push_str(&mut s, " ");
    push_str(&mut s, if exists { "[exists]" } else { "[not found]" });
    push_str(&mut s, if from_env { " (from $AGENTPROF_CONFIG)" } else { "" });
    s
}

/// The error when no config directory can be determined.
pub fn config_dir_err() -> (r: &'static str)
    ensures
        r@ == "cannot determine config directory: $AGENTPROF_CONFIG is unset and no platform config directory is available"@,
{
    proof {
        reveal_strlit("cannot determine config directory: $AGENTPROF_CONFIG is unset and no platform config directory is available");
    }
    "cannot determine config directory: $AGENTPROF_CONFIG is unset and no platform config directory is available"
}

/// An optional path as `config show` prints it: quoted, or `(unset)`.
pub fn opt_path(p: Option<&str>) -> (r: String)
    ensures
        r@ == match p {
            Some(v) => "\""@ + v@ + "\""@,
            None => "(unset)"@,
        },
{
    proof {
        reveal_strlit("\"");
        reveal_strlit("(unset)");
    }
    match p {
        Some(v) => {
            let mut s = String::new();
            push_str(&mut s, "\"");
            push_str(&mut s, v);
            push_str(&mut s, "\"");
            s
        },
        None => "(unset)".to_owned(),
    }
}

/// An optional listener address as `config show` prints it: quoted, or
/// `"" (disabled)` for a listener the file turned off.
pub fn opt_addr(a: Option<&str>) -> (r: String)
    ensures
        r@ == match a {
            Some(v) => "\""@ + v@ + "\""@,
            None => "\"\" (disabled)"@,
        },
{
    proof {
        reveal_strlit("\"");
        reveal_strlit("\"\" (disabled)");
    }
    match a {
        Some(v) => {
            let mut s = String::new();
            push_str(&mut s, "\"");
            push_str(&mut s, v);
            push_str(&mut s, "\"");
            s
        },
        None => "\"\" (disabled)".to_owned(),
    }
}

/// `config init` refuses to overwrite an existing file unless forced.
pub fn init_refusal(path: &str, exists: bool, force: bool) -> (r: Option<String>)
    ensures
        r is Some <==> (exists && !force),
        r matches Some(m) ==> m@ == "config file already exists at "@ + path@ + "; pass --force to overwrite"@,
{
    proof {
        reveal_strlit("config file already exists at ");
        reveal_strlit("; pass --force to overwrite");
    }
    if exists && !force {
        let mut m = String::new();
        push_str(&mut m, "config file already exists at ");
        push_str(&mut m, path);
        push_str(&mut m, "; pass --force to overwrite");
        Some(m)
    } else {
        None
    }
}

/// The editor `config edit` launches: `$VISUAL`, else `$EDITOR`, an empty
/// value counting as unset; with neither, the user error
/// `no editor configured: set $VISUAL or $EDITOR`.
pub fn choose_editor(visual: Option<String>, editor: Option<String>) -> (r: Result<String, String>)
    ensures
        match visual {
            Some(v) if v@.len() > 0 => r == Ok::<String, String>(v),
            _ => match editor {
                Some(e) if e@.len() > 0 => r == Ok::<String, String>(e),
                _ => r is Err && r->Err_0@ == "no editor configured: set $VISUAL or $EDITOR"@,
            },
        },
{
    proof {
        reveal_strlit("no editor configured: set $VISUAL or $EDITOR");
    }
    if let Some(v) = visual {
        if crate::text::chars_of(v.as_str()).len() > 0 {
            return Ok(v);
        }
    }
    if let Some(e) = editor {
        if crate::text::chars_of(e.as_str()).len() > 0 {
            return Ok(e);
        }
    }
    Err("no editor configured: set $VISUAL or $EDITOR".to_owned())
}

} // verus!
