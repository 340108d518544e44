//! Choosing the session to analyze: the `--session` selector grammar
//! (`latest`, `previous`, a UUID, or a path), how a selector picks one of
//! the discovered sessions, and the report's output formats and sections.

use vstd::prelude::*;
use crate::pathname::{path_join, spec_path_join};
use crate::refs::AdapterRef;
use crate::text::{chars_of, push_str};

verus! {

/// How the session to analyze is chosen.
#[derive(Debug, Clone)]
pub enum SessionSelector {
    /// The most recently modified session.
    Latest,
    /// The second most recently modified session.
    Previous,
    /// The session with this UUID.
    Uuid(String),
    /// An explicit `events.jsonl` file or its session directory.
    Path(String),
}

pub open spec fn is_hex(c: char) -> bool {
    ('0' <= c <= '9') || ('a' <= c <= 'f') || ('A' <= c <= 'F')
}

pub open spec fn dash_position(i: int) -> bool {
    i == 8 || i == 13 || i == 18 || i == 23
}

/// The canonical UUID shape: 36 characters, `-` at positions 8, 13, 18
/// and 23, ASCII hex digits (either case) everywhere else.
pub open spec fn uuid_shaped(s: Seq<char>) -> bool {
    &&& s.len() == 36
    &&& forall|i: int|
        0 <= i < 36 ==> if dash_position(i) {
            #[trigger] s[i] == '-'
        } else {
            is_hex(s[i])
        }
}

/// `true` when `s` has the canonical UUID shape (see [`uuid_shaped`]).
pub fn looks_like_uuid(s: &str) -> (r: bool)
    ensures
        r == uuid_shaped(s@),
{
    let cs = chars_of(s);
    if cs.len() != 36 {
        return false;
    }
    let mut i: usize = 0;
    while i < 36
        invariant
            cs@ == s@,
            cs@.len() == 36,
            i <= 36,
            forall|k: int|
                0 <= k < i ==> if dash_position(k) {
                    #[trigger] cs@[k] == '-'
                } else {
                    is_hex(cs@[k])
                },
        decreases 36 - i,
    {
        let c = cs[i];
        let ok = if i == 8 || i == 13 || i == 18 || i == 23 {
            c == '-'
        } else {
            ('0' <= c && c <= '9') || ('a' <= c && c <= 'f') || ('A' <= c && c <= 'F')
        };
        if !ok {
            return false;
        }
        i += 1;
    }
    true
}

/// What `format!("{:?}", s)` gives for the string `s`: `s` quoted, with
/// the characters that `str::escape_debug` escapes escaped.
pub uninterp spec fn spec_debug_str(s: Seq<char>) -> Seq<char>;

/// `<str as Debug>::fmt`: the quoted, escaped form of `s`, named by
/// [`spec_debug_str`].
#[verifier::external_body]
fn debug_str(s: &str) -> (r: String)
    ensures
        r@ == spec_debug_str(s@),
{
    format!("{s:?}")
}

/// The selector a `--session` value denotes, as (variant, text), or the
/// error message for one that denotes none. Variants: 0 `Latest`,
/// 1 `Previous`, 2 `Uuid`, 3 `Path`; the text is the value itself for the
/// last two. `latest` and `previous` come first, then anything containing
/// `/` or `\` (a path), then a UUID-shaped value.
pub open spec fn selector_spec(s: Seq<char>) -> Result<(int, Seq<char>), Seq<char>> {
    if s == "latest"@ {
        Ok((0, Seq::empty()))
    } else if s == "previous"@ {
        Ok((1, Seq::empty()))
    } else if s.contains('/') || s.contains('\\') {
        Ok((3, s))
    } else if uuid_shaped(s) {
        Ok((2, s))
    } else {
        Err(
            "unrecognized session selector: "@ + spec_debug_str(s)
                + " (use 'latest', 'previous', a UUID like '00000000-0000-0000-0000-000000000001', or a filesystem path)"@,
        )
    }
}

/// The selector as (variant, text); see [`selector_spec`].
pub open spec fn selector_model(sel: SessionSelector) -> (int, Seq<char>) {
    match sel {
        SessionSelector::Latest => (0, Seq::empty()),
        SessionSelector::Previous => (1, Seq::empty()),
        SessionSelector::Uuid(u) => (2, u@),
        SessionSelector::Path(p) => (3, p@),
    }
}

fn contains_char(cs: &Vec<char>, c: char) -> (r: bool)
    ensures
        r == cs@.contains(c),
{
    let mut i: usize = 0;
    while i < cs.len()
        invariant
            i <= cs@.len(),
            forall|k: int| 0 <= k < i ==> cs@[k] != c,
        decreases cs@.len() - i,
    {
        if cs[i] == c {
            assert(cs@[i as int] == c);
            return true;
        }
        i += 1;
    }
    false
}

fn is_word(cs: &Vec<char>, w: &str) -> (r: bool)
    ensures
        r == (cs@ == w@),
{
    let ws = chars_of(w);
    crate::order::chars_eq(cs.as_slice(), ws.as_slice())
}

impl SessionSelector {
    /// Parses a `--session` value: `latest`, `previous`, a path (any value
    /// containing `/` or `\`), or a UUID; anything else is an error naming
    /// the accepted forms.
    pub fn parse(s: &str) -> (r: Result<SessionSelector, String>)
        ensures
            match r {
                Ok(sel) => selector_spec(s@) == Ok::<(int, Seq<char>), Seq<char>>(selector_model(sel)),
                Err(e) => selector_spec(s@) == Err::<(int, Seq<char>), Seq<char>>(e@),
            },
    {
        proof {
            reveal_strlit("latest");
            reveal_strlit("previous");
            reveal_strlit("unrecognized session selector: ");
            reveal_strlit(
                " (use 'latest', 'previous', a UUID like '00000000-0000-0000-0000-000000000001', or a filesystem path)",
            );
        }
        let cs = chars_of(s);
        if is_word(&cs, "latest") {
            return Ok(SessionSelector::Latest);
        }
        if is_word(&cs, "previous") {
            return Ok(SessionSelector::Previous);
        }
        if contains_char(&cs, '/') || contains_char(&cs, '\\') {
            return Ok(SessionSelector::Path(s.to_owned()));
        }
        if looks_like_uuid(s) {
            return Ok(SessionSelector::Uuid(s.to_owned()));
        }
        let mut msg = String::new();
        push_str(&mut msg, "unrecognized session selector: ");
        let quoted = debug_str(s);
        push_str(&mut msg, quoted.as_str());
        push_str(
            &mut msg,
            " (use 'latest', 'previous', a UUID like '00000000-0000-0000-0000-000000000001', or a filesystem path)",
        );
        Err(msg)
    }
}

impl std::str::FromStr for SessionSelector {
    type Err = String;

    fn from_str(s: &str) -> (r: Result<SessionSelector, String>)
        ensures
            match r {
                Ok(sel) => selector_spec(s@) == Ok::<(int, Seq<char>), Seq<char>>(selector_model(sel)),
                Err(e) => selector_spec(s@) == Err::<(int, Seq<char>), Seq<char>>(e@),
            },
    {
        SessionSelector::parse(s)
    }
}

/// `sessions[i]` is the session `sel` picks from `sessions` (newest first):
/// `Latest` the first, `Previous` the second, `Uuid` the first with that
/// id. A `Path` selector never reaches discovery and picks none.
pub open spec fn picks(sessions: Seq<AdapterRef>, sel: SessionSelector, i: int) -> bool {
    match sel {
        SessionSelector::Latest => i == 0 && sessions.len() >= 1,
        SessionSelector::Previous => i == 1 && sessions.len() >= 2,
        SessionSelector::Uuid(u) => 0 <= i < sessions.len() && sessions[i].id@ == u@ && forall|j: int|
            0 <= j < i ==> (#[trigger] sessions[j]).id@ != u@,
        SessionSelector::Path(_) => false,
    }
}

/// `sel` picks no session from `sessions`.
pub open spec fn picks_none(sessions: Seq<AdapterRef>, sel: SessionSelector) -> bool {
    match sel {
        SessionSelector::Latest => sessions.len() == 0,
        SessionSelector::Previous => sessions.len() < 2,
        SessionSelector::Uuid(u) => forall|j: int| 0 <= j < sessions.len() ==> (#[trigger] sessions[j]).id@ != u@,
        SessionSelector::Path(_) => true,
    }
}

/// The ids of the first `n` sessions joined with `", "`.
pub open spec fn joined_ids(sessions: Seq<AdapterRef>, n: int) -> Seq<char>
    decreases n,
{
    if n <= 0 || sessions.len() == 0 {
        Seq::empty()
    } else if n == 1 {
        sessions[0].id@
    } else {
        joined_ids(sessions, n - 1) + ", "@ + sessions[n - 1].id@
    }
}

/// The message when a selector picks nothing from the sessions under `root`.
pub open spec fn pick_error(sessions: Seq<AdapterRef>, sel: SessionSelector, root: Seq<char>) -> Seq<char> {
    match sel {
        SessionSelector::Latest => "no sessions found under "@ + root,
        SessionSelector::Previous => if sessions.len() == 0 {
            "no sessions found under "@ + root
        } else {
            "no previous session: only 1 session present"@
        },
        SessionSelector::Uuid(u) => "session UUID "@ + u@ + " not found under "@ + root
            + "; first 5 available: "@ + joined_ids(
            sessions,
            if sessions.len() < 5 { sessions.len() as int } else { 5 },
        ),
        SessionSelector::Path(_) => "internal: Path selector reached discovery path"@,
    }
}

/// Picks the session a `latest` / `previous` / UUID selector designates
/// among the discovered `sessions` (newest first); on failure the message
/// names `root` and, for an unknown UUID, the first five available ids.
pub fn select_session(sessions: Vec<AdapterRef>, sel: &SessionSelector, root: &str) -> (r: Result<
    AdapterRef,
    String,
>)
    ensures
        match r {
            Ok(s) => exists|i: int| picks(sessions@, *sel, i) && s == sessions@[i],
            Err(e) => picks_none(sessions@, *sel) && e@ == pick_error(sessions@, *sel, root@),
        },
{
    proof {
        reveal_strlit("no sessions found under ");
        reveal_strlit("no previous session: only 1 session present");
        reveal_strlit("session UUID ");
        reveal_strlit(" not found under ");
        reveal_strlit("; first 5 available: ");
        reveal_strlit(", ");
        reveal_strlit("internal: Path selector reached discovery path");
    }
    let ghost all = sessions@;
    let mut sessions = sessions;
    match sel {
        SessionSelector::Latest => {
            if sessions.len() >= 1 {
                let s = sessions.swap_remove(0);
                assert(picks(all, *sel, 0));
                Ok(s)
            } else {
                let mut msg = String::new();
                push_str(&mut msg, "no sessions found under ");
                push_str(&mut msg, root);
                Err(msg)
            }
        },
        SessionSelector::Previous => {
            if sessions.len() >= 2 {
                let s = sessions.swap_remove(1);
                assert(picks(all, *sel, 1));
                Ok(s)
            } else if sessions.len() == 0 {
                let mut msg = String::new();
                push_str(&mut msg, "no sessions found under ");
                push_str(&mut msg, root);
                Err(msg)
            } else {
                Err("no previous session: only 1 session present".to_owned())
            }
        },
        SessionSelector::Uuid(u) => {
            if let Some(i) = first_with_id(&sessions, u) {
                let s = sessions.swap_remove(i);
                assert(picks(all, *sel, i as int));
                return Ok(s);
            }
            let mut msg = String::new();
            push_str(&mut msg, "session UUID ");
            push_str(&mut msg, u.as_str());
            push_str(&mut msg, " not found under ");
            push_str(&mut msg, root);
            push_str(&mut msg, "; first 5 available: ");
            let n = if sessions.len() < 5 { sessions.len() } else { 5 };
            let mut k: usize = 0;
            let ghost base = msg@;
            while k < n
                invariant
                    sessions@ == all,
                    *sel == SessionSelector::Uuid(*u),
                    n <= all.len(),
                    n <= 5,
                    k <= n,
                    msg@ == base + joined_ids(all, k as int),
                decreases n - k,
            {
                if k > 0 {
                    push_str(&mut msg, ", ");
                }
                push_str(&mut msg, sessions[k].id.as_str());
                k += 1;
            }
            Err(msg)
        },
        SessionSelector::Path(_) => Err(
            "internal: Path selector reached discovery path".to_owned(),
        ),
    }
}

pub(crate) fn first_with_id(sessions: &Vec<AdapterRef>, id: &String) -> (r: Option<usize>)
    ensures
        match r {
            Some(i) => i < sessions@.len() && sessions@[i as int].id@ == id@ && forall|j: int|
                0 <= j < i ==> (#[trigger] sessions@[j]).id@ != id@,
            None => forall|j: int| 0 <= j < sessions@.len() ==> (#[trigger] sessions@[j]).id@ != id@,
        },
{
    let mut i: usize = 0;
    while i < sessions.len()
        invariant
            i <= sessions@.len(),
            forall|j: int| 0 <= j < i ==> (#[trigger] sessions@[j]).id@ != id@,
        decreases sessions@.len() - i,
    {
        if sessions[i].id == *id {
            return Some(i);
        }
        i += 1;
    }
    None
}

/// The file a `--session <PATH>` value names: the path itself when it is
/// a file; `<path>/events.jsonl` when it is a directory; for a path that
/// does not exist, the path itself when its extension is `jsonl`, else
/// `<path>/events.jsonl`.
pub open spec fn events_path_spec(p: Seq<char>, is_file: bool, is_dir: bool) -> Seq<char> {
    if is_file {
        p
    } else if is_dir {
        spec_path_join(p, "events.jsonl"@)
    } else if crate::pathname::spec_path_extension(p) == Some("jsonl"@) {
        p
    } else {
        spec_path_join(p, "events.jsonl"@)
    }
}

/// Resolves a `--session <PATH>` value to the `events.jsonl` it names,
/// given whether the path is an existing file or directory.
pub fn resolve_events_path(p: &str, is_file: bool, is_dir: bool) -> (r: String)
    ensures
        r@ == events_path_spec(p@, is_file, is_dir),
{
    proof {
        reveal_strlit("events.jsonl");
        reveal_strlit("jsonl");
    }
    if is_file {
        p.to_owned()
    } else if is_dir {
        path_join(p, "events.jsonl")
    } else {
        let ext = crate::pathname::path_extension(p);
        let is_jsonl = match ext {
            Some(e) => is_word(&chars_of(e.as_str()), "jsonl"),
            None => false,
        };
        if is_jsonl {
            p.to_owned()
        } else {
            path_join(p, "events.jsonl")
        }
    }
}

/// Output serialization format of `analyze`.
#[derive(Debug, Clone, Copy, PartialEq, Eq, Structural)]
pub enum ExportFormat {
    /// Markdown with tables.
    Md,
    /// JSON in the report's shape.
    Json,
    /// Interactive terminal UI.
    Tui,
    /// Speedscope evented profile.
    Speedscope,
    /// Self-contained static HTML.
    Html,
}

/// Report sections that can be enabled or disabled.
#[derive(Debug, Clone, Copy, PartialEq, Eq, Structural)]
pub enum AnalysisSection {
    /// Per-turn summary table.
    TurnSummary,
    /// Per-tool ranking table.
    ToolRank,
    /// Per-hook ranking table.
    HookRank,
    /// MCP server waste; opt-in only.
    McpWaste,
}

impl AnalysisSection {
    /// The default sections: turn summary, tool rank and hook rank.
    /// `McpWaste` is opt-in and not among them.
    pub fn all_vec() -> (r: Vec<AnalysisSection>)
        ensures
            r@ == seq![AnalysisSection::TurnSummary, AnalysisSection::ToolRank, AnalysisSection::HookRank],
    {
        let v = vec![AnalysisSection::TurnSummary, AnalysisSection::ToolRank, AnalysisSection::HookRank];
        assert(v@ == seq![AnalysisSection::TurnSummary, AnalysisSection::ToolRank, AnalysisSection::HookRank]);
        v
    }
}

/// How much personal data a rendered report keeps.
#[derive(Debug, Clone, Copy, PartialEq, Eq, Structural)]
pub enum PrivacyLevel {
    /// Everything as recorded (`--privacy none`).
    Unchanged,
    /// High-risk fields removed.
    Redact,
    /// High-risk fields replaced by markers, with a reverse map written
    /// beside the report.
    Anonymize,
}

/// `sections` is exactly the default section list.
pub open spec fn default_sections(sections: Seq<AnalysisSection>) -> bool {
    sections == seq![AnalysisSection::TurnSummary, AnalysisSection::ToolRank, AnalysisSection::HookRank]
}

fn is_default_sections(sections: &Vec<AnalysisSection>) -> (r: bool)
    ensures
        r == default_sections(sections@),
{
    let d = AnalysisSection::all_vec();
    if sections.len() != 3 {
        return false;
    }
    let r = sections[0] == d[0] && sections[1] == d[1] && sections[2] == d[2];
    assert(r ==> sections@ =~= d@);
    r
}

/// MCP waste is computed when asked for with `--section mcp-waste`, or for
/// the terminal UI, whose waste view needs it.
pub fn needs_waste(sections: &Vec<AnalysisSection>, export: ExportFormat) -> (r: bool)
    ensures
        r == (sections@.contains(AnalysisSection::McpWaste) || export == ExportFormat::Tui),
{
    let mut i: usize = 0;
    while i < sections.len()
        invariant
            i <= sections@.len(),
            forall|k: int| 0 <= k < i ==> sections@[k] != AnalysisSection::McpWaste,
        decreases sections@.len() - i,
    {
        if sections[i] == AnalysisSection::McpWaste {
            assert(sections@[i as int] == AnalysisSection::McpWaste);
            return true;
        }
        i += 1;
    }
    export == ExportFormat::Tui
}

/// The flags an `analyze` invocation passes that its export ignores, in
/// the order they are reported: with the terminal UI `--output`, a
/// non-default `--section` and a privacy level other than none; with
/// Speedscope a non-default `--section`.
pub open spec fn ignored_flags_spec(
    export: ExportFormat,
    sections: Seq<AnalysisSection>,
    has_output: bool,
    privacy: PrivacyLevel,
) -> Seq<Seq<char>> {
    if export == ExportFormat::Tui {
        (if has_output { seq!["--output"@] } else { Seq::empty() }) + (if !default_sections(sections) {
            seq!["--section"@]
        } else {
            Seq::empty()
        }) + (if privacy != PrivacyLevel::Unchanged { seq!["--privacy"@] } else { Seq::empty() })
    } else if export == ExportFormat::Speedscope && !default_sections(sections) {
        seq!["--section"@]
    } else {
        Seq::empty()
    }
}

/// The flags of an `analyze` invocation that its export ignores (see
/// [`ignored_flags_spec`]).
pub fn ignored_flags(
    export: ExportFormat,
    sections: &Vec<AnalysisSection>,
    has_output: bool,
    privacy: PrivacyLevel,
) -> (r: Vec<&'static str>)
    ensures
        crate::refs::name_views(r@) == ignored_flags_spec(export, sections@, has_output, privacy),
{
    proof {
        reveal_strlit("--output");
        reveal_strlit("--section");
        reveal_strlit("--privacy");
    }
    let mut out: Vec<&'static str> = Vec::new();
    let default = is_default_sections(sections);
    if export == ExportFormat::Tui {
        if has_output {
            out.push("--output");
        }
        if !default {
            out.push("--section");
        }
        if privacy != PrivacyLevel::Unchanged {
            out.push("--privacy");
        }
    } else if export == ExportFormat::Speedscope && !default {
        out.push("--section");
    }
    assert(crate::refs::name_views(out@) =~= ignored_flags_spec(export, sections@, has_output, privacy));
    out
}

/// An HTML report written to stdout gets a warning suggesting `--output`.
pub fn html_to_stdout(export: ExportFormat, has_output: bool) -> (r: bool)
    ensures
        r == (export == ExportFormat::Html && !has_output),
{
    export == ExportFormat::Html && !has_output
}

/// Flamegraph frames are not redacted: an HTML or Speedscope export under a
/// privacy level other than none gets a warning.
pub fn flamegraph_unredacted(export: ExportFormat, privacy: PrivacyLevel) -> (r: bool)
    ensures
        r == (privacy != PrivacyLevel::Unchanged && (export == ExportFormat::Html || export
            == ExportFormat::Speedscope)),
{
    privacy != PrivacyLevel::Unchanged && (export == ExportFormat::Html || export == ExportFormat::Speedscope)
}

} // verus!
