//! The `agentprof db` command family: its arguments, which sessions an
//! ingest targets, when an ingest run counts as failed, and the text the
//! `prune` and `stats` actions print.

use vstd::prelude::*;
use chrono::TimeZone;
use crate::event::UtcTimestamp;
use crate::pathname::opt_seq;
use crate::refs::{AdapterRef, since_keeps};
use crate::since::{parse_since_window, since_spec};
use crate::text::{decimal, lemma_split_nonempty, push_str, split_spec, u64_decimal};

verus! {

/// Output format of `db stats`.
#[derive(Debug, Clone, Copy, PartialEq, Eq, Structural)]
pub enum StatsFormat {
    /// Two-column human-readable table.
    Table,
    /// One-line JSON object.
    Json,
}

/// Arguments of `db stats`.
#[derive(Debug, Clone)]
pub struct StatsArgs {
    pub export: StatsFormat,
}

/// Output format of `db export`.
#[derive(Debug, Clone, Copy, PartialEq, Eq, Structural)]
pub enum ExportFormat {
    /// One pretty-printed JSON object.
    Json,
    /// One `{"<key>": <value>}` line per top-level field.
    Jsonl,
}

/// Arguments of `db export`.
#[derive(Debug, Clone)]
pub struct ExportArgs {
    /// Session id to dump.
    pub session_id: String,
    /// Output format.
    pub format: ExportFormat,
    /// Output file; stdout when absent.
    pub output: Option<String>,
}

/// Arguments of `db ingest`: exactly one of `since`, `all`, `session`
/// selects the sessions.
#[derive(Debug, Clone)]
pub struct IngestArgs {
    /// Agent name; only `copilot` is wired.
    pub agent: String,
    /// Session root override.
    pub root: Option<String>,
    /// Ingest sessions modified within this window.
    pub since: Option<String>,
    /// Ingest every session found.
    pub all: bool,
    /// Ingest exactly this session.
    pub session: Option<String>,
}

/// Arguments of `db prune`.
#[derive(Debug, Clone)]
pub struct PruneArgs {
    /// Retention window; older sessions are pruned.
    pub before: String,
    /// Report the count without deleting.
    pub dry_run: bool,
}

/// One of the `db` actions.
#[derive(Debug, Clone)]
pub enum DbAction {
    Init,
    Stats(StatsArgs),
    Ingest(IngestArgs),
    Prune(PruneArgs),
    Vacuum,
    Export(ExportArgs),
}

/// Arguments of `db`.
#[derive(Debug, Clone)]
pub struct DbArgs {
    pub action: DbAction,
}

/// Which sessions an ingest run targets.
#[derive(Debug, Clone)]
pub enum IngestScope {
    /// The session with this id.
    One(String),
    /// The sessions modified within a window of (seconds, nanoseconds).
    Window(u64, u32),
}

/// The scope `args` select, or the message of the user error:
/// the agent must be `copilot`; then `--session` wins, then `--all`
/// (the largest window), then `--since` (its window, or `invalid --since:`
/// and the reason).
pub open spec fn ingest_scope_spec(args: IngestArgs) -> Result<(Option<Seq<char>>, (u64, u32)), Seq<char>> {
    if args.agent@ != "copilot"@ {
        Err("unsupported --agent: "@ + args.agent@ + " (only `copilot` is wired today)"@)
    } else {
        match args.session {
            Some(id) => Ok((Some(id@), (0u64, 0u32))),
            None => if args.all {
                Ok((None, (u64::MAX, 999_999_999u32)))
            } else {
                match args.since {
                    Some(s) => match since_spec(s@) {
                        Ok(w) => Ok((None, w)),
                        Err(m) => Err("invalid --since: "@ + m),
                    },
                    None => Err("must specify --since, --all, or --session"@),
                }
            },
        }
    }
}

/// The sessions an ingest run targets (see [`ingest_scope_spec`]).
pub fn ingest_scope(args: &IngestArgs) -> (r: Result<IngestScope, String>)
    ensures
        match r {
            Ok(IngestScope::One(id)) => ingest_scope_spec(*args) == Ok::<(Option<Seq<char>>, (u64, u32)), Seq<char>>((Some(id@), (0u64, 0u32))),
            Ok(IngestScope::Window(s, n)) => ingest_scope_spec(*args) == Ok::<(Option<Seq<char>>, (u64, u32)), Seq<char>>((None, (s, n))),
            Err(e) => ingest_scope_spec(*args) == Err::<(Option<Seq<char>>, (u64, u32)), Seq<char>>(e@),
        },
{
    proof {
        reveal_strlit("copilot");
        reveal_strlit("unsupported --agent: ");
        reveal_strlit(" (only `copilot` is wired today)");
        reveal_strlit("invalid --since: ");
        reveal_strlit("must specify --since, --all, or --session");
    }
    let agent = crate::text::chars_of(args.agent.as_str());
    let want = crate::text::chars_of("copilot");
    if !crate::order::chars_eq(agent.as_slice(), want.as_slice()) {
        let mut m = String::new();
        push_str(&mut m, "unsupported --agent: ");
        push_str(&mut m, args.agent.as_str());
        push_str(&mut m, " (only `copilot` is wired today)");
        return Err(m);
    }
    if let Some(id) = &args.session {
        return Ok(IngestScope::One(id.clone()));
    }
    if args.all {
        return Ok(IngestScope::Window(u64::MAX, 999_999_999));
    }
    match &args.since {
        Some(s) => match parse_since_window(s.as_str()) {
            Ok((secs, nanos)) => Ok(IngestScope::Window(secs, nanos)),
            Err(e) => {
                let mut m = String::new();
                push_str(&mut m, "invalid --since: ");
                push_str(&mut m, e.as_str());
                Err(m)
            },
        },
        None => Err("must specify --since, --all, or --session".to_owned()),
    }
}

/// The discovered session an `--session <id>` ingest targets: the first
/// with that id, or the message `session id not found: <id>`.
pub fn ingest_target(refs: Vec<AdapterRef>, id: &str) -> (r: Result<AdapterRef, String>)
    ensures
        match r {
            Ok(s) => exists|i: int|
                0 <= i < refs@.len() && s == refs@[i] && refs@[i].id@ == id@ && forall|j: int|
                    0 <= j < i ==> (#[trigger] refs@[j]).id@ != id@,
            Err(e) => (forall|j: int| 0 <= j < refs@.len() ==> (#[trigger] refs@[j]).id@ != id@)
                && e@ == "session id not found: "@ + id@,
        },
{
    proof {
        reveal_strlit("session id not found: ");
    }
    let ghost all = refs@;
    let mut refs = refs;
    let key = id.to_owned();
    if let Some(i) = crate::selector::first_with_id(&refs, &key) {
        let s = refs.swap_remove(i);
        assert(s == all[i as int]);
        Ok(s)
    } else {
        let mut m = String::new();
        push_str(&mut m, "session id not found: ");
        push_str(&mut m, id);
        Err(m)
    }
}

/// An ingest run failed as a whole: there were targets and none of them
/// was stored.
pub fn ingest_failed(total: usize, ok: usize) -> (r: bool)
    ensures
        r == (total > 0 && ok == 0),
{
    total > 0 && ok == 0
}

/// Progress is reported after every tenth session and after the last one.
pub fn ingest_progress_due(done: usize, total: usize) -> (r: bool)
    ensures
        r == (done % 10 == 0 || done == total),
{
    done % 10 == 0 || done == total
}

/// The message of a failed ingest run.
pub fn ingest_failure_message(total: usize) -> (r: String)
    ensures
        r@ == "all "@ + decimal(total as nat) + " session(s) failed to ingest; check stderr for per-session errors"@,
{
    proof {
        reveal_strlit("all ");
        reveal_strlit(" session(s) failed to ingest; check stderr for per-session errors");
    }
    let mut m = String::new();
    push_str(&mut m, "all ");
    let n = u64_decimal(total as u64);
    push_str(&mut m, n.as_str());
    push_str(&mut m, " session(s) failed to ingest; check stderr for per-session errors");
    m
}

/// What `db prune` prints: `would prune` for a dry run, `pruned`
/// otherwise, with the count and the window.
pub fn prune_report(count: u64, before: &str, dry_run: bool) -> (r: String)
    ensures
        r@ == (if dry_run { "agentprof: would prune "@ } else { "agentprof: pruned "@ }) + decimal(
            count as nat,
        ) + " session(s) older than "@ + before@,
{
    proof {
        reveal_strlit("agentprof: would prune ");
        reveal_strlit("agentprof: pruned ");
        reveal_strlit(" session(s) older than ");
    }
    let mut m = String::new();
    push_str(&mut m, if dry_run { "agentprof: would prune " } else { "agentprof: pruned " });
    let n = u64_decimal(count);
    push_str(&mut m, n.as_str());
    push_str(&mut m, " session(s) older than ");
    push_str(&mut m, before);
    m
}

/// What `chrono` prints for the instant `ms` milliseconds after the Unix
/// epoch in UTC with the format `fmt`, or `None` when `ms` is outside
/// chrono's range.
pub uninterp spec fn spec_format_utc_ms(ms: i64, fmt: Seq<char>) -> Option<Seq<char>>;

/// `Utc.timestamp_millis_opt(ms).single()` formatted with `fmt`
/// (`DateTime::format`), or `None` when chrono cannot represent the
/// instant. Named by [`spec_format_utc_ms`]. Rendering a format with an
/// invalid specifier fails and `to_string` then panics, so `fmt` is held
/// to the two valid formats the library uses.
#[verifier::external_body]
pub(crate) fn format_utc_ms(ms: i64, fmt: &str) -> (r: Option<String>)
    requires
        fmt@ == "%Y-%m-%dT%H:%M:%SZ"@ || fmt@ == "%Y-%m-%d %H:%M UTC"@,
    ensures
        opt_seq(r) == spec_format_utc_ms(ms, fmt@),
{
    chrono::Utc.timestamp_millis_opt(ms).single().map(|t| t.format(fmt).to_string())
}

/// An instant in ms as `YYYY-MM-DDTHH:MM:SSZ` (UTC), when representable.
pub fn fmt_ms(ms: i64) -> (r: Option<String>)
    ensures
        opt_seq(r) == spec_format_utc_ms(ms, "%Y-%m-%dT%H:%M:%SZ"@),
{
    proof {
        reveal_strlit("%Y-%m-%dT%H:%M:%SZ");
    }
    format_utc_ms(ms, "%Y-%m-%dT%H:%M:%SZ")
}

/// Counters shown by `db stats`.
#[derive(Debug, Clone, Copy)]
pub struct StoreCounts {
    pub size_bytes: u64,
    pub session_count: u64,
    pub tools_loaded_count: u64,
    pub turn_buckets_count: u64,
    pub oldest_started_ms: Option<i64>,
    pub newest_started_ms: Option<i64>,
}

/// A shown timestamp: its formatted form, or `-` when absent or
/// unrepresentable.
pub open spec fn shown_ms(ms: Option<i64>) -> Seq<char> {
    match ms {
        Some(v) => match spec_format_utc_ms(v, "%Y-%m-%dT%H:%M:%SZ"@) {
            Some(t) => t,
            None => "-"@,
        },
        None => "-"@,
    }
}

/// The lines of the `db stats` table.
pub open spec fn stats_table_spec(path: Seq<char>, mode: Seq<char>, c: StoreCounts) -> Seq<Seq<char>> {
    seq![
        "path:                "@ + path,
        "mode:                "@ + mode,
        "size_bytes:          "@ + decimal(c.size_bytes as nat),
        "sessions:            "@ + decimal(c.session_count as nat),
        "tools_loaded:        "@ + decimal(c.tools_loaded_count as nat),
        "turn_buckets:        "@ + decimal(c.turn_buckets_count as nat),
        "oldest_started:      "@ + shown_ms(c.oldest_started_ms),
        "newest_started:      "@ + shown_ms(c.newest_started_ms),
    ]
}

fn shown(ms: Option<i64>) -> (r: String)
    ensures
        r@ == shown_ms(ms),
{
    proof {
        reveal_strlit("-");
    }
    match ms {
        Some(v) => match fmt_ms(v) {
            Some(t) => t,
            None => "-".to_owned(),
        },
        None => "-".to_owned(),
    }
}

fn labelled(label: &str, value: &str) -> (r: String)
    ensures
        r@ == label@ + value@,
{
    let mut s = String::new();
    push_str(&mut s, label);
    push_str(&mut s, value);
    s
}

/// The two-column table `db stats` prints for the store at `path` in
/// `mode` (see [`stats_table_spec`]).
pub fn stats_table(path: &str, mode: &str, c: &StoreCounts) -> (r: Vec<String>)
    ensures
        r@.map_values(|s: String| s@) == stats_table_spec(path@, mode@, *c),
{
    proof {
        reveal_strlit("path:                ");
        reveal_strlit("mode:                ");
        reveal_strlit("size_bytes:          ");
        reveal_strlit("sessions:            ");
        reveal_strlit("tools_loaded:        ");
        reveal_strlit("turn_buckets:        ");
        reveal_strlit("oldest_started:      ");
        reveal_strlit("newest_started:      ");
    }
    let mut out: Vec<String> = Vec::new();
    out.push(labelled("path:                ", path));
    out.push(labelled("mode:                ", mode));
    out.push(labelled("size_bytes:          ", u64_decimal(c.size_bytes).as_str()));
    out.push(labelled("sessions:            ", u64_decimal(c.session_count).as_str()));
    out.push(labelled("tools_loaded:        ", u64_decimal(c.tools_loaded_count).as_str()));
    out.push(labelled("turn_buckets:        ", u64_decimal(c.turn_buckets_count).as_str()));
    out.push(labelled("oldest_started:      ", shown(c.oldest_started_ms).as_str()));
    out.push(labelled("newest_started:      ", shown(c.newest_started_ms).as_str()));
    assert(out@.map_values(|s: String| s@) =~= stats_table_spec(path@, mode@, *c));
    out
}

/// A report as `db export --format jsonl` receives it from the JSON
/// serializer: for an object, the JSON text of each key and of its value,
/// in the object's order; for any other value, the JSON text of the value.
#[derive(Debug, Clone)]
pub enum JsonTexts {
    Object(Vec<(String, String)>),
    Other(String),
}

/// The one-entry object `{<key>:<value>}` of a key and a value text.
pub open spec fn field_object(key: Seq<char>, value: Seq<char>) -> Seq<char> {
    "{"@ + key + ":"@ + value + "}"@
}

/// The line of one key and value: its one-entry object and a newline.
pub open spec fn field_line(key: Seq<char>, value: Seq<char>) -> Seq<char> {
    field_object(key, value) + "\n"@
}

/// The lines of the first `n` fields.
pub open spec fn field_lines(fields: Seq<(String, String)>, n: int) -> Seq<char>
    decreases n,
{
    if n <= 0 {
        Seq::empty()
    } else {
        field_lines(fields, n - 1) + field_line(fields[n - 1].0@, fields[n - 1].1@)
    }
}

/// Newline-delimited JSON of a report: one one-entry object per top-level
/// field of an object, each on its own line; a value that is not an object
/// becomes the single line `{"value":<value>}`.
pub open spec fn jsonl_spec(v: JsonTexts) -> Seq<char> {
    match v {
        JsonTexts::Object(fields) => field_lines(fields@, fields@.len() as int),
        JsonTexts::Other(t) => field_line("\"value\""@, t@),
    }
}

/// The JSONL text of a report (see [`jsonl_spec`]).
pub fn jsonl_from_value(v: &JsonTexts) -> (r: String)
    ensures
        r@ == jsonl_spec(*v),
{
    let mut out = String::new();
    match v {
        JsonTexts::Object(fields) => {
            let mut i: usize = 0;
            while i < fields.len()
                invariant
                    i <= fields@.len(),
                    out@ == field_lines(fields@, i as int),
                decreases fields@.len() - i,
            {
                push_str(&mut out, "{");
                push_str(&mut out, fields[i].0.as_str());
                push_str(&mut out, ":");
                push_str(&mut out, fields[i].1.as_str());
                push_str(&mut out, "}");
                push_str(&mut out, "\n");
                assert(out@ =~= field_lines(fields@, i + 1));
                i += 1;
            }
        },
        JsonTexts::Other(t) => {
            push_str(&mut out, "{");
            push_str(&mut out, "\"value\"");
            push_str(&mut out, ":");
            push_str(&mut out, t.as_str());
            push_str(&mut out, "}");
            push_str(&mut out, "\n");
            assert(out@ =~= jsonl_spec(*v));
        },
    }
    out
}

/// `t` holds no newline; the compact JSON a serializer writes never does.
pub open spec fn no_newline(t: Seq<char>) -> bool {
    forall|k: int| 0 <= k < t.len() ==> t[k] != '\n'
}

/// The texts of a report hold no newline.
pub open spec fn texts_single_line(v: JsonTexts) -> bool {
    match v {
        JsonTexts::Object(fields) => forall|i: int|
            0 <= i < fields@.len() ==> no_newline((#[trigger] fields@[i]).0@) && no_newline(fields@[i].1@),
        JsonTexts::Other(t) => no_newline(t@),
    }
}

/// The lines of a report's JSONL, as its one-entry objects.
pub open spec fn jsonl_objects(v: JsonTexts) -> Seq<Seq<char>> {
    match v {
        JsonTexts::Object(fields) => Seq::new(
            fields@.len(),
            |i: int| field_object(fields@[i].0@, fields@[i].1@),
        ),
        JsonTexts::Other(t) => seq![field_object("\"value\""@, t@)],
    }
}

pub(crate) proof fn lemma_split_plain(p: Seq<char>, x: Seq<char>, sep: char)
    requires
        forall|k: int| 0 <= k < x.len() ==> x[k] != sep,
    ensures
        split_spec(p + x, sep) == split_spec(p, sep).update(
            split_spec(p, sep).len() - 1,
            split_spec(p, sep).last() + x,
        ),
    decreases x.len(),
{
    lemma_split_nonempty(p, sep);
    let sp = split_spec(p, sep);
    if x.len() == 0 {
        assert(p + x =~= p);
        assert(sp.last() + x =~= sp.last());
        assert(sp.update(sp.len() - 1, sp.last() + x) =~= sp);
    } else {
        let x0 = x.drop_last();
        lemma_split_plain(p, x0, sep);
        assert((p + x).drop_last() =~= p + x0);
        assert((p + x).last() == x.last());
        let prev = sp.update(sp.len() - 1, sp.last() + x0);
        assert(prev.last() == sp.last() + x0);
        assert(prev.last().push(x.last()) =~= sp.last() + x);
        assert(prev.update(prev.len() - 1, prev.last().push(x.last())) =~= sp.update(
            sp.len() - 1,
            sp.last() + x,
        ));
    }
}

/// A line ending in a newline after text without newlines, appended to
/// text whose last piece is empty, adds that line as a piece.
proof fn lemma_split_line(p: Seq<char>, x: Seq<char>)
    requires
        no_newline(x),
        split_spec(p, '\n').last() == Seq::<char>::empty(),
    ensures
        split_spec(p + x + "\n"@, '\n') == split_spec(p, '\n').drop_last().push(x).push(Seq::<char>::empty()),
{
    reveal_strlit("\n");
    lemma_split_nonempty(p, '\n');
    lemma_split_plain(p, x, '\n');
    let sp = split_spec(p, '\n');
    let q = p + x;
    let r = q + "\n"@;
    assert(r.drop_last() =~= q);
    assert(r.last() == '\n');
    assert(sp.last() + x =~= x);
    assert(sp.update(sp.len() - 1, x) =~= sp.drop_last().push(x));
}

proof fn lemma_object_single_line(key: Seq<char>, value: Seq<char>)
    requires
        no_newline(key),
        no_newline(value),
    ensures
        no_newline(field_object(key, value)),
{
    reveal_strlit("{");
    reveal_strlit(":");
    reveal_strlit("}");
    let o = field_object(key, value);
    assert forall|k: int| 0 <= k < o.len() implies o[k] != '\n' by {
        let a = "{"@ + key;
        let b = a + ":"@;
        let c = b + value;
        if k < 1 {
        } else if k < a.len() {
            assert(o[k] == key[k - 1]);
        } else if k < b.len() {
        } else if k < c.len() {
            assert(o[k] == value[k - b.len()]);
        } else {
        }
    }
}

proof fn lemma_field_lines_split(fields: Seq<(String, String)>, n: int)
    requires
        0 <= n <= fields.len(),
        forall|i: int| 0 <= i < fields.len() ==> no_newline((#[trigger] fields[i]).0@) && no_newline(fields[i].1@),
    ensures
        split_spec(field_lines(fields, n), '\n') == Seq::new(
            n as nat,
            |i: int| field_object(fields[i].0@, fields[i].1@),
        ).push(Seq::<char>::empty()),
    decreases n,
{
    if n == 0 {
        assert(split_spec(Seq::<char>::empty(), '\n') =~= seq![Seq::<char>::empty()]);
        assert(Seq::new(0, |i: int| field_object(fields[i].0@, fields[i].1@)).push(Seq::<char>::empty())
            =~= seq![Seq::<char>::empty()]);
    } else {
        lemma_field_lines_split(fields, n - 1);
        let prev = field_lines(fields, n - 1);
        let o = field_object(fields[n - 1].0@, fields[n - 1].1@);
        lemma_object_single_line(fields[n - 1].0@, fields[n - 1].1@);
        lemma_split_line(prev, o);
        assert(field_lines(fields, n) =~= prev + o + "\n"@);
        assert(Seq::new((n - 1) as nat, |i: int| field_object(fields[i].0@, fields[i].1@)).push(o)
            =~= Seq::new(n as nat, |i: int| field_object(fields[i].0@, fields[i].1@)));
    }
}

/// JSONL holds one line per field: when no key or value text holds a
/// newline (compact JSON never does), the output splits at newlines into
/// exactly the one-entry objects `{<key>:<value>}` of the fields in order,
/// each newline-terminated (the empty piece after the last newline), or
/// into the single object `{"value":<value>}` for a value that is not an
/// object.
pub proof fn law_jsonl_one_line_per_field(v: JsonTexts)
    requires
        texts_single_line(v),
    ensures
        split_spec(jsonl_spec(v), '\n') == jsonl_objects(v).push(Seq::<char>::empty()),
{
    match v {
        JsonTexts::Object(fields) => {
            lemma_field_lines_split(fields@, fields@.len() as int);
        },
        JsonTexts::Other(t) => {
            reveal_strlit("\"value\"");
            assert(no_newline("\"value\""@));
            lemma_object_single_line("\"value\""@, t@);
            let o = field_object("\"value\""@, t@);
            assert(split_spec(Seq::<char>::empty(), '\n') =~= seq![Seq::<char>::empty()]);
            lemma_split_line(Seq::<char>::empty(), o);
            assert(Seq::<char>::empty() + o =~= o);
            assert(seq![Seq::<char>::empty()].drop_last().push(o) =~= seq![o]);
        },
    }
}

} // verus!

