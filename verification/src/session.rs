//! Turning the lines of a Copilot `events.jsonl` log into a raw session:
//! the event list, the per-line parse warnings, and the session metadata
//! taken from the `session.start` record.
//!
//! Reading the file and decoding each line's JSON happen outside this
//! module; [`assemble_session`] receives every line together with the
//! outcome of decoding it and applies the rules of the log format.

use vstd::prelude::*;
use crate::event::{CopilotEvent, UtcTimestamp, ts_lt, spec_event_timestamp};
use crate::pathname::{path_parent, path_file_name, spec_path_parent, spec_path_file_name};
use crate::refs::AgentKind;
use crate::text::{chars_of, is_ws, is_whitespace};

verus! {

/// Session-level metadata derived from the log.
#[derive(Debug, Clone)]
pub struct SessionMeta {
    /// Session identifier.
    pub id: String,
    /// Agent that produced the log.
    pub agent: AgentKind,
    /// Start time recorded by `session.start`.
    pub started_at: UtcTimestamp,
    /// The session was still being written when it was read.
    pub is_live: bool,
    /// Producer string from `session.start`.
    pub producer: Option<String>,
    /// Agent version from `session.start`.
    pub agent_version: Option<String>,
    /// Working directory from `session.start`.
    pub cwd: Option<String>,
    /// Repository from `session.start`, when known.
    pub repository: Option<String>,
    /// Branch from `session.start`, when known.
    pub branch: Option<String>,
}

/// A recoverable problem met while reading the log.
#[derive(Debug, Clone)]
pub enum ParseWarning {
    /// Line `line_no` (0-based) could not be read.
    Io { line_no: usize, error: String },
    /// Line `line_no` (0-based) is not a valid event record.
    Json { line_no: usize, error: String },
    /// Event timestamps go backwards somewhere in the log.
    OutOfOrder,
}

/// A parsed session: metadata, events in log order, and warnings.
#[derive(Debug)]
pub struct RawSession {
    pub meta: SessionMeta,
    pub events: Vec<CopilotEvent>,
    pub parse_warnings: Vec<ParseWarning>,
}

/// Why a session could not be loaded.
#[derive(Debug, Clone)]
pub enum AdapterError {
    /// The session root does not exist or is not a directory.
    RootNotFound { path: String },
    /// A file could not be opened or read.
    Io { path: String, message: String },
    /// The log holds no `session.start` record.
    MissingSessionStart { path: String },
}

/// One line of the log as read from disk.
#[derive(Debug)]
pub enum LineInput {
    /// The line could not be read; the I/O error's message.
    Unreadable(String),
    /// The line's text, and the outcome of decoding it as an event
    /// (the decoder's message on failure).
    Text { text: String, decoded: Result<CopilotEvent, String> },
}

// ---------------------------------------------------------------------------
// Incomplete-line heuristic
// ---------------------------------------------------------------------------

/// The scanner state of [`looks_like_incomplete_json`]: brace depth,
/// inside a string literal, right after a backslash in a string.
pub type ScanState = (int, bool, bool);

pub open spec fn scan_init() -> ScanState {
    (0, false, false)
}

pub open spec fn scan_step(st: ScanState, ch: char) -> ScanState {
    let (depth, in_string, escape) = st;
    if escape {
        (depth, in_string, false)
    } else if ch == '\\' && in_string {
        (depth, in_string, true)
    } else if ch == '"' {
        (depth, !in_string, escape)
    } else if ch == '{' && !in_string {
        (depth + 1, in_string, escape)
    } else if ch == '}' && !in_string {
        (depth - 1, in_string, escape)
    } else {
        st
    }
}

/// The scanner state after reading all of `s`.
pub open spec fn scan(s: Seq<char>) -> ScanState
    decreases s.len(),
{
    if s.len() == 0 {
        scan_init()
    } else {
        scan_step(scan(s.drop_last()), s.last())
    }
}

/// More `{` than `}` outside string literals, or a string literal still
/// open at the end.
pub open spec fn incomplete_json(s: Seq<char>) -> bool {
    scan(s).0 > 0 || scan(s).1
}

/// Heuristic for a line that was still being written when it was read:
/// more `{` than `}` outside string literals, or a string literal left open.
/// Braces inside strings (escaped quotes included) are not counted.
pub fn looks_like_incomplete_json(line: &str) -> (r: bool)
    ensures
        r == incomplete_json(line@),
{
    let cs = chars_of(line);
    let mut depth: i128 = 0;
    let mut in_string = false;
    let mut escape = false;
    let mut i: usize = 0;
    while i < cs.len()
        invariant
            i <= cs@.len(),
            cs@ == line@,
            -(i as int) <= depth <= i,
            depth == scan(cs@.take(i as int)).0,
            in_string == scan(cs@.take(i as int)).1,
            escape == scan(cs@.take(i as int)).2,
        decreases cs@.len() - i,
    {
        let ch = cs[i];
        assert(cs@.take(i + 1).drop_last() =~= cs@.take(i as int));
        if escape {
            escape = false;
        } else if ch == '\\' && in_string {
            escape = true;
        } else if ch == '"' {
            in_string = !in_string;
        } else if ch == '{' && !in_string {
            depth = depth + 1;
        } else if ch == '}' && !in_string {
            depth = depth - 1;
        }
        i += 1;
    }
    assert(cs@.take(cs@.len() as int) =~= cs@);
    depth > 0 || in_string
}

/// Characters that never change the scanner's string state.
pub open spec fn plain_text(c: Seq<char>) -> bool {
    forall|k: int| 0 <= k < c.len() ==> c[k] != '"' && c[k] != '\\'
}

proof fn lemma_scan_in_string_plain(p: Seq<char>, c: Seq<char>)
    requires
        scan(p).1,
        !scan(p).2,
        plain_text(c),
    ensures
        scan(p + c) == scan(p),
    decreases c.len(),
{
    if c.len() > 0 {
        lemma_scan_in_string_plain(p, c.drop_last());
        assert((p + c).drop_last() =~= p + c.drop_last());
    } else {
        assert(p + c =~= p);
    }
}

/// Braces inside a string literal do not count: appending a complete
/// literal (a quote, text without quotes or backslashes, a quote) to a
/// line outside any string leaves the brace depth and the string state
/// as they were.
pub proof fn lemma_string_literal_is_neutral(p: Seq<char>, c: Seq<char>)
    requires
        !scan(p).1,
        !scan(p).2,
        plain_text(c),
    ensures
        scan(p + seq!['"'] + c + seq!['"']) == scan(p),
{
    let q = p + seq!['"'];
    assert(q.drop_last() =~= p);
    assert(scan(q).1);
    lemma_scan_in_string_plain(q, c);
    let r = q + c + seq!['"'];
    assert(r.drop_last() =~= q + c);
    assert(p + seq!['"'] + c + seq!['"'] =~= r);
}

// ---------------------------------------------------------------------------
// Timestamp order
// ---------------------------------------------------------------------------

/// No event is timestamped earlier than the one before it.
pub open spec fn monotonic(events: Seq<CopilotEvent>) -> bool {
    forall|i: int|
        0 < i < events.len() ==> !ts_lt(
            #[trigger] spec_event_timestamp(events[i]),
            spec_event_timestamp(events[i - 1]),
        )
}

/// No event is timestamped earlier than any event before it.
pub open spec fn pairwise_ordered(events: Seq<CopilotEvent>) -> bool {
    forall|i: int, j: int|
        0 <= i < j < events.len() ==> !ts_lt(
            #[trigger] spec_event_timestamp(events[j]),
            #[trigger] spec_event_timestamp(events[i]),
        )
}

proof fn lemma_monotonic_upto(events: Seq<CopilotEvent>, i: int, j: int)
    requires
        monotonic(events),
        0 <= i <= j < events.len(),
    ensures
        !ts_lt(spec_event_timestamp(events[j]), spec_event_timestamp(events[i])),
    decreases j - i,
{
    if i < j {
        lemma_monotonic_upto(events, i, j - 1);
        assert(!ts_lt(spec_event_timestamp(events[j]), spec_event_timestamp(events[j - 1])));
    }
}

/// The log is in time order exactly when no event is timestamped earlier
/// than any event before it, adjacent or not: a step back anywhere, say
/// 1s, 5s, 3s, makes it out of order.
pub proof fn law_monotonic_pairwise(events: Seq<CopilotEvent>)
    ensures
        monotonic(events) <==> pairwise_ordered(events),
{
    if monotonic(events) {
        assert forall|i: int, j: int| 0 <= i < j < events.len() implies !ts_lt(
            #[trigger] spec_event_timestamp(events[j]),
            #[trigger] spec_event_timestamp(events[i]),
        ) by {
            lemma_monotonic_upto(events, i, j);
        }
    }
    if pairwise_ordered(events) {
        assert forall|i: int| 0 < i < events.len() implies !ts_lt(
            #[trigger] spec_event_timestamp(events[i]),
            spec_event_timestamp(events[i - 1]),
        ) by {
            assert(!ts_lt(spec_event_timestamp(events[i]), spec_event_timestamp(events[i - 1])));
        }
    }
}

/// `true` when the events' timestamps never go backwards.
pub fn is_monotonic(events: &[CopilotEvent]) -> (r: bool)
    ensures
        r == monotonic(events@),
{
    let mut i: usize = 1;
    while i < events.len()
        invariant
            1 <= i,
            i <= events@.len() || events@.len() == 0,
            forall|k: int|
                0 < k < i && k < events@.len() ==> !ts_lt(
                    #[trigger] spec_event_timestamp(events@[k]),
                    spec_event_timestamp(events@[k - 1]),
                ),
        decreases events@.len() - i,
    {
        let cur = events[i].timestamp();
        let prev = events[i - 1].timestamp();
        if cur.is_before(&prev) {
            return false;
        }
        i += 1;
    }
    true
}

// ---------------------------------------------------------------------------
// Metadata
// ---------------------------------------------------------------------------

/// Accumulates session metadata from the `session.start` records seen.
#[derive(Debug, Clone)]
pub struct MetaBuilder {
    pub session_id: Option<String>,
    pub producer: Option<String>,
    pub agent_version: Option<String>,
    pub started_at: Option<UtcTimestamp>,
    pub cwd: Option<String>,
    pub repository: Option<String>,
    pub branch: Option<String>,
}

/// The builder state after absorbing `e`: a `session.start` record
/// overwrites every field, any other event leaves the state unchanged.
pub open spec fn absorb_spec(b: MetaBuilder, e: CopilotEvent) -> MetaBuilder {
    match e {
        CopilotEvent::SessionStart(env) => MetaBuilder {
            session_id: Some(env.data.session_id),
            producer: Some(env.data.producer),
            agent_version: Some(env.data.copilot_version),
            started_at: Some(env.data.start_time),
            cwd: Some(env.data.context.cwd),
            repository: env.data.context.repository,
            branch: env.data.context.branch,
        },
        _ => b,
    }
}

/// The builder state after absorbing every event of `events` in order.
pub open spec fn absorb_all(b: MetaBuilder, events: Seq<CopilotEvent>) -> MetaBuilder
    decreases events.len(),
{
    if events.len() == 0 {
        b
    } else {
        absorb_spec(absorb_all(b, events.drop_last()), events.last())
    }
}

pub open spec fn empty_builder() -> MetaBuilder {
    MetaBuilder {
        session_id: None,
        producer: None,
        agent_version: None,
        started_at: None,
        cwd: None,
        repository: None,
        branch: None,
    }
}

/// The identifier a session gets when its log names none: the name of the
/// directory holding the log, or `"unknown"`.
pub open spec fn fallback_id(path: Seq<char>) -> Seq<char> {
    match spec_path_parent(path) {
        Some(parent) => match spec_path_file_name(parent) {
            Some(name) => name,
            None => "unknown"@,
        },
        None => "unknown"@,
    }
}

/// The metadata [`MetaBuilder::build`] yields, or `None` when no
/// `session.start` was seen.
pub open spec fn build_spec(b: MetaBuilder, is_live: bool, path: Seq<char>) -> Option<
    (Seq<char>, UtcTimestamp),
> {
    match b.started_at {
        None => None,
        Some(t) => Some(
            (
                match b.session_id {
                    Some(id) => id@,
                    None => fallback_id(path),
                },
                t,
            ),
        ),
    }
}

impl MetaBuilder {
    /// A builder that has seen nothing.
    pub fn new() -> (b: MetaBuilder)
        ensures
            b == empty_builder(),
    {
        MetaBuilder {
            session_id: None,
            producer: None,
            agent_version: None,
            started_at: None,
            cwd: None,
            repository: None,
            branch: None,
        }
    }

    /// Records the metadata of a `session.start` event; other events are
    /// ignored.
    pub fn absorb(&mut self, event: &CopilotEvent)
        ensures
            *final(self) == absorb_spec(*old(self), *event),
    {
        if let CopilotEvent::SessionStart(env) = event {
            self.session_id = Some(env.data.session_id.clone());
            self.producer = Some(env.data.producer.clone());
            self.agent_version = Some(env.data.copilot_version.clone());
            self.started_at = Some(env.data.start_time);
            self.cwd = Some(env.data.context.cwd.clone());
            self.repository = clone_opt(&env.data.context.repository);
            self.branch = clone_opt(&env.data.context.branch);
        }
    }

    /// The session metadata, or `None` when no `session.start` was seen.
    /// Without a recorded session id the id is the name of the directory
    /// holding `path`, or `"unknown"`.
    pub fn build(self, is_live: bool, path: &str) -> (r: Option<SessionMeta>)
        ensures
            match r {
                None => build_spec(self, is_live, path@) is None,
                Some(m) => {
                    &&& build_spec(self, is_live, path@) == Some((m.id@, m.started_at))
                    &&& m.agent == AgentKind::Copilot
                    &&& m.is_live == is_live
                    &&& m.producer == self.producer
                    &&& m.agent_version == self.agent_version
                    &&& m.cwd == self.cwd
                    &&& m.repository == self.repository
                    &&& m.branch == self.branch
                },
            },
    {
        let started_at = match self.started_at {
            Some(t) => t,
            None => return None,
        };
        let id = match self.session_id {
            Some(id) => id,
            None => {
                let unknown = "unknown";
                proof {
                    reveal_strlit("unknown");
                }
                match path_parent(path) {
                    Some(parent) => match path_file_name(parent.as_str()) {
                        Some(name) => name,
                        None => unknown.to_owned(),
                    },
                    None => unknown.to_owned(),
                }
            },
        };
        Some(
            SessionMeta {
                id,
                agent: AgentKind::Copilot,
                started_at,
                is_live,
                producer: self.producer,
                agent_version: self.agent_version,
                cwd: self.cwd,
                repository: self.repository,
                branch: self.branch,
            },
        )
    }
}

/// A copy of an optional string.
pub fn clone_opt(o: &Option<String>) -> (r: Option<String>)
    ensures
        r == *o,
{
    match o {
        Some(s) => Some(s.clone()),
        None => None,
    }
}

// ---------------------------------------------------------------------------
// Assembling a session from its lines
// ---------------------------------------------------------------------------

/// Every character of `s` is whitespace (the line is blank).
pub open spec fn blank(s: Seq<char>) -> bool {
    forall|k: int| 0 <= k < s.len() ==> is_ws(s[k])
}

/// `true` when every character of `s` is whitespace.
pub fn is_blank(s: &str) -> (r: bool)
    ensures
        r == blank(s@),
{
    let cs = chars_of(s);
    let mut i: usize = 0;
    while i < cs.len()
        invariant
            i <= cs@.len(),
            cs@ == s@,
            forall|k: int| 0 <= k < i ==> is_ws(cs@[k]),
        decreases cs@.len() - i,
    {
        if !is_whitespace(cs[i]) {
            return false;
        }
        i += 1;
    }
    true
}

/// What one line contributes: an event, a warning, or nothing.
pub enum LineOutcome {
    Event(CopilotEvent),
    Warn(ParseWarning),
    Skip,
}

/// The contribution of line `line_no` out of `n` lines:
/// - an unreadable line gives an `Io` warning;
/// - a blank line gives nothing;
/// - a decoded line gives its event;
/// - an undecodable line gives a `Json` warning, except when it is the last
///   line of a live session and looks like it was cut off mid-write.
pub open spec fn line_outcome(line: LineInput, line_no: int, n: int, is_live: bool) -> LineOutcome {
    match line {
        LineInput::Unreadable(e) => LineOutcome::Warn(
            ParseWarning::Io { line_no: line_no as usize, error: e },
        ),
        LineInput::Text { text, decoded } => {
            if blank(text@) {
                LineOutcome::Skip
            } else {
                match decoded {
                    Ok(ev) => LineOutcome::Event(ev),
                    Err(e) => {
                        if line_no == n - 1 && is_live && incomplete_json(text@) {
                            LineOutcome::Skip
                        } else {
                            LineOutcome::Warn(ParseWarning::Json { line_no: line_no as usize, error: e })
                        }
                    },
                }
            }
        },
    }
}

/// Events contributed by the first `k` lines, in order.
pub open spec fn events_of(lines: Seq<LineInput>, k: int, is_live: bool) -> Seq<CopilotEvent>
    decreases k,
{
    if k <= 0 {
        Seq::empty()
    } else {
        let prev = events_of(lines, k - 1, is_live);
        match line_outcome(lines[k - 1], k - 1, lines.len() as int, is_live) {
            LineOutcome::Event(ev) => prev.push(ev),
            _ => prev,
        }
    }
}

/// Warnings contributed by the first `k` lines, in order.
pub open spec fn line_warnings_of(lines: Seq<LineInput>, k: int, is_live: bool) -> Seq<ParseWarning>
    decreases k,
{
    if k <= 0 {
        Seq::empty()
    } else {
        let prev = line_warnings_of(lines, k - 1, is_live);
        match line_outcome(lines[k - 1], k - 1, lines.len() as int, is_live) {
            LineOutcome::Warn(w) => prev.push(w),
            _ => prev,
        }
    }
}

/// All warnings of a session: the per-line ones, then `OutOfOrder` when
/// the events' timestamps go backwards.
pub open spec fn warnings_of(lines: Seq<LineInput>, is_live: bool) -> Seq<ParseWarning> {
    let ws = line_warnings_of(lines, lines.len() as int, is_live);
    if monotonic(events_of(lines, lines.len() as int, is_live)) {
        ws
    } else {
        ws.push(ParseWarning::OutOfOrder)
    }
}

/// Builds the raw session of the log at `path` from its lines.
///
/// Per-line failures become warnings (see [`line_outcome`]); the metadata
/// comes from the last `session.start` record. Fails with
/// `MissingSessionStart` exactly when no event is a `session.start`.
pub fn assemble_session(lines: Vec<LineInput>, is_live: bool, path: &str) -> (r: Result<
    RawSession,
    AdapterError,
>)
    ensures
        ({
            let evs = events_of(lines@, lines@.len() as int, is_live);
            let b = absorb_all(empty_builder(), evs);
            match r {
                Ok(s) => {
                    &&& s.events@ == evs
                    &&& s.parse_warnings@ == warnings_of(lines@, is_live)
                    &&& build_spec(b, is_live, path@) == Some((s.meta.id@, s.meta.started_at))
                    &&& s.meta.agent == AgentKind::Copilot
                    &&& s.meta.is_live == is_live
                    &&& s.meta.producer == b.producer
                    &&& s.meta.agent_version == b.agent_version
                    &&& s.meta.cwd == b.cwd
                    &&& s.meta.repository == b.repository
                    &&& s.meta.branch == b.branch
                },
                Err(e) => {
                    &&& build_spec(b, is_live, path@) is None
                    &&& e is MissingSessionStart
                    &&& e->MissingSessionStart_path@ == path@
                },
            }
        }),
{
    let ghost all = lines@;
    let n = lines.len();
    let mut events: Vec<CopilotEvent> = Vec::new();
    let mut warnings: Vec<ParseWarning> = Vec::new();
    let mut builder = MetaBuilder::new();
    let mut line_no: usize = 0;
    for line in it: lines.into_iter()
        invariant
            n == all.len(),
            it.seq() == all,
            line_no == it.index(),
            line_no <= n,
            events@ == events_of(all, line_no as int, is_live),
            warnings@ == line_warnings_of(all, line_no as int, is_live),
            builder == absorb_all(empty_builder(), events@),
    {
        assert(line == all[line_no as int]);
        match line {
            LineInput::Unreadable(e) => {
                warnings.push(ParseWarning::Io { line_no, error: e });
            },
            LineInput::Text { text, decoded } => {
                if !is_blank(text.as_str()) {
                    match decoded {
                        Ok(ev) => {
                            builder.absorb(&ev);
                            let ghost before = events@;
                            events.push(ev);
                            assert(events@.drop_last() =~= before);
                        },
                        Err(e) => {
                            let skip = line_no + 1 == n && is_live && looks_like_incomplete_json(
                                text.as_str(),
                            );
                            if !skip {
                                warnings.push(ParseWarning::Json { line_no, error: e });
                            }
                        },
                    }
                }
            },
        }
        line_no += 1;
    }
    if !is_monotonic(events.as_slice()) {
        warnings.push(ParseWarning::OutOfOrder);
    }
    match builder.build(is_live, path) {
        Some(meta) => Ok(RawSession { meta, events, parse_warnings: warnings }),
        None => Err(AdapterError::MissingSessionStart { path: path.to_owned() }),
    }
}

/// The id of a session named by its log's path: the id its first event
/// records when it has one, else the name of the directory holding the
/// log, else `"unknown"`.
pub fn session_id_for_path(recorded: Option<String>, path: &str) -> (r: String)
    ensures
        r@ == match recorded {
            Some(id) => id@,
            None => fallback_id(path@),
        },
{
    proof {
        reveal_strlit("unknown");
    }
    match recorded {
        Some(id) => id,
        None => match path_parent(path) {
            Some(parent) => match path_file_name(parent.as_str()) {
                Some(name) => name,
                None => "unknown".to_owned(),
            },
            None => "unknown".to_owned(),
        },
    }
}

} // verus!
