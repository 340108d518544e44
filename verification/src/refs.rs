//! Agents and session references: the identity of a session as the
//! discovery sources see it, and how the file-system source and the
//! stored snapshot are reconciled.

use vstd::prelude::*;
use crate::event::{UtcTimestamp, ts_lt};
use crate::order::{lex_lt, lemma_lex_total, lemma_lex_transitive, lemma_lex_irreflexive};
use crate::session::AdapterError;

verus! {

/// The coding agents whose logs the library knows of.
#[derive(Debug, Clone, Copy, PartialEq, Eq, Structural)]
pub enum AgentKind {
    /// GitHub Copilot CLI.
    Copilot,
    /// Anthropic's coding agent CLI.
    Claude,
    /// OpenAI Codex CLI.
    Codex,
}


/// The label a discovery source built over `kind`'s adapter carries.
pub open spec fn spec_name_for(kind: AgentKind) -> Seq<char> {
    match kind {
        AgentKind::Copilot => "adapter:copilot"@,
        AgentKind::Claude => "adapter:anthropic"@,
        AgentKind::Codex => "adapter:codex"@,
    }
}

/// `"adapter:copilot"`, `"adapter:anthropic"` or `"adapter:codex"`.
pub fn name_for(kind: AgentKind) -> (r: &'static str)
    ensures
        r@ == spec_name_for(kind),
{
    proof {
        reveal_strlit("adapter:copilot");
        reveal_strlit("adapter:anthropic");
        reveal_strlit("adapter:codex");
    }
    match kind {
        AgentKind::Copilot => "adapter:copilot",
        AgentKind::Claude => "adapter:anthropic",
        AgentKind::Codex => "adapter:codex",
    }
}

/// The adapter for GitHub Copilot CLI session logs.
#[derive(Debug, Default, Clone, Copy)]
pub struct CopilotAdapter;

impl CopilotAdapter {
    /// The agent whose logs this adapter reads.
    pub fn agent_kind(&self) -> (r: AgentKind)
        ensures
            r == AgentKind::Copilot,
    {
        AgentKind::Copilot
    }
}

/// The adapter for `kind`, where one is available: only Copilot has one.
pub fn adapter_for(kind: AgentKind) -> (r: Option<CopilotAdapter>)
    ensures
        r is Some <==> kind == AgentKind::Copilot,
{
    match kind {
        AgentKind::Copilot => Some(CopilotAdapter),
        _ => None,
    }
}

/// The agents for which [`adapter_for`] gives an adapter.
pub fn supported_agents() -> (r: Vec<AgentKind>)
    ensures
        r@ == seq![AgentKind::Copilot],
        forall|k: AgentKind| r@.contains(k) <==> adapter_for_spec(k),
{
    let v = vec![AgentKind::Copilot];
    assert(v@ == seq![AgentKind::Copilot]);
    assert forall|k: AgentKind| v@.contains(k) <==> adapter_for_spec(k) by {
        if k == AgentKind::Copilot {
            assert(v@[0] == k);
        }
    }
    v
}

/// An adapter exists for `kind`.
pub open spec fn adapter_for_spec(kind: AgentKind) -> bool {
    kind == AgentKind::Copilot
}

// ---------------------------------------------------------------------------
// Sessions as discovered on disk
// ---------------------------------------------------------------------------

/// A session log found on disk by an adapter.
#[derive(Debug, Clone)]
pub struct AdapterRef {
    /// Session id (the session directory's name).
    pub id: String,
    /// Agent that wrote the log.
    pub agent: AgentKind,
    /// Path of the `events.jsonl` file.
    pub path: String,
    /// Last modification time of the log.
    pub modified_at: UtcTimestamp,
    /// Size of the log in bytes.
    pub size_bytes: u64,
    /// A live-session lock file sits beside the log.
    pub is_live: bool,
}

/// Milliseconds since the Unix epoch of `t`, when `t` is not before the
/// epoch and the count fits in an `i64`.
pub open spec fn spec_ms_since_epoch(t: UtcTimestamp) -> Option<i64> {
    let ms = t.unix_secs * 1000 + t.nanos / 1_000_000;
    if t.unix_secs < 0 || ms > i64::MAX {
        None
    } else {
        Some(ms as i64)
    }
}

/// Whole milliseconds from the Unix epoch to `t`; `None` for an instant
/// before the epoch or a count beyond `i64::MAX`.
pub fn system_time_to_ms(t: UtcTimestamp) -> (r: Option<i64>)
    requires
        t.nanos < 1_000_000_000,
    ensures
        r == spec_ms_since_epoch(t),
{
    if t.unix_secs < 0 {
        return None;
    }
    let secs = t.unix_secs as i128;
    let ms: i128 = secs * 1000 + (t.nanos / 1_000_000) as i128;
    if ms > i64::MAX as i128 {
        None
    } else {
        Some(ms as i64)
    }
}

// ---------------------------------------------------------------------------
// Session references across sources
// ---------------------------------------------------------------------------

/// A session as a discovery source reports it.
#[derive(Debug, Clone)]
pub struct SessionRef {
    /// Session id; the join key across sources.
    pub id: String,
    /// Agent that wrote the session.
    pub agent: AgentKind,
    /// Logical start of the session, in ms since the Unix epoch.
    pub started_at_ms: Option<i64>,
    /// Path of the raw log, when the source knows it.
    pub raw_path: Option<String>,
    /// Modification time of the raw log, in ms since the Unix epoch.
    pub raw_mtime_ms: Option<i64>,
    /// Name of the source that reported it.
    pub source: String,
}

/// The reference a file-system source gives for a discovered log:
/// `started_at_ms` is the session's logical start as read from its first
/// event, the raw path is the log's path, and the modification time is
/// converted to milliseconds.
pub fn adapter_ref_to_datasource_ref(
    sref: &AdapterRef,
    started_at_ms: Option<i64>,
    source_name: &str,
) -> (r: SessionRef)
    requires
        sref.modified_at.nanos < 1_000_000_000,
    ensures
        r.id@ == sref.id@,
        r.agent == sref.agent,
        r.started_at_ms == started_at_ms,
        r.raw_path == Some(sref.path),
        r.raw_mtime_ms == spec_ms_since_epoch(sref.modified_at),
        r.source@ == source_name@,
{
    SessionRef {
        id: sref.id.clone(),
        agent: sref.agent,
        started_at_ms,
        raw_path: Some(sref.path.clone()),
        raw_mtime_ms: system_time_to_ms(sref.modified_at),
        source: source_name.to_owned(),
    }
}

/// `s` was modified at or after `cutoff`, or there is no cutoff.
pub open spec fn since_keeps(s: AdapterRef, cutoff: Option<UtcTimestamp>) -> bool {
    match cutoff {
        None => true,
        Some(c) => !ts_lt(s.modified_at, c),
    }
}

/// The discovered logs modified at or after `cutoff` (all of them when
/// there is no cutoff), in their original order.
pub fn select_since(all: Vec<AdapterRef>, cutoff: Option<UtcTimestamp>) -> (r: Vec<AdapterRef>)
    ensures
        r@ == all@.filter(|s: AdapterRef| since_keeps(s, cutoff)),
{
    let ghost src = all@;
    let mut out: Vec<AdapterRef> = Vec::new();
    for s in it: all.into_iter()
        invariant
            it.seq() == src,
            out@ == src.take(it.index() as int).filter(|s: AdapterRef| since_keeps(s, cutoff)),
    {
        let ghost k = it.index();
        assert(src.take(k + 1).drop_last() =~= src.take(k as int));
        assert(src.take(k + 1).last() == s);
        proof {
            reveal(Seq::filter);
        }
        let keep = match cutoff {
            None => true,
            Some(c) => !s.modified_at.is_before(&c),
        };
        if keep {
            out.push(s);
        }
    }
    assert(src.take(src.len() as int) =~= src);
    out
}


// ---------------------------------------------------------------------------
// Reconciling the file-system source with the stored snapshot
// ---------------------------------------------------------------------------

/// A metadata divergence between the adapter's and the store's view of
/// one session.
#[derive(Debug, Clone)]
pub struct DualPathWarning {
    /// Session whose two views disagree.
    pub session_id: String,
    /// Names of the differing fields: `"raw_mtime_ms"`, `"started_at_ms"`,
    /// `"raw_path"`, in that order.
    pub differing_fields: Vec<&'static str>,
    /// The adapter's view was kept (always, under the current policy).
    pub adapter_won: bool,
}

/// The characters of an optional string.
pub open spec fn opt_chars(o: Option<String>) -> Option<Seq<char>> {
    match o {
        Some(s) => Some(s@),
        None => None,
    }
}

/// The names of the metadata fields on which `a` and `b` disagree:
/// modification time, start time and raw path, in that order. The id, the
/// agent and the source name are not compared.
pub open spec fn spec_diff_fields(a: SessionRef, b: SessionRef) -> Seq<Seq<char>> {
    (if a.raw_mtime_ms != b.raw_mtime_ms { seq!["raw_mtime_ms"@] } else { Seq::empty() }) + (
    if a.started_at_ms != b.started_at_ms {
        seq!["started_at_ms"@]
    } else {
        Seq::empty()
    }) + (if opt_chars(a.raw_path) != opt_chars(b.raw_path) {
        seq!["raw_path"@]
    } else {
        Seq::empty()
    })
}

/// The characters of each name.
pub open spec fn name_views(v: Seq<&'static str>) -> Seq<Seq<char>> {
    Seq::new(v.len(), |i: int| v[i]@)
}

fn opt_i64_eq(a: Option<i64>, b: Option<i64>) -> (r: bool)
    ensures
        r == (a == b),
{
    match (a, b) {
        (Some(x), Some(y)) => x == y,
        (None, None) => true,
        _ => false,
    }
}

fn opt_string_eq(a: &Option<String>, b: &Option<String>) -> (r: bool)
    ensures
        r == (opt_chars(*a) == opt_chars(*b)),
{
    match (a, b) {
        (Some(x), Some(y)) => *x == *y,
        (None, None) => true,
        _ => false,
    }
}

/// The names of the metadata fields on which `a` and `b` disagree (see
/// [`spec_diff_fields`]); empty exactly when they agree on all three.
pub fn diff_fields(a: &SessionRef, b: &SessionRef) -> (r: Vec<&'static str>)
    ensures
        name_views(r@) == spec_diff_fields(*a, *b),
{
    proof {
        reveal_strlit("raw_mtime_ms");
        reveal_strlit("started_at_ms");
        reveal_strlit("raw_path");
    }
    let mut diffs: Vec<&'static str> = Vec::new();
    if !opt_i64_eq(a.raw_mtime_ms, b.raw_mtime_ms) {
        diffs.push("raw_mtime_ms");
    }
    let ghost d1 = name_views(diffs@);
    if !opt_i64_eq(a.started_at_ms, b.started_at_ms) {
        diffs.push("started_at_ms");
    }
    let ghost d2 = name_views(diffs@);
    if !opt_string_eq(&a.raw_path, &b.raw_path) {
        diffs.push("raw_path");
    }
    assert(name_views(diffs@) =~= spec_diff_fields(*a, *b));
    diffs
}

/// No two fields of a comparison are reported as differing unless they do.
pub proof fn lemma_diff_fields_empty_iff_agree(a: SessionRef, b: SessionRef)
    ensures
        spec_diff_fields(a, b).len() == 0 <==> (a.raw_mtime_ms == b.raw_mtime_ms
            && a.started_at_ms == b.started_at_ms && opt_chars(a.raw_path) == opt_chars(
            b.raw_path,
        )),
        spec_diff_fields(a, b) == spec_diff_fields(b, a),
{
}

/// Id-keyed view of a list of references, later entries overriding
/// earlier ones with the same id.
pub open spec fn insert_all(m: Map<Seq<char>, SessionRef>, refs: Seq<SessionRef>) -> Map<
    Seq<char>,
    SessionRef,
>
    decreases refs.len(),
{
    if refs.len() == 0 {
        m
    } else {
        insert_all(m, refs.drop_last()).insert(refs.last().id@, refs.last())
    }
}

/// The merged view: every stored reference, overridden by the adapter's
/// reference for the same id.
pub open spec fn merged_map(adapter: Seq<SessionRef>, storage: Seq<SessionRef>) -> Map<
    Seq<char>,
    SessionRef,
> {
    insert_all(insert_all(Map::empty(), storage), adapter)
}

/// The warnings a merge records, as (session id, differing field names):
/// one for each adapter reference whose id is already present (from the
/// store or an earlier adapter reference) with different metadata.
pub open spec fn merge_warnings(adapter: Seq<SessionRef>, storage: Seq<SessionRef>) -> Seq<
    (Seq<char>, Seq<Seq<char>>),
>
    decreases adapter.len(),
{
    if adapter.len() == 0 {
        Seq::empty()
    } else {
        let prev = merge_warnings(adapter.drop_last(), storage);
        let m = merged_map(adapter.drop_last(), storage);
        let a = adapter.last();
        if m.contains_key(a.id@) && spec_diff_fields(a, m[a.id@]).len() > 0 {
            prev.push((a.id@, spec_diff_fields(a, m[a.id@])))
        } else {
            prev
        }
    }
}

/// A warning as (session id, differing field names).
pub open spec fn warning_model(w: DualPathWarning) -> (Seq<char>, Seq<Seq<char>>) {
    (w.session_id@, name_views(w.differing_fields@))
}

pub open spec fn warning_models(ws: Seq<DualPathWarning>) -> Seq<(Seq<char>, Seq<Seq<char>>)> {
    Seq::new(ws.len(), |i: int| warning_model(ws[i]))
}

/// Sort key of a start time: `None` below every time.
pub open spec fn start_key(o: Option<i64>) -> int {
    match o {
        Some(t) => t as int,
        None => i64::MIN - 1,
    }
}

/// Newest start first, unknown starts last.
pub open spec fn sorted_by_start_desc(v: Seq<SessionRef>) -> bool {
    forall|i: int, j: int|
        0 <= i < j < v.len() ==> start_key(#[trigger] v[i].started_at_ms) >= start_key(
            #[trigger] v[j].started_at_ms,
        )
}

/// No id occurs twice.
pub open spec fn distinct_ids(v: Seq<SessionRef>) -> bool {
    forall|i: int, j: int| 0 <= i < j < v.len() ==> (#[trigger] v[i]).id@ != (#[trigger] v[j]).id@
}

/// `v` lists exactly the entries of `m`, each once under its own id.
pub open spec fn lists_map(v: Seq<SessionRef>, m: Map<Seq<char>, SessionRef>) -> bool {
    &&& distinct_ids(v)
    &&& forall|i: int| 0 <= i < v.len() ==> #[trigger] m.contains_key(v[i].id@) && m[v[i].id@] == v[i]
    &&& forall|id: Seq<char>| #[trigger] m.contains_key(id) ==> exists|i: int| 0 <= i < v.len() && #[trigger] v[i].id@ == id
}

fn position_of(v: &Vec<SessionRef>, id: &String) -> (r: Option<usize>)
    ensures
        match r {
            Some(i) => i < v@.len() && v@[i as int].id@ == id@,
            None => forall|i: int| 0 <= i < v@.len() ==> (#[trigger] v@[i]).id@ != id@,
        },
{
    let mut i: usize = 0;
    while i < v.len()
        invariant
            i <= v@.len(),
            forall|k: int| 0 <= k < i ==> (#[trigger] v@[k]).id@ != id@,
        decreases v@.len() - i,
    {
        if v[i].id == *id {
            return Some(i);
        }
        i += 1;
    }
    None
}

/// Puts `r` into the id-keyed list `v`, replacing the entry with the same id.
fn upsert(v: &mut Vec<SessionRef>, r: SessionRef, Ghost(m): Ghost<Map<Seq<char>, SessionRef>>)
    requires
        lists_map(old(v)@, m),
    ensures
        lists_map(final(v)@, m.insert(r.id@, r)),
{
    let ghost m2 = m.insert(r.id@, r);
    let ghost id = r.id@;
    let ghost ov = v@;
    match position_of(v, &r.id) {
        Some(i) => {
            v.set(i, r);
            assert(v@ == ov.update(i as int, r));
            assert forall|a: int, b: int| 0 <= a < b < v@.len() implies (#[trigger] v@[a]).id@
                != (#[trigger] v@[b]).id@ by {
                assert(ov[a].id@ != ov[b].id@);
            }
            assert forall|a: int| 0 <= a < v@.len() implies #[trigger] m2.contains_key(v@[a].id@)
                && m2[v@[a].id@] == v@[a] by {
                if a != i {
                    assert(ov[a].id@ != ov[i as int].id@ || a == i);
                    assert(m.contains_key(ov[a].id@));
                }
            }
            assert forall|k: Seq<char>| #[trigger] m2.contains_key(k) implies exists|j: int|
                0 <= j < v@.len() && #[trigger] v@[j].id@ == k by {
                if k == id {
                    assert(v@[i as int].id@ == k);
                } else {
                    assert(m.contains_key(k));
                    let j = choose|j: int| 0 <= j < ov.len() && #[trigger] ov[j].id@ == k;
                    assert(v@[j].id@ == k);
                }
            }
        },
        None => {
            v.push(r);
            assert(v@ == ov.push(r));
            assert forall|a: int, b: int| 0 <= a < b < v@.len() implies (#[trigger] v@[a]).id@
                != (#[trigger] v@[b]).id@ by {
                if b < ov.len() {
                    assert(ov[a].id@ != ov[b].id@);
                }
            }
            assert forall|a: int| 0 <= a < v@.len() implies #[trigger] m2.contains_key(v@[a].id@)
                && m2[v@[a].id@] == v@[a] by {
                if a < ov.len() {
                    assert(m.contains_key(ov[a].id@));
                }
            }
            assert forall|k: Seq<char>| #[trigger] m2.contains_key(k) implies exists|j: int|
                0 <= j < v@.len() && #[trigger] v@[j].id@ == k by {
                if k == id {
                    assert(v@[v@.len() - 1].id@ == k);
                } else {
                    assert(m.contains_key(k));
                    let j = choose|j: int| 0 <= j < ov.len() && #[trigger] ov[j].id@ == k;
                    assert(v@[j].id@ == k);
                }
            }
        },
    }
}

/// Merges the adapter's references over the store's, by session id.
///
/// The result lists every id known to either source once: the adapter's
/// reference where it has one (the adapter wins), the stored one
/// otherwise; ordered by start time, newest first, unknown start times
/// last. For every adapter reference whose id was already present with
/// different metadata, a warning naming the differing fields is appended
/// to `warnings`.
pub fn merge_refs(
    adapter_refs: Vec<SessionRef>,
    storage_refs: Vec<SessionRef>,
    warnings: &mut Vec<DualPathWarning>,
) -> (r: Vec<SessionRef>)
    ensures
        lists_map(r@, merged_map(adapter_refs@, storage_refs@)),
        sorted_by_start_desc(r@),
        warning_models(final(warnings)@) == warning_models(old(warnings)@) + merge_warnings(
            adapter_refs@,
            storage_refs@,
        ),
        forall|i: int|
            old(warnings)@.len() <= i < final(warnings)@.len() ==> (#[trigger] final(warnings)@[i]).adapter_won,
{
    let ghost st = storage_refs@;
    let ghost ad = adapter_refs@;
    let ghost w0 = warnings@;
    let mut by_id: Vec<SessionRef> = Vec::new();
    for sref in it: storage_refs.into_iter()
        invariant
            it.seq() == st,
            lists_map(by_id@, insert_all(Map::empty(), st.take(it.index() as int))),
    {
        let ghost k = it.index();
        assert(st.take(k + 1).drop_last() =~= st.take(k as int));
        assert(st.take(k + 1).last() == sref);
        upsert(&mut by_id, sref, Ghost(insert_all(Map::empty(), st.take(k as int))));
    }
    assert(st.take(st.len() as int) =~= st);
    for aref in it: adapter_refs.into_iter()
        invariant
            it.seq() == ad,
            lists_map(by_id@, merged_map(ad.take(it.index() as int), st)),
            warning_models(warnings@) == warning_models(w0) + merge_warnings(ad.take(it.index() as int), st),
            w0.len() <= warnings@.len(),
            forall|i: int| w0.len() <= i < warnings@.len() ==> (#[trigger] warnings@[i]).adapter_won,
            forall|i: int| 0 <= i < w0.len() ==> warnings@[i] == w0[i],
    {
        let ghost k = it.index();
        let ghost pre = ad.take(k as int);
        let ghost m = merged_map(pre, st);
        assert(ad.take(k + 1).drop_last() =~= pre);
        assert(ad.take(k + 1).last() == aref);
        match position_of(&by_id, &aref.id) {
            Some(i) => {
                assert(m.contains_key(aref.id@));
                assert(m[aref.id@] == by_id@[i as int]);
                let diffs = diff_fields(&aref, &by_id[i]);
                if diffs.len() > 0 {
                    let ghost before = warnings@;
                    warnings.push(
                        DualPathWarning {
                            session_id: aref.id.clone(),
                            differing_fields: diffs,
                            adapter_won: true,
                        },
                    );
                    assert(warning_models(warnings@) =~= warning_models(before).push(
                        (aref.id@, spec_diff_fields(aref, m[aref.id@])),
                    ));
                } else {
                    assert(spec_diff_fields(aref, m[aref.id@]).len() == 0);
                }
            },
            None => {
                assert(!m.contains_key(aref.id@));
            },
        }
        upsert(&mut by_id, aref, Ghost(m));
        assert(warning_models(warnings@) =~= warning_models(w0) + merge_warnings(ad.take(k + 1), st));
    }
    assert(ad.take(ad.len() as int) =~= ad);
    sort_by_start_desc(by_id, Ghost(merged_map(ad, st)))
}

/// `start_key(a) >= start_key(b)`.
fn starts_no_earlier(a: Option<i64>, b: Option<i64>) -> (r: bool)
    ensures
        r == (start_key(a) >= start_key(b)),
{
    match (a, b) {
        (_, None) => true,
        (None, Some(_)) => false,
        (Some(x), Some(y)) => x >= y,
    }
}

/// `out` holds exactly the first `k` entries of `src`: `out[i]` is
/// `src[perm[i]]`, and `src[j]` sits at `out[inv[j]]`.
pub open spec fn holds_prefix(
    out: Seq<SessionRef>,
    src: Seq<SessionRef>,
    k: int,
    perm: Seq<int>,
    inv: Seq<int>,
) -> bool {
    &&& out.len() == k
    &&& perm.len() == k
    &&& inv.len() == k
    &&& forall|i: int| 0 <= i < k ==> 0 <= #[trigger] perm[i] < k && out[i] == src[perm[i]]
    &&& forall|j: int| 0 <= j < k ==> 0 <= #[trigger] inv[j] < k && out[inv[j]] == src[j]
}

pub open spec fn shift_from(inv: Seq<int>, p: int) -> Seq<int> {
    Seq::new(inv.len(), |j: int| if inv[j] >= p { inv[j] + 1 } else { inv[j] })
}

proof fn lemma_insert_sorted(
    before: Seq<SessionRef>,
    src: Seq<SessionRef>,
    k: int,
    p: int,
    perm: Seq<int>,
    inv: Seq<int>,
)
    requires
        0 <= k < src.len(),
        0 <= p <= before.len(),
        distinct_ids(src),
        sorted_by_start_desc(before),
        distinct_ids(before),
        holds_prefix(before, src, k, perm, inv),
        forall|i: int| 0 <= i < p ==> start_key(#[trigger] before[i].started_at_ms) >= start_key(src[k].started_at_ms),
        p < before.len() ==> start_key(before[p].started_at_ms) < start_key(src[k].started_at_ms),
    ensures
        sorted_by_start_desc(before.insert(p, src[k])),
        distinct_ids(before.insert(p, src[k])),
        holds_prefix(before.insert(p, src[k]), src, k + 1, perm.insert(p, k), shift_from(inv, p).push(p)),
{
    let x = src[k];
    let out = before.insert(p, x);
    assert forall|i: int, j: int| 0 <= i < j < out.len() implies start_key(
        #[trigger] out[i].started_at_ms,
    ) >= start_key(#[trigger] out[j].started_at_ms) by {
        if i < p && j == p {
        } else if i == p && j > p {
            assert(out[j] == before[j - 1]);
            assert(start_key(before[p].started_at_ms) >= start_key(before[j - 1].started_at_ms) || j - 1 == p);
        } else {
            let ii = if i < p { i } else { i - 1 };
            let jj = if j < p { j } else { j - 1 };
            assert(out[i] == before[ii]);
            assert(out[j] == before[jj]);
        }
    }
    assert forall|i: int, j: int| 0 <= i < j < out.len() implies (#[trigger] out[i]).id@
        != (#[trigger] out[j]).id@ by {
        if i == p {
            assert(out[j] == before[j - 1]);
            assert(before[j - 1] == src[perm[j - 1]]);
        } else if j == p {
            assert(out[i] == before[i]);
            assert(before[i] == src[perm[i]]);
        } else {
            let ii = if i < p { i } else { i - 1 };
            let jj = if j < p { j } else { j - 1 };
            assert(before[ii] == out[i]);
            assert(before[jj] == out[j]);
        }
    }
    let perm2 = perm.insert(p, k);
    let inv2 = shift_from(inv, p).push(p);
    assert forall|i: int| 0 <= i < k + 1 implies 0 <= #[trigger] perm2[i] < k + 1 && out[i] == src[perm2[i]] by {
        if i < p {
            assert(perm2[i] == perm[i]);
        } else if i > p {
            assert(perm2[i] == perm[i - 1]);
        }
    }
    assert forall|j: int| 0 <= j < k + 1 implies 0 <= #[trigger] inv2[j] < k + 1 && out[inv2[j]] == src[j] by {
        if j < k {
            assert(inv2[j] == shift_from(inv, p)[j]);
            let q = inv[j];
            if q >= p {
                assert(out[q + 1] == before[q]);
            } else {
                assert(out[q] == before[q]);
            }
        }
    }
}

/// The entries of the id-keyed list `v` ordered newest start first.
fn sort_by_start_desc(v: Vec<SessionRef>, Ghost(m): Ghost<Map<Seq<char>, SessionRef>>) -> (r: Vec<
    SessionRef,
>)
    requires
        lists_map(v@, m),
    ensures
        lists_map(r@, m),
        sorted_by_start_desc(r@),
{
    let ghost src = v@;
    let mut out: Vec<SessionRef> = Vec::new();
    let ghost mut perm: Seq<int> = Seq::empty();
    let ghost mut inv: Seq<int> = Seq::empty();
    for x in it: v.into_iter()
        invariant
            it.seq() == src,
            distinct_ids(src),
            sorted_by_start_desc(out@),
            distinct_ids(out@),
            holds_prefix(out@, src, it.index() as int, perm, inv),
    {
        let ghost k = it.index();
        assert(x == src[k as int]);
        let mut p: usize = 0;
        while p < out.len() && starts_no_earlier(out[p].started_at_ms, x.started_at_ms)
            invariant
                p <= out@.len(),
                forall|i: int| 0 <= i < p ==> start_key(#[trigger] out@[i].started_at_ms) >= start_key(x.started_at_ms),
            decreases out@.len() - p,
        {
            p += 1;
        }
        proof {
            lemma_insert_sorted(out@, src, k as int, p as int, perm, inv);
            perm = perm.insert(p as int, k as int);
            inv = shift_from(inv, p as int).push(p as int);
        }
        out.insert(p, x);
    }
    assert forall|id: Seq<char>| #[trigger] m.contains_key(id) implies exists|i: int| 0 <= i < out@.len() && #[trigger] out@[i].id@ == id by {
        let j = choose|j: int| 0 <= j < src.len() && #[trigger] src[j].id@ == id;
        assert(out@[inv[j]] == src[j]);
    }
    assert forall|i: int| 0 <= i < out@.len() implies #[trigger] m.contains_key(out@[i].id@) && m[out@[i].id@] == out@[i] by {
        assert(out@[i] == src[perm[i]]);
        assert(m.contains_key(src[perm[i]].id@));
    }
    out
}

proof fn lemma_insert_all_absent(m: Map<Seq<char>, SessionRef>, refs: Seq<SessionRef>, id: Seq<char>)
    requires
        forall|j: int| 0 <= j < refs.len() ==> (#[trigger] refs[j]).id@ != id,
    ensures
        insert_all(m, refs).contains_key(id) == m.contains_key(id),
        m.contains_key(id) ==> insert_all(m, refs)[id] == m[id],
    decreases refs.len(),
{
    if refs.len() > 0 {
        lemma_insert_all_absent(m, refs.drop_last(), id);
        assert(refs.last() == refs[refs.len() - 1]);
    }
}

proof fn lemma_insert_all_last(m: Map<Seq<char>, SessionRef>, refs: Seq<SessionRef>, i: int)
    requires
        0 <= i < refs.len(),
        forall|j: int| i < j < refs.len() ==> (#[trigger] refs[j]).id@ != refs[i].id@,
    ensures
        insert_all(m, refs).contains_key(refs[i].id@),
        insert_all(m, refs)[refs[i].id@] == refs[i],
    decreases refs.len(),
{
    if i < refs.len() - 1 {
        lemma_insert_all_last(m, refs.drop_last(), i);
        assert(refs.last() == refs[refs.len() - 1]);
    }
}

proof fn lemma_insert_all_domain(m: Map<Seq<char>, SessionRef>, refs: Seq<SessionRef>, id: Seq<char>)
    ensures
        insert_all(m, refs).contains_key(id) <==> (m.contains_key(id) || exists|j: int|
            0 <= j < refs.len() && (#[trigger] refs[j]).id@ == id),
    decreases refs.len(),
{
    if refs.len() > 0 {
        lemma_insert_all_domain(m, refs.drop_last(), id);
        let d = refs.drop_last();
        if exists|j: int| 0 <= j < refs.len() && (#[trigger] refs[j]).id@ == id {
            let j = choose|j: int| 0 <= j < refs.len() && (#[trigger] refs[j]).id@ == id;
            if j < refs.len() - 1 {
                assert(d[j] == refs[j]);
            }
        }
        if exists|j: int| 0 <= j < d.len() && (#[trigger] d[j]).id@ == id {
            let j = choose|j: int| 0 <= j < d.len() && (#[trigger] d[j]).id@ == id;
            assert(refs[j] == d[j]);
        }
    }
}

/// The adapter wins: for a session the adapter reports, the merged view
/// holds the adapter's (last) reference for it, whatever the store holds.
pub proof fn law_adapter_wins(adapter: Seq<SessionRef>, storage: Seq<SessionRef>, i: int)
    requires
        0 <= i < adapter.len(),
        forall|j: int| i < j < adapter.len() ==> (#[trigger] adapter[j]).id@ != adapter[i].id@,
    ensures
        merged_map(adapter, storage).contains_key(adapter[i].id@),
        merged_map(adapter, storage)[adapter[i].id@] == adapter[i],
{
    lemma_insert_all_last(insert_all(Map::empty(), storage), adapter, i);
}

/// Sessions only the store knows (the raw log was rotated away) are kept
/// as the store has them.
pub proof fn law_storage_only_kept(adapter: Seq<SessionRef>, storage: Seq<SessionRef>, i: int)
    requires
        0 <= i < storage.len(),
        forall|j: int| i < j < storage.len() ==> (#[trigger] storage[j]).id@ != storage[i].id@,
        forall|j: int| 0 <= j < adapter.len() ==> (#[trigger] adapter[j]).id@ != storage[i].id@,
    ensures
        merged_map(adapter, storage).contains_key(storage[i].id@),
        merged_map(adapter, storage)[storage[i].id@] == storage[i],
{
    lemma_insert_all_last(Map::empty(), storage, i);
    lemma_insert_all_absent(insert_all(Map::empty(), storage), adapter, storage[i].id@);
}

/// The merge loses and invents no session: its ids are exactly those that
/// either source reports.
pub proof fn law_merge_ids(adapter: Seq<SessionRef>, storage: Seq<SessionRef>, id: Seq<char>)
    ensures
        merged_map(adapter, storage).contains_key(id) <==> ((exists|j: int|
            0 <= j < adapter.len() && (#[trigger] adapter[j]).id@ == id) || (exists|j: int|
            0 <= j < storage.len() && (#[trigger] storage[j]).id@ == id)),
{
    lemma_insert_all_domain(insert_all(Map::empty(), storage), adapter, id);
    lemma_insert_all_domain(Map::empty(), storage, id);
}

// ---------------------------------------------------------------------------
// Data-source plumbing
// ---------------------------------------------------------------------------

/// Why a data source could not answer.
#[derive(Debug, Clone)]
pub enum DataSourceError {
    /// No session with this id.
    NotFound { id: String },
    /// The adapter behind the source named `source` failed.
    Adapter { source: &'static str, underlying: AdapterError },
    /// The store failed.
    Storage { message: String },
}

/// An adapter failure as the error of the data source named `name`.
pub fn wrap_adapter_err(name: &'static str, err: AdapterError) -> (r: DataSourceError)
    ensures
        r == (DataSourceError::Adapter { source: name, underlying: err }),
{
    DataSourceError::Adapter { source: name, underlying: err }
}

/// The store is asked first: its answer stands unless it does not know the
/// session, in which case (or without a store) the adapter is asked.
/// `Ok(None)` means "ask the adapter".
pub fn storage_first<T>(storage: Option<Result<T, DataSourceError>>) -> (r: Result<Option<T>, DataSourceError>)
    ensures
        match storage {
            None => r == Ok::<Option<T>, DataSourceError>(None),
            Some(Ok(t)) => r == Ok::<Option<T>, DataSourceError>(Some(t)),
            Some(Err(e)) => if e is NotFound {
                r == Ok::<Option<T>, DataSourceError>(None)
            } else {
                r == Err::<Option<T>, DataSourceError>(e)
            },
        },
{
    match storage {
        None => Ok(None),
        Some(Ok(t)) => Ok(Some(t)),
        Some(Err(e)) => match e {
            DataSourceError::NotFound { .. } => Ok(None),
            other => Err(other),
        },
    }
}

/// A discovery source over an adapter's on-disk session root.
#[derive(Debug, Clone)]
pub struct AdapterDataSource {
    root: String,
    name: &'static str,
}

impl AdapterDataSource {
    /// The source over `root` for the adapter of `kind`, named after it.
    pub fn new(kind: AgentKind, root: String) -> (r: AdapterDataSource)
        ensures
            r.spec_root() == root@,
            r.spec_name() == spec_name_for(kind),
    {
        AdapterDataSource { root, name: name_for(kind) }
    }

    pub closed spec fn spec_root(&self) -> Seq<char> {
        self.root@
    }

    pub closed spec fn spec_name(&self) -> Seq<char> {
        self.name@
    }

    /// The session root this source scans.
    pub fn root(&self) -> (r: &str)
        ensures
            r@ == self.spec_root(),
    {
        self.root.as_str()
    }

    /// `adapter:<agent>`.
    pub fn name(&self) -> (r: &'static str)
        ensures
            r@ == self.spec_name(),
    {
        self.name
    }
}

// ---------------------------------------------------------------------------
// Aggregation order
// ---------------------------------------------------------------------------

/// `a` may precede `b`: a later start, or the same start and an id that
/// does not sort after `b`'s.
pub open spec fn agg_le(a: SessionRef, b: SessionRef) -> bool {
    start_key(a.started_at_ms) > start_key(b.started_at_ms) || (start_key(a.started_at_ms)
        == start_key(b.started_at_ms) && !lex_lt(b.id@, a.id@))
}

/// Newest start first, ties by ascending id.
pub open spec fn sorted_for_aggregate(v: Seq<SessionRef>) -> bool {
    forall|i: int, j: int| 0 <= i < j < v.len() ==> agg_le(#[trigger] v[i], #[trigger] v[j])
}

proof fn lemma_agg_total(a: SessionRef, b: SessionRef)
    ensures
        agg_le(a, b) || agg_le(b, a),
{
    lemma_lex_total(a.id@, b.id@);
    if lex_lt(b.id@, a.id@) && lex_lt(a.id@, b.id@) {
        lemma_lex_transitive(a.id@, b.id@, a.id@);
        lemma_lex_irreflexive(a.id@);
    }
}

proof fn lemma_agg_transitive(a: SessionRef, b: SessionRef, c: SessionRef)
    requires
        agg_le(a, b),
        agg_le(b, c),
    ensures
        agg_le(a, c),
{
    if start_key(a.started_at_ms) == start_key(b.started_at_ms) && start_key(b.started_at_ms)
        == start_key(c.started_at_ms) {
        if lex_lt(c.id@, a.id@) {
            lemma_lex_total(a.id@, b.id@);
            if a.id@ == b.id@ {
            } else if lex_lt(a.id@, b.id@) {
                lemma_lex_transitive(c.id@, a.id@, b.id@);
            }
        }
    }
}

proof fn lemma_insert_agg(
    before: Seq<SessionRef>,
    src: Seq<SessionRef>,
    k: int,
    p: int,
    perm: Seq<int>,
    inv: Seq<int>,
)
    requires
        0 <= k < src.len(),
        0 <= p <= before.len(),
        sorted_for_aggregate(before),
        holds_prefix(before, src, k, perm, inv),
        forall|i: int| 0 <= i < p ==> agg_le(#[trigger] before[i], src[k]),
        p < before.len() ==> !agg_le(before[p], src[k]),
    ensures
        sorted_for_aggregate(before.insert(p, src[k])),
        holds_prefix(before.insert(p, src[k]), src, k + 1, perm.insert(p, k), shift_from(inv, p).push(p)),
{
    let x = src[k];
    let out = before.insert(p, x);
    if p < before.len() {
        lemma_agg_total(before[p], x);
    }
    assert forall|i: int, j: int| 0 <= i < j < out.len() implies agg_le(#[trigger] out[i], #[trigger] out[j]) by {
        if i < p && j == p {
        } else if i == p && j > p {
            assert(out[j] == before[j - 1]);
            if j - 1 > p {
                lemma_agg_transitive(x, before[p], before[j - 1]);
            }
        } else {
            let ii = if i < p { i } else { i - 1 };
            let jj = if j < p { j } else { j - 1 };
            assert(out[i] == before[ii]);
            assert(out[j] == before[jj]);
        }
    }
    let perm2 = perm.insert(p, k);
    let inv2 = shift_from(inv, p).push(p);
    assert forall|i: int| 0 <= i < k + 1 implies 0 <= #[trigger] perm2[i] < k + 1 && out[i] == src[perm2[i]] by {
        if i < p {
            assert(perm2[i] == perm[i]);
        } else if i > p {
            assert(perm2[i] == perm[i - 1]);
        }
    }
    assert forall|j: int| 0 <= j < k + 1 implies 0 <= #[trigger] inv2[j] < k + 1 && out[inv2[j]] == src[j] by {
        if j < k {
            assert(inv2[j] == shift_from(inv, p)[j]);
            let q = inv[j];
            if q >= p {
                assert(out[q + 1] == before[q]);
            } else {
                assert(out[q] == before[q]);
            }
        }
    }
}

/// The references in the order cross-session aggregation reads them:
/// newest start first (unknown starts last), ties by ascending id.
pub fn sort_for_aggregate(refs: Vec<SessionRef>) -> (r: Vec<SessionRef>)
    ensures
        sorted_for_aggregate(r@),
        exists|perm: Seq<int>, inv: Seq<int>| holds_prefix(r@, refs@, refs@.len() as int, perm, inv),
{
    let ghost src = refs@;
    let mut out: Vec<SessionRef> = Vec::new();
    let ghost mut perm: Seq<int> = Seq::empty();
    let ghost mut inv: Seq<int> = Seq::empty();
    for x in it: refs.into_iter()
        invariant
            it.seq() == src,
            sorted_for_aggregate(out@),
            holds_prefix(out@, src, it.index() as int, perm, inv),
    {
        let ghost k = it.index();
        assert(x == src[k as int]);
        let mut p: usize = 0;
        while p < out.len() && agg_before_or_tie(&out[p], &x)
            invariant
                p <= out@.len(),
                forall|i: int| 0 <= i < p ==> agg_le(#[trigger] out@[i], x),
            decreases out@.len() - p,
        {
            p += 1;
        }
        proof {
            lemma_insert_agg(out@, src, k as int, p as int, perm, inv);
            perm = perm.insert(p as int, k as int);
            inv = shift_from(inv, p as int).push(p as int);
        }
        out.insert(p, x);
    }
    assert(holds_prefix(out@, src, src.len() as int, perm, inv));
    out
}

fn agg_before_or_tie(a: &SessionRef, b: &SessionRef) -> (r: bool)
    ensures
        r == agg_le(*a, *b),
{
    let ka = a.started_at_ms;
    let kb = b.started_at_ms;
    if starts_no_earlier(ka, kb) && !starts_no_earlier(kb, ka) {
        return true;
    }
    if !starts_no_earlier(ka, kb) {
        return false;
    }
    let ia = crate::text::chars_of(a.id.as_str());
    let ib = crate::text::chars_of(b.id.as_str());
    !crate::order::lex_less(ib.as_slice(), ia.as_slice())
}

} // verus!
