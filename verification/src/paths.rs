//! Discovery of Copilot CLI sessions on disk.
//!
//! Each session is a directory under the session root holding an
//! `events.jsonl` log; a live session also holds an `inuse.<pid>.lock`
//! file. The directory walk itself happens outside this module: it hands
//! over one [`SessionDirEntry`] per directory that has a regular
//! `events.jsonl`, and this module decides each session's id and liveness
//! and orders the sessions newest first.

use vstd::prelude::*;
use crate::event::{UtcTimestamp, ts_lt};
use crate::refs::{AdapterRef, AgentKind};
use crate::text::chars_of;

verus! {

/// `c` is the ASCII letter `lower` in either case.
pub open spec fn ci(c: char, lower: char, upper: char) -> bool {
    c == lower || c == upper
}

/// The text after the last `.` of `name`.
pub open spec fn after_last_dot(name: Seq<char>) -> Seq<char>
    decreases name.len(),
{
    if name.len() == 0 {
        Seq::empty()
    } else if name.last() == '.' {
        Seq::empty()
    } else {
        after_last_dot(name.drop_last()).push(name.last())
    }
}

/// A live-session lock file name: `inuse.` followed by anything, with the
/// extension `lock` in any ASCII case. (For such a name the extension that
/// `Path::extension` reports is exactly the text after the last `.`, since
/// the name has a `.` past its first character.)
pub open spec fn is_lock_name(name: Seq<char>) -> bool {
    let ext = after_last_dot(name);
    &&& "inuse."@.is_prefix_of(name)
    &&& ext.len() == 4
    &&& ci(ext[0], 'l', 'L')
    &&& ci(ext[1], 'o', 'O')
    &&& ci(ext[2], 'c', 'C')
    &&& ci(ext[3], 'k', 'K')
}

/// `true` for a file name of the form `inuse.*.lock` (see [`is_lock_name`]).
pub fn is_inuse_lock_name(name: &str) -> (r: bool)
    ensures
        r == is_lock_name(name@),
{
    proof {
        reveal_strlit("inuse.");
    }
    let cs = chars_of(name);
    let prefix = chars_of("inuse.");
    if !crate::text::starts_with_chars(cs.as_slice(), prefix.as_slice()) {
        return false;
    }
    let n = cs.len();
    let mut start: usize = n;
    assert(cs@.take(n as int) =~= cs@);
    assert(cs@.subrange(n as int, n as int) =~= Seq::<char>::empty());
    assert(after_last_dot(cs@) =~= after_last_dot(cs@.take(n as int)) + cs@.subrange(n as int, n as int));
    while start > 0 && cs[start - 1] != '.'
        invariant
            start <= n,
            n == cs@.len(),
            after_last_dot(cs@) == after_last_dot(cs@.take(start as int)) + cs@.subrange(start as int, n as int),
        decreases start,
    {
        proof {
            assert(cs@.take(start as int).drop_last() =~= cs@.take(start - 1));
            assert(cs@.subrange(start - 1, n as int) =~= seq![cs@[start - 1]] + cs@.subrange(start as int, n as int));
            assert(after_last_dot(cs@.take(start - 1)) + cs@.subrange(start - 1, n as int)
                =~= after_last_dot(cs@.take(start - 1)).push(cs@[start - 1]) + cs@.subrange(start as int, n as int));
        }
        start -= 1;
    }
    proof {
        assert(cs@.take(n as int) =~= cs@);
        if start > 0 {
            assert(cs@.take(start as int).last() == '.');
        }
        assert(after_last_dot(cs@.take(start as int)) =~= Seq::<char>::empty());
        assert(after_last_dot(cs@) =~= cs@.subrange(start as int, n as int));
    }
    if n - start != 4 {
        return false;
    }
    let (a, b, c, d) = (cs[start], cs[start + 1], cs[start + 2], cs[start + 3]);
    (a == 'l' || a == 'L') && (b == 'o' || b == 'O') && (c == 'c' || c == 'C') && (d == 'k' || d == 'K')
}

/// `true` when any of a session directory's file names is a lock file.
pub fn has_inuse_lock(names: &[String]) -> (r: bool)
    ensures
        r == exists|i: int| 0 <= i < names@.len() && is_lock_name(#[trigger] names@[i]@),
{
    let mut i: usize = 0;
    while i < names.len()
        invariant
            i <= names@.len(),
            forall|j: int| 0 <= j < i ==> !is_lock_name(#[trigger] names@[j]@),
        decreases names@.len() - i,
    {
        if is_inuse_lock_name(names[i].as_str()) {
            return true;
        }
        i += 1;
    }
    false
}

/// What the directory walk reports for one session directory that holds
/// a regular `events.jsonl`.
#[derive(Debug, Clone)]
pub struct SessionDirEntry {
    /// The directory's name, when it is valid UTF-8.
    pub dir_name: Option<String>,
    /// The directory's full path, lossily converted to text.
    pub dir_path: String,
    /// Path of its `events.jsonl`.
    pub events_path: String,
    /// Modification time of `events.jsonl` (the Unix epoch when unknown).
    pub modified_at: UtcTimestamp,
    /// Size of `events.jsonl` in bytes.
    pub size_bytes: u64,
    /// Names of the files in the directory.
    pub file_names: Vec<String>,
}

/// The reference a session directory gives: named after the directory
/// (its full path when the name is not UTF-8), live when a lock file sits
/// beside the log.
pub open spec fn entry_ref_ok(e: SessionDirEntry, r: AdapterRef) -> bool {
    &&& r.id@ == match e.dir_name {
        Some(n) => n@,
        None => e.dir_path@,
    }
    &&& r.agent == AgentKind::Copilot
    &&& r.path == e.events_path
    &&& r.modified_at == e.modified_at
    &&& r.size_bytes == e.size_bytes
    &&& r.is_live == exists|i: int| 0 <= i < e.file_names@.len() && is_lock_name(#[trigger] e.file_names@[i]@)
}

/// Newest modification first.
pub open spec fn sorted_newest_first(v: Seq<AdapterRef>) -> bool {
    forall|i: int, j: int|
        0 <= i < j < v.len() ==> !ts_lt(#[trigger] v[i].modified_at, #[trigger] v[j].modified_at)
}

/// `out[i]` is `src[perm[i]]`, `src[j]` is `out[inv[j]]`, and entries with
/// equal times keep their original order.
pub open spec fn stable_perm(out: Seq<AdapterRef>, src: Seq<AdapterRef>, perm: Seq<int>, inv: Seq<int>) -> bool {
    &&& out.len() == src.len()
    &&& perm.len() == out.len()
    &&& inv.len() == src.len()
    &&& forall|i: int| 0 <= i < out.len() ==> 0 <= #[trigger] perm[i] < src.len() && out[i] == src[perm[i]]
    &&& forall|j: int| 0 <= j < src.len() ==> 0 <= #[trigger] inv[j] < out.len() && out[inv[j]] == src[j]
    &&& forall|i: int, j: int|
        0 <= i < j < out.len() && out[i].modified_at == out[j].modified_at ==> #[trigger] perm[i] < #[trigger] perm[j]
}

pub open spec fn shift_from(inv: Seq<int>, p: int) -> Seq<int> {
    Seq::new(inv.len(), |j: int| if inv[j] >= p { inv[j] + 1 } else { inv[j] })
}

proof fn lemma_insert_stable(
    before: Seq<AdapterRef>,
    src: Seq<AdapterRef>,
    k: int,
    p: int,
    perm: Seq<int>,
    inv: Seq<int>,
)
    requires
        0 <= k < src.len(),
        0 <= p <= before.len(),
        sorted_newest_first(before),
        stable_perm(before, src.take(k), perm, inv),
        forall|i: int| 0 <= i < p ==> !ts_lt(#[trigger] before[i].modified_at, src[k].modified_at),
        p < before.len() ==> ts_lt(before[p].modified_at, src[k].modified_at),
    ensures
        sorted_newest_first(before.insert(p, src[k])),
        stable_perm(before.insert(p, src[k]), src.take(k + 1), perm.insert(p, k), shift_from(inv, p).push(p)),
{
    let x = src[k];
    let out = before.insert(p, x);
    let s1 = src.take(k + 1);
    let perm2 = perm.insert(p, k);
    let inv2 = shift_from(inv, p).push(p);
    assert forall|i: int, j: int| 0 <= i < j < out.len() implies !ts_lt(
        #[trigger] out[i].modified_at,
        #[trigger] out[j].modified_at,
    ) by {
        if i < p && j == p {
        } else if i == p && j > p {
            assert(out[j] == before[j - 1]);
            if j - 1 > p {
                assert(!ts_lt(before[p].modified_at, before[j - 1].modified_at));
            }
        } else {
            let ii = if i < p { i } else { i - 1 };
            let jj = if j < p { j } else { j - 1 };
            assert(out[i] == before[ii]);
            assert(out[j] == before[jj]);
        }
    }
    assert forall|i: int| 0 <= i < out.len() implies 0 <= #[trigger] perm2[i] < s1.len() && out[i] == s1[perm2[i]] by {
        if i < p {
            assert(perm2[i] == perm[i]);
            assert(s1[perm[i]] == src.take(k)[perm[i]]);
        } else if i > p {
            assert(perm2[i] == perm[i - 1]);
            assert(s1[perm[i - 1]] == src.take(k)[perm[i - 1]]);
        }
    }
    assert forall|j: int| 0 <= j < s1.len() implies 0 <= #[trigger] inv2[j] < out.len() && out[inv2[j]] == s1[j] by {
        if j < k {
            assert(inv2[j] == shift_from(inv, p)[j]);
            assert(s1[j] == src.take(k)[j]);
            let q = inv[j];
            if q >= p {
                assert(out[q + 1] == before[q]);
            } else {
                assert(out[q] == before[q]);
            }
        }
    }
    assert forall|i: int, j: int|
        0 <= i < j < out.len() && out[i].modified_at == out[j].modified_at implies #[trigger] perm2[i] < #[trigger] perm2[j] by {
        if i == p {
            assert(out[j] == before[j - 1]);
            if p < before.len() {
                assert(!ts_lt(before[p].modified_at, before[j - 1].modified_at) || j - 1 == p);
            }
        } else if j == p {
            assert(perm2[i] == perm[i]);
        } else {
            let ii = if i < p { i } else { i - 1 };
            let jj = if j < p { j } else { j - 1 };
            assert(out[i] == before[ii]);
            assert(out[j] == before[jj]);
            assert(perm2[i] == perm[ii]);
            assert(perm2[j] == perm[jj]);
        }
    }
}

/// The session references of the directories a walk found, newest
/// modification first; sessions modified at the same time keep the walk's
/// order.
pub fn assemble_discovered(entries: Vec<SessionDirEntry>) -> (r: Vec<AdapterRef>)
    ensures
        r@.len() == entries@.len(),
        sorted_newest_first(r@),
        exists|perm: Seq<int>|
            #![trigger perm.len()]
            perm.len() == r@.len() && (forall|i: int|
                0 <= i < r@.len() ==> 0 <= #[trigger] perm[i] < entries@.len() && entry_ref_ok(
                    entries@[perm[i]],
                    r@[i],
                )) && (forall|i: int, j: int|
                0 <= i < j < r@.len() ==> #[trigger] perm[i] != #[trigger] perm[j]) && (forall|i: int, j: int|
                0 <= i < j < r@.len() && r@[i].modified_at == r@[j].modified_at ==> #[trigger] perm[i] < #[trigger] perm[j]),
{
    let ghost es = entries@;
    let mut refs: Vec<AdapterRef> = Vec::new();
    for e in it: entries.into_iter()
        invariant
            it.seq() == es,
            refs@.len() == it.index(),
            forall|i: int| 0 <= i < refs@.len() ==> #[trigger] entry_ref_ok(es[i], refs@[i]),
    {
        let is_live = has_inuse_lock(e.file_names.as_slice());
        let id = match e.dir_name {
            Some(n) => n,
            None => e.dir_path,
        };
        refs.push(
            AdapterRef {
                id,
                agent: AgentKind::Copilot,
                path: e.events_path,
                modified_at: e.modified_at,
                size_bytes: e.size_bytes,
                is_live,
            },
        );
    }
    let ghost src = refs@;
    let mut out: Vec<AdapterRef> = Vec::new();
    let ghost mut perm: Seq<int> = Seq::empty();
    let ghost mut inv: Seq<int> = Seq::empty();
    assert(src.take(0) =~= Seq::<AdapterRef>::empty());
    for x in it: refs.into_iter()
        invariant
            it.seq() == src,
            src.len() == es.len(),
            forall|i: int| 0 <= i < src.len() ==> #[trigger] entry_ref_ok(es[i], src[i]),
            sorted_newest_first(out@),
            stable_perm(out@, src.take(it.index() as int), perm, inv),
    {
        let ghost k = it.index();
        assert(x == src[k as int]);
        let mut p: usize = 0;
        while p < out.len() && !out[p].modified_at.is_before(&x.modified_at)
            invariant
                p <= out@.len(),
                forall|i: int| 0 <= i < p ==> !ts_lt(#[trigger] out@[i].modified_at, x.modified_at),
            decreases out@.len() - p,
        {
            p += 1;
        }
        proof {
            lemma_insert_stable(out@, src, k as int, p as int, perm, inv);
            perm = perm.insert(p as int, k as int);
            inv = shift_from(inv, p as int).push(p as int);
        }
        out.insert(p, x);
    }
    assert(src.take(src.len() as int) =~= src);
    assert forall|i: int, j: int| 0 <= i < j < out@.len() implies #[trigger] perm[i] != #[trigger] perm[j] by {
        if perm[i] == perm[j] {
            assert(out@[i] == src[perm[i]]);
            assert(out@[j] == src[perm[j]]);
            assert(perm[i] < perm[j]);
        }
    }
    assert(perm.len() == out@.len());
    out
}

} // verus!
