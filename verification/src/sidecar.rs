//! The MCP tool-description sidecar: tool entries keyed by their full
//! name `mcp__<server>__<tool>`, built from per-server lists of entries
//! (a global file maps servers to lists; a directory holds one
//! `<server>.json` file per server).

use vstd::prelude::*;
use crate::event::JsonValue;
use crate::pathname::{path_extension, path_file_stem, spec_path_extension, spec_path_file_stem};
use crate::text::{chars_of, push_str};
use crate::order::chars_eq;

verus! {

/// One tool description, in the shape of an MCP `tools/list` entry.
#[derive(Debug)]
pub struct ToolEntry {
    /// Tool name, without the `mcp__<server>__` prefix.
    pub name: String,
    /// Human-readable description.
    pub description: Option<String>,
    /// JSON schema of the tool's input.
    pub input_schema: Option<JsonValue>,
    /// MCP annotations object.
    pub annotations: Option<JsonValue>,
}

/// The full name of a server's tool: `mcp__<server>__<name>`.
pub open spec fn full_name_spec(server: Seq<char>, name: Seq<char>) -> Seq<char> {
    "mcp__"@ + server + "__"@ + name
}

/// `mcp__<server>__<name>`.
pub fn full_tool_name(server: &str, name: &str) -> (r: String)
    ensures
        r@ == full_name_spec(server@, name@),
{
    proof {
        reveal_strlit("mcp__");
        reveal_strlit("__");
    }
    let mut s = String::new();
    push_str(&mut s, "mcp__");
    push_str(&mut s, server);
    push_str(&mut s, "__");
    push_str(&mut s, name);
    s
}

/// The entries of one server's list keyed by full name, added to `m`;
/// a later entry replaces an earlier one with the same full name.
pub open spec fn server_insert(
    m: Map<Seq<char>, ToolEntry>,
    server: Seq<char>,
    entries: Seq<ToolEntry>,
) -> Map<Seq<char>, ToolEntry>
    decreases entries.len(),
{
    if entries.len() == 0 {
        m
    } else {
        server_insert(m, server, entries.drop_last()).insert(
            full_name_spec(server, entries.last().name@),
            entries.last(),
        )
    }
}

/// Every group's entries keyed by full name, groups in order.
pub open spec fn groups_map(groups: Seq<(String, Vec<ToolEntry>)>) -> Map<Seq<char>, ToolEntry>
    decreases groups.len(),
{
    if groups.len() == 0 {
        Map::empty()
    } else {
        server_insert(groups_map(groups.drop_last()), groups.last().0@, groups.last().1@)
    }
}

/// Loaded tool descriptions, keyed by full name.
#[derive(Debug)]
pub struct Sidecar {
    entries: Vec<(String, ToolEntry)>,
}

/// No full name occurs twice.
pub open spec fn distinct_keys(v: Seq<(String, ToolEntry)>) -> bool {
    forall|i: int, j: int| 0 <= i < j < v.len() ==> (#[trigger] v[i]).0@ != (#[trigger] v[j]).0@
}

/// `v` holds exactly the entries of `m`, each under its own key, once.
pub open spec fn holds_map(v: Seq<(String, ToolEntry)>, m: Map<Seq<char>, ToolEntry>) -> bool {
    &&& distinct_keys(v)
    &&& forall|i: int| 0 <= i < v.len() ==> #[trigger] m.contains_key(v[i].0@) && m[v[i].0@] == v[i].1
    &&& forall|k: Seq<char>| #[trigger] m.contains_key(k) ==> exists|i: int| 0 <= i < v.len() && #[trigger] v[i].0@ == k
}

impl Sidecar {
    #[verifier::type_invariant]
    spec fn keys_distinct(self) -> bool {
        distinct_keys(self.entries@)
    }

    /// The entries by full name.
    pub closed spec fn view(&self) -> Map<Seq<char>, ToolEntry> {
        Map::new(
            |k: Seq<char>| exists|i: int| 0 <= i < self.entries@.len() && #[trigger] self.entries@[i].0@ == k,
            |k: Seq<char>| self.entries@[choose|i: int| 0 <= i < self.entries@.len() && #[trigger] self.entries@[i].0@ == k].1,
        )
    }

    /// Number of distinct full names loaded.
    pub closed spec fn count(&self) -> nat {
        self.entries@.len()
    }

    proof fn lemma_view_holds(&self)
        requires
            distinct_keys(self.entries@),
        ensures
            holds_map(self.entries@, self@),
    {
        assert forall|i: int| 0 <= i < self.entries@.len() implies #[trigger] self@.contains_key(
            self.entries@[i].0@,
        ) && self@[self.entries@[i].0@] == self.entries@[i].1 by {
            let k = self.entries@[i].0@;
            let j = choose|j: int| 0 <= j < self.entries@.len() && #[trigger] self.entries@[j].0@ == k;
            if j != i {
                if j < i {
                    assert(self.entries@[j].0@ != self.entries@[i].0@);
                } else {
                    assert(self.entries@[i].0@ != self.entries@[j].0@);
                }
            }
        }
    }

    /// The sidecar of per-server entry lists (server name, entries), keyed
    /// by `mcp__<server>__<name>`; later entries replace earlier ones with
    /// the same full name.
    pub fn from_server_groups(groups: Vec<(String, Vec<ToolEntry>)>) -> (r: Sidecar)
        ensures
            r@ == groups_map(groups@),
    {
        let ghost gs = groups@;
        let mut entries: Vec<(String, ToolEntry)> = Vec::new();
        for group in it: groups.into_iter()
            invariant
                it.seq() == gs,
                holds_map(entries@, groups_map(gs.take(it.index() as int))),
        {
            let ghost k = it.index();
            assert(gs.take(k + 1).drop_last() =~= gs.take(k as int));
            assert(gs.take(k + 1).last() == group);
            let (server, tools) = group;
            let ghost base = groups_map(gs.take(k as int));
            let ghost ts = tools@;
            for entry in jt: tools.into_iter()
                invariant
                    jt.seq() == ts,
                    holds_map(entries@, server_insert(base, server@, ts.take(jt.index() as int))),
            {
                let ghost j = jt.index();
                assert(ts.take(j + 1).drop_last() =~= ts.take(j as int));
                assert(ts.take(j + 1).last() == entry);
                let full = full_tool_name(server.as_str(), entry.name.as_str());
                upsert_entry(&mut entries, full, entry, Ghost(server_insert(base, server@, ts.take(j as int))));
            }
            assert(ts.take(ts.len() as int) =~= ts);
        }
        assert(gs.take(gs.len() as int) =~= gs);
        let r = Sidecar { entries };
        proof {
            r.lemma_view_holds();
            let m = groups_map(gs);
            assert forall|key: Seq<char>| r@.contains_key(key) <==> m.contains_key(key) by {
                if m.contains_key(key) {
                    let i = choose|i: int| 0 <= i < r.entries@.len() && #[trigger] r.entries@[i].0@ == key;
                }
            }
            assert(r@ =~= m);
        }
        r
    }

    /// The entry for `full_name` (`mcp__<server>__<tool>`), if loaded.
    pub fn lookup_concrete(&self, full_name: &str) -> (r: Option<&ToolEntry>)
        ensures
            match r {
                Some(e) => self@.contains_key(full_name@) && *e == self@[full_name@],
                None => !self@.contains_key(full_name@),
            },
    {
        proof {
            use_type_invariant(self);
            self.lemma_view_holds();
        }
        let key = chars_of(full_name);
        let mut i: usize = 0;
        while i < self.entries.len()
            invariant
                key@ == full_name@,
                holds_map(self.entries@, self@),
                i <= self.entries@.len(),
                forall|j: int| 0 <= j < i ==> (#[trigger] self.entries@[j]).0@ != full_name@,
            decreases self.entries@.len() - i,
        {
            let k = chars_of(self.entries[i].0.as_str());
            if chars_eq(k.as_slice(), key.as_slice()) {
                return Some(&self.entries[i].1);
            }
            i += 1;
        }
        None
    }

    /// Number of entries loaded: the number of distinct full names.
    pub fn len(&self) -> (r: usize)
        ensures
            r == self.count(),
            r == self@.dom().len(),
    {
        proof {
            use_type_invariant(self);
            self.lemma_view_holds();
            let keys = Seq::new(self.entries@.len(), |i: int| self.entries@[i].0@);
            assert(keys.no_duplicates()) by {
                assert forall|i: int, j: int| 0 <= i < keys.len() && 0 <= j < keys.len() && i != j implies keys[i] != keys[j] by {
                    if i < j {
                        assert(self.entries@[i].0@ != self.entries@[j].0@);
                    } else {
                        assert(self.entries@[j].0@ != self.entries@[i].0@);
                    }
                }
            }
            keys.unique_seq_to_set();
            assert(keys.to_set() =~= self@.dom()) by {
                assert forall|k: Seq<char>| self@.dom().contains(k) implies keys.to_set().contains(k) by {
                    let i = choose|i: int| 0 <= i < self.entries@.len() && #[trigger] self.entries@[i].0@ == k;
                    assert(keys[i] == k);
                }
                assert forall|k: Seq<char>| keys.to_set().contains(k) implies self@.dom().contains(k) by {
                    let i = choose|i: int| 0 <= i < keys.len() && keys[i] == k;
                    assert(self.entries@[i].0@ == k);
                }
            }
        }
        self.entries.len()
    }

    /// `true` when nothing is loaded.
    pub fn is_empty(&self) -> (r: bool)
        ensures
            r == (self.count() == 0),
            r == (self@ == Map::<Seq<char>, ToolEntry>::empty()),
    {
        proof {
            use_type_invariant(self);
            self.lemma_view_holds();
            if self.entries@.len() > 0 {
                assert(self@.contains_key(self.entries@[0].0@));
            } else {
                assert(self@ =~= Map::<Seq<char>, ToolEntry>::empty());
            }
        }
        self.entries.len() == 0
    }

}

/// Index of the entry keyed `key`, if any.
fn find_key(v: &Vec<(String, ToolEntry)>, key: &String) -> (r: Option<usize>)
    ensures
        match r {
            Some(i) => i < v@.len() && v@[i as int].0@ == key@,
            None => forall|j: int| 0 <= j < v@.len() ==> (#[trigger] v@[j]).0@ != key@,
        },
{
    let mut i: usize = 0;
    while i < v.len()
        invariant
            i <= v@.len(),
            forall|j: int| 0 <= j < i ==> (#[trigger] v@[j]).0@ != key@,
        decreases v@.len() - i,
    {
        if v[i].0 == *key {
            return Some(i);
        }
        i += 1;
    }
    None
}

/// Puts `(key, e)` into the key-distinct list `v`, replacing the entry
/// with the same key.
fn upsert_entry(
    v: &mut Vec<(String, ToolEntry)>,
    key: String,
    e: ToolEntry,
    Ghost(m): Ghost<Map<Seq<char>, ToolEntry>>,
)
    requires
        holds_map(old(v)@, m),
    ensures
        holds_map(final(v)@, m.insert(key@, e)),
{
    let ghost m2 = m.insert(key@, e);
    let ghost kv = key@;
    let ghost ov = v@;
    let found = find_key(v, &key);
    if let Some(i) = found {
        v.set(i, (key, e));
        assert(v@ == ov.update(i as int, (key, e)));
        assert forall|a: int, b: int| 0 <= a < b < v@.len() implies (#[trigger] v@[a]).0@
            != (#[trigger] v@[b]).0@ by {
            assert(ov[a].0@ != ov[b].0@);
        }
        assert forall|a: int| 0 <= a < v@.len() implies #[trigger] m2.contains_key(v@[a].0@)
            && m2[v@[a].0@] == v@[a].1 by {
            if a != i {
                assert(m.contains_key(ov[a].0@));
            }
        }
        assert forall|k: Seq<char>| #[trigger] m2.contains_key(k) implies exists|j: int|
            0 <= j < v@.len() && #[trigger] v@[j].0@ == k by {
            if k == kv {
                assert(v@[i as int].0@ == k);
            } else {
                let j = choose|j: int| 0 <= j < ov.len() && #[trigger] ov[j].0@ == k;
                assert(v@[j].0@ == k);
            }
        }
    } else {
        v.push((key, e));
        assert(v@ == ov.push((key, e)));
        assert forall|a: int, b: int| 0 <= a < b < v@.len() implies (#[trigger] v@[a]).0@
            != (#[trigger] v@[b]).0@ by {
            if b < ov.len() {
                assert(ov[a].0@ != ov[b].0@);
            }
        }
        assert forall|a: int| 0 <= a < v@.len() implies #[trigger] m2.contains_key(v@[a].0@)
            && m2[v@[a].0@] == v@[a].1 by {
            if a < ov.len() {
                assert(m.contains_key(ov[a].0@));
            }
        }
        assert forall|k: Seq<char>| #[trigger] m2.contains_key(k) implies exists|j: int|
            0 <= j < v@.len() && #[trigger] v@[j].0@ == k by {
            if k == kv {
                assert(v@[v@.len() - 1].0@ == k);
            } else {
                let j = choose|j: int| 0 <= j < ov.len() && #[trigger] ov[j].0@ == k;
                assert(v@[j].0@ == k);
            }
        }
    }
}

/// The server a file of a per-server sidecar directory describes: the
/// file's stem, for a file with the `json` extension; `None` for any other
/// file, which is skipped.
pub open spec fn sidecar_file_server_spec(path: Seq<char>) -> Option<Seq<char>> {
    if spec_path_extension(path) == Some("json"@) {
        spec_path_file_stem(path)
    } else {
        None
    }
}

/// The server name a per-server sidecar file stands for, or `None` when
/// the file is not a `.json` file and is to be skipped.
pub fn sidecar_file_server(path: &str) -> (r: Option<String>)
    ensures
        crate::pathname::opt_seq(r) == sidecar_file_server_spec(path@),
{
    proof {
        reveal_strlit("json");
    }
    let is_json = match path_extension(path) {
        Some(e) => {
            let ec = chars_of(e.as_str());
            let want = chars_of("json");
            chars_eq(ec.as_slice(), want.as_slice())
        },
        None => false,
    };
    if is_json {
        path_file_stem(path)
    } else {
        None
    }
}

} // verus!
