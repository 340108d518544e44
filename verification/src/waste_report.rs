//! The cross-session MCP waste report of `mcp-waste`: the rows its tables
//! show and its Markdown rendering.

use vstd::prelude::*;
use crate::order::chars_eq;
use crate::text::{chars_of, decimal, push_str, u64_decimal};

verus! {

/// One tool of a server, across the sessions aggregated.
#[derive(Debug, Clone)]
pub struct ToolUsage {
    pub tool_name: String,
    /// Sessions that loaded the tool.
    pub sessions_loaded: usize,
    /// Calls of the tool, summed over the sessions.
    pub total_call_count: usize,
}

/// One MCP server, across the sessions aggregated.
#[derive(Debug, Clone)]
pub struct ServerWaste {
    pub server: String,
    /// Sessions that loaded the server.
    pub sessions_loaded: usize,
    /// Sessions that loaded it and called none of its tools.
    pub sessions_with_zero_calls: usize,
    /// Schema tokens of its unused tools, summed over the sessions.
    pub total_unused_tokens: u64,
    pub tool_usage: Vec<ToolUsage>,
}

/// The waste aggregate over a set of sessions.
#[derive(Debug, Clone)]
pub struct WasteAggregate {
    /// Sessions analyzed.
    pub sessions: usize,
    pub per_server: Vec<ServerWaste>,
    /// Tools loaded somewhere and called nowhere, in report order.
    pub never_called_tools: Vec<String>,
    /// Unused schema tokens over all servers and sessions.
    pub total_unused_tokens: u64,
}

/// A row of the "always unused" table.
#[derive(Debug, Clone)]
pub struct NeverCalledRow {
    pub tool: String,
    pub server: String,
    pub sessions_loaded: usize,
    pub tokens: u64,
}

/// A row of the per-server table.
#[derive(Debug, Clone)]
pub struct PerServerRow {
    pub server: String,
    pub sessions_loaded: usize,
    pub sessions_with_zero_calls: usize,
    pub total_calls: usize,
    pub wasted_tokens: u64,
}

fn str_eq(a: &str, b: &str) -> (r: bool)
    ensures
        r == (a@ == b@),
{
    let x = chars_of(a);
    let y = chars_of(b);
    chars_eq(x.as_slice(), y.as_slice())
}

// ---------------------------------------------------------------------------
// Lookups
// ---------------------------------------------------------------------------

/// `sessions_loaded` of the last tool of `tools` named `name`.
pub open spec fn usage_of(tools: Seq<ToolUsage>, name: Seq<char>) -> Option<usize>
    decreases tools.len(),
{
    if tools.len() == 0 {
        None
    } else if tools.last().tool_name@ == name {
        Some(tools.last().sessions_loaded)
    } else {
        usage_of(tools.drop_last(), name)
    }
}

/// The server listing the tool `name`, with the tool's `sessions_loaded`:
/// when several servers (or entries) list it, the last one in server and
/// tool order.
pub open spec fn owner_of(servers: Seq<ServerWaste>, name: Seq<char>) -> Option<(Seq<char>, usize)>
    decreases servers.len(),
{
    if servers.len() == 0 {
        None
    } else {
        match usage_of(servers.last().tool_usage@, name) {
            Some(n) => Some((servers.last().server@, n)),
            None => owner_of(servers.drop_last(), name),
        }
    }
}

/// The server and `sessions_loaded` an "always unused" row shows for
/// `name`: its owner, or `(unknown)` and 0 when no server lists it.
pub open spec fn row_owner(servers: Seq<ServerWaste>, name: Seq<char>) -> (Seq<char>, usize) {
    match owner_of(servers, name) {
        Some(o) => o,
        None => ("(unknown)"@, 0usize),
    }
}

/// The per-session token figure of the tool `name` (the last entry under
/// that name), 0 when there is none.
pub open spec fn tokens_of(tokens: Seq<(String, u64)>, name: Seq<char>) -> u64
    decreases tokens.len(),
{
    if tokens.len() == 0 {
        0
    } else if tokens.last().0@ == name {
        tokens.last().1
    } else {
        tokens_of(tokens.drop_last(), name)
    }
}

fn find_owner(servers: &Vec<ServerWaste>, name: &str) -> (r: Option<(usize, usize)>)
    ensures
        match r {
            Some((s, n)) => s < servers@.len() && owner_of(servers@, name@) == Some((servers@[s as int].server@, n)),
            None => owner_of(servers@, name@) is None,
        },
{
    let mut found: Option<(usize, usize)> = None;
    let mut i: usize = 0;
    while i < servers.len()
        invariant
            i <= servers@.len(),
            match found {
                Some((s, n)) => s < i && owner_of(servers@.take(i as int), name@) == Some((servers@[s as int].server@, n)),
                None => owner_of(servers@.take(i as int), name@) is None,
            },
        decreases servers@.len() - i,
    {
        let tools = &servers[i].tool_usage;
        let ghost prev = found;
        let mut j: usize = 0;
        while j < tools.len()
            invariant
                i < servers@.len(),
                tools == servers@[i as int].tool_usage,
                j <= tools@.len(),
                match usage_of(tools@.take(j as int), name@) {
                    Some(n) => found == Some((i, n)),
                    None => found == prev,
                },
                match prev {
                    Some((s, n)) => s < i && owner_of(servers@.take(i as int), name@) == Some((servers@[s as int].server@, n)),
                    None => owner_of(servers@.take(i as int), name@) is None,
                },
            decreases tools@.len() - j,
        {
            assert(tools@.take(j + 1).drop_last() =~= tools@.take(j as int));
            if str_eq(tools[j].tool_name.as_str(), name) {
                found = Some((i, tools[j].sessions_loaded));
            }
            j += 1;
        }
        assert(tools@.take(tools@.len() as int) =~= tools@);
        assert(servers@.take(i + 1).drop_last() =~= servers@.take(i as int));
        assert(servers@.take(i + 1).last() == servers@[i as int]);
        i += 1;
    }
    assert(servers@.take(servers@.len() as int) =~= servers@);
    found
}

fn token_lookup(tokens: &Vec<(String, u64)>, name: &str) -> (r: u64)
    ensures
        r == tokens_of(tokens@, name@),
{
    let mut r: u64 = 0;
    let mut i: usize = 0;
    while i < tokens.len()
        invariant
            i <= tokens@.len(),
            r == tokens_of(tokens@.take(i as int), name@),
        decreases tokens@.len() - i,
    {
        assert(tokens@.take(i + 1).drop_last() =~= tokens@.take(i as int));
        if str_eq(tokens[i].0.as_str(), name) {
            r = tokens[i].1;
        }
        i += 1;
    }
    assert(tokens@.take(tokens@.len() as int) =~= tokens@);
    r
}

/// The largest token figure recorded for the tool `name` among
/// `observations` (tool name, figure), 0 when there is none.
pub open spec fn token_max(observations: Seq<(String, u64)>, name: Seq<char>) -> u64
    decreases observations.len(),
{
    if observations.len() == 0 {
        0
    } else {
        let prev = token_max(observations.drop_last(), name);
        if observations.last().0@ == name && observations.last().1 > prev {
            observations.last().1
        } else {
            prev
        }
    }
}

/// Some observation is recorded under `name`.
pub open spec fn observed(observations: Seq<(String, u64)>, name: Seq<char>) -> bool {
    exists|j: int| 0 <= j < observations.len() && (#[trigger] observations[j]).0@ == name
}

/// No tool name occurs twice in `m`.
pub open spec fn distinct_names(m: Seq<(String, u64)>) -> bool {
    forall|i: int, j: int| 0 <= i < j < m.len() ==> (#[trigger] m[i]).0@ != (#[trigger] m[j]).0@
}

/// The per-tool token figures of a report: one entry per tool name
/// observed across the sessions' waste reports (`observations` holds each
/// session's (tool name, description tokens)), in order of first
/// observation, with the largest figure recorded for it. Figures should
/// agree across sessions; the largest is kept in case a tool's cost
/// changed within the window.
pub fn tool_token_max(observations: &Vec<(String, u64)>) -> (r: Vec<(String, u64)>)
    ensures
        distinct_names(r@),
        forall|k: int| 0 <= k < r@.len() ==> (#[trigger] r@[k]).1 == token_max(observations@, r@[k].0@),
        forall|name: Seq<char>| observed(observations@, name) <==> observed(r@, name),
{
    let ghost obs = observations@;
    let mut m: Vec<(String, u64)> = Vec::new();
    let mut i: usize = 0;
    while i < observations.len()
        invariant
            obs == observations@,
            i <= obs.len(),
            distinct_names(m@),
            forall|k: int| 0 <= k < m@.len() ==> (#[trigger] m@[k]).1 == token_max(obs.take(i as int), m@[k].0@),
            forall|name: Seq<char>| observed(obs.take(i as int), name) <==> observed(m@, name),
        decreases obs.len() - i,
    {
        let ghost pre = obs.take(i as int);
        let ghost post = obs.take(i + 1);
        assert(post.drop_last() =~= pre);
        assert(post.last() == obs[i as int]);
        let name = observations[i].0.as_str();
        let v = observations[i].1;
        let mut k: usize = 0;
        let mut pos: Option<usize> = None;
        while k < m.len()
            invariant
                k <= m@.len(),
                match pos {
                    Some(p) => p < m@.len() && m@[p as int].0@ == name@,
                    None => forall|q: int| 0 <= q < k ==> (#[trigger] m@[q]).0@ != name@,
                },
            decreases m@.len() - k,
        {
            if pos.is_none() && str_eq(m[k].0.as_str(), name) {
                pos = Some(k);
            }
            k += 1;
        }
        let ghost before = m@;
        match pos {
            Some(p) => {
                if v > m[p].1 {
                    let mut key = String::new();
                    push_str(&mut key, m[p].0.as_str());
                    m.set(p, (key, v));
                }
                assert forall|q: int| 0 <= q < m@.len() implies (#[trigger] m@[q]).1 == token_max(post, m@[q].0@) by {
                    if q != p {
                        assert(m@[q] == before[q]);
                        assert(before[q].0@ != name@) by {
                            if before[q].0@ == name@ {
                                if q < p {
                                    assert(before[q].0@ != before[p as int].0@);
                                } else {
                                    assert(before[p as int].0@ != before[q].0@);
                                }
                            }
                        }
                    }
                }
                assert forall|a: int, b: int| 0 <= a < b < m@.len() implies (#[trigger] m@[a]).0@ != (#[trigger] m@[b]).0@ by {
                    assert(m@[a].0@ == before[a].0@ && m@[b].0@ == before[b].0@);
                }
                assert forall|n: Seq<char>| observed(post, n) <==> observed(m@, n) by {
                    if observed(post, n) {
                        if !observed(pre, n) {
                            assert(n == name@);
                            assert(m@[p as int].0@ == n);
                        } else {
                            assert(observed(before, n));
                            let q = choose|q: int| 0 <= q < before.len() && (#[trigger] before[q]).0@ == n;
                            assert(m@[q].0@ == before[q].0@);
                        }
                    }
                    if observed(m@, n) {
                        let q = choose|q: int| 0 <= q < m@.len() && (#[trigger] m@[q]).0@ == n;
                        assert(before[q].0@ == n);
                        assert(observed(before, n));
                        let j = choose|j: int| 0 <= j < pre.len() && (#[trigger] pre[j]).0@ == n;
                        assert(post[j] == pre[j]);
                    }
                }
            },
            None => {
                let mut key = String::new();
                push_str(&mut key, name);
                m.push((key, v));
                assert(!observed(pre, name@)) by {
                    if observed(pre, name@) {
                        assert(observed(before, name@));
                        let q = choose|q: int| 0 <= q < before.len() && (#[trigger] before[q]).0@ == name@;
                        assert(before[q].0@ != name@);
                    }
                }
                assert(token_max(pre, name@) == 0) by {
                    lemma_token_max_unobserved(pre, name@);
                }
                assert forall|q: int| 0 <= q < m@.len() implies (#[trigger] m@[q]).1 == token_max(post, m@[q].0@) by {
                    if q < before.len() {
                        assert(m@[q] == before[q]);
                    }
                }
                assert forall|n: Seq<char>| observed(post, n) <==> observed(m@, n) by {
                    if observed(post, n) {
                        if !observed(pre, n) {
                            assert(m@[before.len() as int].0@ == n);
                        } else {
                            assert(observed(before, n));
                            let q = choose|q: int| 0 <= q < before.len() && (#[trigger] before[q]).0@ == n;
                            assert(m@[q].0@ == before[q].0@);
                        }
                    }
                    if observed(m@, n) {
                        let q = choose|q: int| 0 <= q < m@.len() && (#[trigger] m@[q]).0@ == n;
                        if q < before.len() {
                            assert(m@[q] == before[q]);
                            assert(observed(before, n));
                            let j = choose|j: int| 0 <= j < pre.len() && (#[trigger] pre[j]).0@ == n;
                            assert(post[j] == pre[j]);
                        } else {
                            assert(post[i as int].0@ == n);
                        }
                    }
                }
            },
        }
        i += 1;
    }
    assert(obs.take(obs.len() as int) =~= obs);
    m
}

proof fn lemma_token_max_unobserved(observations: Seq<(String, u64)>, name: Seq<char>)
    requires
        !observed(observations, name),
    ensures
        token_max(observations, name) == 0,
    decreases observations.len(),
{
    if observations.len() > 0 {
        let d = observations.drop_last();
        assert(!observed(d, name)) by {
            if observed(d, name) {
                let j = choose|j: int| 0 <= j < d.len() && (#[trigger] d[j]).0@ == name;
                assert(observations[j] == d[j]);
            }
        }
        lemma_token_max_unobserved(d, name);
        assert(observations[observations.len() - 1] == observations.last());
    }
}

// ---------------------------------------------------------------------------
// Rows
// ---------------------------------------------------------------------------

/// The number of "always unused" rows: `top`, at most the number of tools.
pub open spec fn shown(a: WasteAggregate, top: usize) -> int {
    if top < a.never_called_tools@.len() {
        top as int
    } else {
        a.never_called_tools@.len() as int
    }
}

/// `row` shows the never-called tool `name`: the tool, its server and
/// `sessions_loaded` (see [`row_owner`]) and its token figure.
pub open spec fn never_row_ok(a: WasteAggregate, tokens: Seq<(String, u64)>, name: Seq<char>, row: NeverCalledRow) -> bool {
    &&& row.tool@ == name
    &&& row.server@ == row_owner(a.per_server@, name).0
    &&& row.sessions_loaded == row_owner(a.per_server@, name).1
    &&& row.tokens == tokens_of(tokens, name)
}

/// The rows of the "always unused" table: the first `top` never-called
/// tools, in report order.
pub fn never_called_rows(a: &WasteAggregate, top: usize, tokens: &Vec<(String, u64)>) -> (r: Vec<NeverCalledRow>)
    ensures
        r@.len() == shown(*a, top),
        forall|k: int| 0 <= k < r@.len() ==> never_row_ok(*a, tokens@, a.never_called_tools@[k]@, #[trigger] r@[k]),
{
    proof {
        reveal_strlit("(unknown)");
    }
    let n = if top < a.never_called_tools.len() { top } else { a.never_called_tools.len() };
    let mut rows: Vec<NeverCalledRow> = Vec::new();
    let mut k: usize = 0;
    while k < n
        invariant
            n == shown(*a, top),
            n <= a.never_called_tools@.len(),
            k <= n,
            rows@.len() == k,
            forall|m: int| 0 <= m < k ==> never_row_ok(*a, tokens@, a.never_called_tools@[m]@, #[trigger] rows@[m]),
        decreases n - k,
    {
        let name = a.never_called_tools[k].as_str();
        let (server, loaded) = match find_owner(&a.per_server, name) {
            Some((s, l)) => {
                let mut t = String::new();
                push_str(&mut t, a.per_server[s].server.as_str());
                (t, l)
            },
            None => ("(unknown)".to_owned(), 0),
        };
        let mut tool = String::new();
        push_str(&mut tool, name);
        let row = NeverCalledRow { tool, server, sessions_loaded: loaded, tokens: token_lookup(tokens, name) };
        rows.push(row);
        k += 1;
    }
    rows
}

/// The calls of `tools`, summed.
pub open spec fn calls_sum(tools: Seq<ToolUsage>) -> int
    decreases tools.len(),
{
    if tools.len() == 0 {
        0
    } else {
        calls_sum(tools.drop_last()) + tools.last().total_call_count
    }
}

/// The calls of two lists of tools together are the calls of each added
/// up; one more tool adds its own count.
pub proof fn law_calls_sum_additive(a: Seq<ToolUsage>, b: Seq<ToolUsage>, t: ToolUsage)
    ensures
        calls_sum(a + b) == calls_sum(a) + calls_sum(b),
        calls_sum(a.push(t)) == calls_sum(a) + t.total_call_count,
        calls_sum(Seq::<ToolUsage>::empty()) == 0,
    decreases b.len(),
{
    assert(a.push(t).drop_last() =~= a);
    if b.len() == 0 {
        assert(a + b =~= a);
    } else {
        law_calls_sum_additive(a, b.drop_last(), t);
        assert((a + b).drop_last() =~= a + b.drop_last());
        assert((a + b).last() == b.last());
    }
}

proof fn lemma_calls_prefix(tools: Seq<ToolUsage>, j: int)
    requires
        0 <= j <= tools.len(),
    ensures
        0 <= calls_sum(tools.take(j)) <= calls_sum(tools),
    decreases tools.len(),
{
    if j == tools.len() {
        assert(tools.take(j) =~= tools);
        if tools.len() > 0 {
            lemma_calls_prefix(tools.drop_last(), j - 1);
            assert(tools.drop_last().take(j - 1) =~= tools.drop_last());
        }
    } else {
        lemma_calls_prefix(tools.drop_last(), j);
        assert(tools.drop_last().take(j) =~= tools.take(j));
    }
}

/// No server's call count overflows a `usize` when summed.
pub open spec fn sums_fit(servers: Seq<ServerWaste>) -> bool {
    forall|i: int| 0 <= i < servers.len() ==> calls_sum((#[trigger] servers[i]).tool_usage@) <= usize::MAX
}

/// `row` is the per-server row of `s`: its counts, its calls summed over
/// its tools, and its unused tokens.
pub open spec fn server_row_ok(s: ServerWaste, row: PerServerRow) -> bool {
    &&& row.server@ == s.server@
    &&& row.sessions_loaded == s.sessions_loaded
    &&& row.sessions_with_zero_calls == s.sessions_with_zero_calls
    &&& row.total_calls == calls_sum(s.tool_usage@)
    &&& row.wasted_tokens == s.total_unused_tokens
}

fn total_calls(tools: &Vec<ToolUsage>) -> (r: usize)
    requires
        calls_sum(tools@) <= usize::MAX,
    ensures
        r == calls_sum(tools@),
{
    let mut sum: usize = 0;
    let mut j: usize = 0;
    while j < tools.len()
        invariant
            j <= tools@.len(),
            calls_sum(tools@) <= usize::MAX,
            sum == calls_sum(tools@.take(j as int)),
        decreases tools@.len() - j,
    {
        assert(tools@.take(j + 1).drop_last() =~= tools@.take(j as int));
        proof {
            lemma_calls_prefix(tools@, j + 1);
        }
        sum = sum + tools[j].total_call_count;
        j += 1;
    }
    assert(tools@.take(tools@.len() as int) =~= tools@);
    sum
}

/// The rows of the per-server table, one per server in report order.
pub fn per_server_rows(a: &WasteAggregate) -> (r: Vec<PerServerRow>)
    requires
        sums_fit(a.per_server@),
    ensures
        r@.len() == a.per_server@.len(),
        forall|k: int| 0 <= k < r@.len() ==> server_row_ok(a.per_server@[k], #[trigger] r@[k]),
{
    let mut rows: Vec<PerServerRow> = Vec::new();
    let mut k: usize = 0;
    while k < a.per_server.len()
        invariant
            sums_fit(a.per_server@),
            k <= a.per_server@.len(),
            rows@.len() == k,
            forall|m: int| 0 <= m < k ==> server_row_ok(a.per_server@[m], #[trigger] rows@[m]),
        decreases a.per_server@.len() - k,
    {
        let s = &a.per_server[k];
        assert(calls_sum(a.per_server@[k as int].tool_usage@) <= usize::MAX);
        let mut server = String::new();
        push_str(&mut server, s.server.as_str());
        let row = PerServerRow {
            server,
            sessions_loaded: s.sessions_loaded,
            sessions_with_zero_calls: s.sessions_with_zero_calls,
            total_calls: total_calls(&s.tool_usage),
            wasted_tokens: s.total_unused_tokens,
        };
        rows.push(row);
        k += 1;
    }
    rows
}

/// `i` is the last position of the largest unused-token total of
/// `servers`, and that total is above 0.
pub open spec fn is_largest_at(servers: Seq<ServerWaste>, i: int) -> bool {
    &&& 0 <= i < servers.len()
    &&& servers[i].total_unused_tokens > 0
    &&& forall|j: int| 0 <= j < servers.len() ==> (#[trigger] servers[j]).total_unused_tokens <= servers[i].total_unused_tokens
    &&& forall|j: int| i < j < servers.len() ==> (#[trigger] servers[j]).total_unused_tokens < servers[i].total_unused_tokens
}

/// The server with the largest unused-token total, the last of them when
/// several share it (`Iterator::max_by_key`); none when every total is 0.
pub open spec fn largest_of(servers: Seq<ServerWaste>) -> Option<int> {
    if exists|i: int| is_largest_at(servers, i) {
        Some(choose|i: int| is_largest_at(servers, i))
    } else {
        None
    }
}

proof fn lemma_largest_unique(servers: Seq<ServerWaste>, i: int, k: int)
    requires
        is_largest_at(servers, i),
        is_largest_at(servers, k),
    ensures
        i == k,
{
    if i < k {
        assert(servers[k].total_unused_tokens < servers[i].total_unused_tokens);
        assert(servers[i].total_unused_tokens <= servers[k].total_unused_tokens);
    } else if k < i {
        assert(servers[i].total_unused_tokens < servers[k].total_unused_tokens);
        assert(servers[k].total_unused_tokens <= servers[i].total_unused_tokens);
    }
}

/// The index of the server with the largest waste (see [`largest_of`]).
pub fn largest_waste(a: &WasteAggregate) -> (r: Option<usize>)
    ensures
        match r {
            Some(i) => largest_of(a.per_server@) == Some(i as int),
            None => largest_of(a.per_server@) is None,
        },
{
    let ps = &a.per_server;
    let mut best: Option<usize> = None;
    let mut i: usize = 0;
    while i < ps.len()
        invariant
            i <= ps@.len(),
            match best {
                Some(b) => is_largest_at(ps@.take(i as int), b as int),
                None => forall|j: int| 0 <= j < i ==> (#[trigger] ps@[j]).total_unused_tokens == 0,
            },
        decreases ps@.len() - i,
    {
        let ghost s0 = ps@.take(i as int);
        let ghost s = ps@.take(i + 1);
        assert(forall|j: int| 0 <= j < i ==> s0[j] == ps@[j] && s[j] == ps@[j]);
        assert(s[i as int] == ps@[i as int]);
        let t = ps[i].total_unused_tokens;
        let better = match best {
            None => true,
            Some(b) => t >= ps[b].total_unused_tokens,
        };
        if t > 0 && better {
            best = Some(i);
            assert(is_largest_at(s, i as int)) by {
                assert forall|j: int| 0 <= j < s.len() implies (#[trigger] s[j]).total_unused_tokens <= s[i as int].total_unused_tokens by {
                    if j < i {
                        assert(s0[j] == s[j]);
                    }
                }
            }
        } else {
            match best {
                Some(b) => {
                    assert(is_largest_at(s, b as int)) by {
                        assert forall|j: int| 0 <= j < s.len() implies (#[trigger] s[j]).total_unused_tokens <= s[b as int].total_unused_tokens by {
                            if j < i {
                                assert(s0[j] == s[j]);
                            }
                        }
                        assert forall|j: int| b < j < s.len() implies (#[trigger] s[j]).total_unused_tokens < s[b as int].total_unused_tokens by {
                            if j < i {
                                assert(s0[j] == s[j]);
                            }
                        }
                    }
                },
                None => {},
            }
        }
        i += 1;
    }
    assert(ps@.take(ps@.len() as int) =~= ps@);
    match best {
        Some(b) => {
            proof {
                let c = choose|k: int| is_largest_at(ps@, k);
                lemma_largest_unique(ps@, b as int, c);
            }
        },
        None => {
            assert(!exists|k: int| is_largest_at(ps@, k));
        },
    }
    best
}

// ---------------------------------------------------------------------------
// Markdown
// ---------------------------------------------------------------------------

/// An integer as the report writes it: in decimal.
pub open spec fn int_text(n: nat) -> Seq<char> {
    decimal(n)
}

/// The summary line naming the server with the largest waste, when one
/// shows any.
pub open spec fn largest_line(servers: Seq<ServerWaste>) -> Seq<char> {
    match largest_of(servers) {
        Some(p) => "- Largest waste: `"@ + servers[p].server@ + "` server, ≈"@ + int_text(
            servers[p].total_unused_tokens as nat,
        ) + " tokens across "@ + decimal(servers[p].sessions_loaded as nat) + " sessions\n"@,
        None => Seq::empty(),
    }
}

/// The report's title and summary counts, dated `today`.
pub open spec fn summary_head(a: WasteAggregate, today: Seq<char>) -> Seq<char> {
    "# MCP Waste Report ("@ + decimal(a.sessions as nat) + " sessions, generated "@ + today + ")\n\n"@
        + "## Summary\n\n"@
        + "- "@ + decimal(a.sessions as nat) + " sessions analyzed\n"@
        + "- "@ + decimal(a.per_server@.len()) + " MCP servers in scope\n"@
        + "- "@ + decimal(a.never_called_tools@.len()) + " tools NEVER called across ANY session\n"@
        + "- ≈"@ + int_text(a.total_unused_tokens as nat)
        + " wasted tokens (heuristic / sidecar / mixed — see `--export json` for per-session provenance)\n"@
}

/// The header and summary of the report, dated `today`.
pub open spec fn summary_spec(a: WasteAggregate, today: Seq<char>) -> Seq<char> {
    summary_head(a, today) + largest_line(a.per_server@) + "\n"@
}

/// The table line of the never-called tool `name`.
pub open spec fn unused_line(a: WasteAggregate, tokens: Seq<(String, u64)>, name: Seq<char>) -> Seq<char> {
    "| "@ + name + " | "@ + row_owner(a.per_server@, name).0 + " | "@ + decimal(
        row_owner(a.per_server@, name).1 as nat,
    ) + " | ≈"@ + int_text(tokens_of(tokens, name) as nat) + " |\n"@
}

/// The table lines of the first `k` never-called tools.
pub open spec fn unused_lines(a: WasteAggregate, tokens: Seq<(String, u64)>, k: int) -> Seq<char>
    decreases k,
{
    if k <= 0 {
        Seq::empty()
    } else {
        unused_lines(a, tokens, k - 1) + unused_line(a, tokens, a.never_called_tools@[k - 1]@)
    }
}

/// The "always unused" section: absent when every tool was called,
/// otherwise a heading with the tool count and the rows shown, and the
/// table of the first `top` tools.
pub open spec fn unused_section(a: WasteAggregate, top: usize, tokens: Seq<(String, u64)>) -> Seq<char> {
    if a.never_called_tools@.len() == 0 {
        Seq::empty()
    } else {
        "## \"Always unused\" — "@ + decimal(a.never_called_tools@.len()) + " tools (top "@ + decimal(
            shown(a, top) as nat,
        ) + ")\n\n"@ + "| Tool | Server | Sessions loaded | Tokens (per session) |\n"@
            + "|------|--------|----------------:|---------------------:|\n"@ + unused_lines(
            a,
            tokens,
            shown(a, top),
        ) + "\n"@
    }
}

/// The table line of one server.
pub open spec fn server_line(s: ServerWaste) -> Seq<char> {
    "| "@ + s.server@ + " | "@ + decimal(s.sessions_loaded as nat) + " | "@ + decimal(
        s.sessions_with_zero_calls as nat,
    ) + " | "@ + decimal(calls_sum(s.tool_usage@) as nat) + " | ≈"@ + int_text(
        s.total_unused_tokens as nat,
    ) + " |\n"@
}

/// The table lines of the first `k` servers.
pub open spec fn server_lines(servers: Seq<ServerWaste>, k: int) -> Seq<char>
    decreases k,
{
    if k <= 0 {
        Seq::empty()
    } else {
        server_lines(servers, k - 1) + server_line(servers[k - 1])
    }
}

/// The per-server section: one table line per server, in report order.
pub open spec fn server_section(servers: Seq<ServerWaste>) -> Seq<char> {
    "## Per-server cross-session\n\n"@
        + "| Server | Sessions loaded | Sessions w/0 calls | Calls (sum) | Wasted tokens |\n"@
        + "|--------|----------------:|-------------------:|------------:|--------------:|\n"@
        + server_lines(servers, servers.len() as int)
}

/// The Markdown waste report, generated on `today`: summary, "always
/// unused" table of the first `top` never-called tools, per-server table.
pub open spec fn md_spec(a: WasteAggregate, top: usize, tokens: Seq<(String, u64)>, today: Seq<char>) -> Seq<char> {
    summary_spec(a, today) + unused_section(a, top, tokens) + server_section(a.per_server@)
}

fn push_dec(out: &mut String, n: u64)
    ensures
        final(out)@ == old(out)@ + decimal(n as nat),
{
    let d = u64_decimal(n);
    push_str(out, d.as_str());
}

#[verifier::spinoff_prover]
#[verifier::rlimit(40)]
fn push_summary_head(out: &mut String, a: &WasteAggregate, today: &str)
    ensures
        final(out)@ == old(out)@ + summary_head(*a, today@),
{
    let ghost o = out@;
    push_str(out, "# MCP Waste Report (");
    push_dec(out, a.sessions as u64);
    push_str(out, " sessions, generated ");
    push_str(out, today);
    push_str(out, ")\n\n");
    let ghost p1 = out@;
    assert(p1 =~= o + "# MCP Waste Report ("@ + decimal(a.sessions as nat) + " sessions, generated "@ + today@ + ")\n\n"@);
    push_str(out, "## Summary\n\n");
    push_str(out, "- ");
    push_dec(out, a.sessions as u64);
    push_str(out, " sessions analyzed\n");
    let ghost p2 = out@;
    assert(p2 =~= p1 + "## Summary\n\n"@ + "- "@ + decimal(a.sessions as nat) + " sessions analyzed\n"@);
    push_str(out, "- ");
    push_dec(out, a.per_server.len() as u64);
    push_str(out, " MCP servers in scope\n");
    push_str(out, "- ");
    push_dec(out, a.never_called_tools.len() as u64);
    push_str(out, " tools NEVER called across ANY session\n");
    let ghost p3 = out@;
    assert(p3 =~= p2 + "- "@ + decimal(a.per_server@.len()) + " MCP servers in scope\n"@ + "- "@
        + decimal(a.never_called_tools@.len()) + " tools NEVER called across ANY session\n"@);
    push_str(out, "- ≈");
    push_dec(out, a.total_unused_tokens);
    push_str(
        out,
        " wasted tokens (heuristic / sidecar / mixed — see `--export json` for per-session provenance)\n",
    );
    assert(out@ =~= p3 + "- ≈"@ + int_text(a.total_unused_tokens as nat)
        + " wasted tokens (heuristic / sidecar / mixed — see `--export json` for per-session provenance)\n"@);
    assert(out@ =~= o + summary_head(*a, today@));
}

fn push_largest(out: &mut String, a: &WasteAggregate)
    ensures
        final(out)@ == old(out)@ + largest_line(a.per_server@),
{
    let ghost o = out@;
    match largest_waste(a) {
        Some(p) => {
            let s = &a.per_server[p];
            push_str(out, "- Largest waste: `");
            push_str(out, s.server.as_str());
            push_str(out, "` server, ≈");
            push_dec(out, s.total_unused_tokens);
            push_str(out, " tokens across ");
            push_dec(out, s.sessions_loaded as u64);
            push_str(out, " sessions\n");
            assert(out@ =~= o + largest_line(a.per_server@));
        },
        None => {
            assert(out@ =~= o + largest_line(a.per_server@));
        },
    }
}

fn push_summary(out: &mut String, a: &WasteAggregate, today: &str)
    ensures
        final(out)@ == old(out)@ + summary_spec(*a, today@),
{
    let ghost o = out@;
    push_summary_head(out, a, today);
    push_largest(out, a);
    push_str(out, "\n");
    assert(out@ =~= o + summary_spec(*a, today@));
}

fn push_unused(out: &mut String, a: &WasteAggregate, top: usize, tokens: &Vec<(String, u64)>)
    ensures
        final(out)@ == old(out)@ + unused_section(*a, top, tokens@),
{
    if a.never_called_tools.len() == 0 {
        assert(out@ =~= old(out)@ + unused_section(*a, top, tokens@));
        return;
    }
    let ghost o = out@;
    let rows = never_called_rows(a, top, tokens);
    push_str(out, "## \"Always unused\" — ");
    push_dec(out, a.never_called_tools.len() as u64);
    push_str(out, " tools (top ");
    push_dec(out, rows.len() as u64);
    push_str(out, ")\n\n");
    push_str(out, "| Tool | Server | Sessions loaded | Tokens (per session) |\n");
    push_str(out, "|------|--------|----------------:|---------------------:|\n");
    let ghost head = out@;
    let mut k: usize = 0;
    while k < rows.len()
        invariant
            k <= rows@.len(),
            rows@.len() == shown(*a, top),
            shown(*a, top) <= a.never_called_tools@.len(),
            forall|m: int| 0 <= m < rows@.len() ==> never_row_ok(*a, tokens@, a.never_called_tools@[m]@, #[trigger] rows@[m]),
            out@ == head + unused_lines(*a, tokens@, k as int),
        decreases rows@.len() - k,
    {
        let r = &rows[k];
        assert(never_row_ok(*a, tokens@, a.never_called_tools@[k as int]@, rows@[k as int]));
        let ghost before = out@;
        push_str(out, "| ");
        push_str(out, r.tool.as_str());
        push_str(out, " | ");
        push_str(out, r.server.as_str());
        push_str(out, " | ");
        push_dec(out, r.sessions_loaded as u64);
        push_str(out, " | ≈");
        push_dec(out, r.tokens);
        push_str(out, " |\n");
        assert(out@ =~= before + unused_line(*a, tokens@, a.never_called_tools@[k as int]@));
        assert(out@ =~= head + unused_lines(*a, tokens@, k + 1));
        k += 1;
    }
    push_str(out, "\n");
    assert(out@ =~= o + unused_section(*a, top, tokens@));
}

fn push_servers(out: &mut String, a: &WasteAggregate)
    requires
        sums_fit(a.per_server@),
    ensures
        final(out)@ == old(out)@ + server_section(a.per_server@),
{
    let ghost o = out@;
    let rows = per_server_rows(a);
    push_str(out, "## Per-server cross-session\n\n");
    push_str(out, "| Server | Sessions loaded | Sessions w/0 calls | Calls (sum) | Wasted tokens |\n");
    push_str(out, "|--------|----------------:|-------------------:|------------:|--------------:|\n");
    let ghost head = out@;
    let mut k: usize = 0;
    while k < rows.len()
        invariant
            k <= rows@.len(),
            rows@.len() == a.per_server@.len(),
            forall|m: int| 0 <= m < rows@.len() ==> server_row_ok(a.per_server@[m], #[trigger] rows@[m]),
            out@ == head + server_lines(a.per_server@, k as int),
        decreases rows@.len() - k,
    {
        let r = &rows[k];
        assert(server_row_ok(a.per_server@[k as int], rows@[k as int]));
        let ghost before = out@;
        push_str(out, "| ");
        push_str(out, r.server.as_str());
        push_str(out, " | ");
        push_dec(out, r.sessions_loaded as u64);
        push_str(out, " | ");
        push_dec(out, r.sessions_with_zero_calls as u64);
        push_str(out, " | ");
        push_dec(out, r.total_calls as u64);
        push_str(out, " | ≈");
        push_dec(out, r.wasted_tokens);
        push_str(out, " |\n");
        assert(out@ =~= before + server_line(a.per_server@[k as int]));
        assert(out@ =~= head + server_lines(a.per_server@, k + 1));
        k += 1;
    }
    assert(out@ =~= o + server_section(a.per_server@));
}

/// The Markdown waste report (see [`md_spec`]) of `a`, dated `today`
/// (`YYYY-MM-DD`, the day it is generated), with at most `top` rows in
/// the "always unused" table and per-tool token figures from `tokens`
/// (as [`tool_token_max`] builds them).
/// A server's calls are summed as `usize`, so each sum must fit in one.
pub fn render_md(a: &WasteAggregate, top: usize, tokens: &Vec<(String, u64)>, today: &str) -> (r: String)
    requires
        sums_fit(a.per_server@),
    ensures
        r@ == md_spec(*a, top, tokens@, today@),
{
    let mut out = String::new();
    push_summary(&mut out, a, today);
    push_unused(&mut out, a, top, tokens);
    push_servers(&mut out, a);
    assert(out@ =~= md_spec(*a, top, tokens@, today@));
    out
}

} // verus!

