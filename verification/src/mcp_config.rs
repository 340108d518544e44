//! Reading the server list out of a decoded Copilot `mcp.json`.
//!
//! Two shapes are recognized: `{"mcpServers": {name: {...}}}` (server names
//! only; tools are discovered at runtime) and the self-describing
//! `{"servers": {name: {"tools": [..]}}}`. Any other shape yields no
//! servers.

use vstd::prelude::*;
use crate::event::{JsonModel, JsonValue};
use crate::text::chars_of;
use crate::order::chars_eq;

verus! {

/// Per-server metadata from `mcp.json`.
#[derive(Debug, Clone, Default)]
pub struct ServerInfo {
    /// The server's tool names when the file lists them; `None` when only
    /// the server's registration is known.
    pub tools: Option<Vec<String>>,
}

/// The servers an `mcp.json` declares, as (name, metadata) in the order of
/// the file's server object (ascending names for a decoded object).
#[derive(Debug, Clone, Default)]
pub struct ParsedMcpConfig {
    pub servers: Vec<(String, ServerInfo)>,
}

/// The value under the first `key` of an object's fields.
pub open spec fn fields_lookup(fields: Seq<(Seq<char>, JsonModel)>, key: Seq<char>) -> Option<JsonModel>
    decreases fields.len(),
{
    if fields.len() == 0 {
        None
    } else if fields[0].0 == key {
        Some(fields[0].1)
    } else {
        fields_lookup(fields.drop_first(), key)
    }
}

/// `v[key]` when `v` is an object holding `key` (`Value::get`).
pub open spec fn json_get(v: JsonModel, key: Seq<char>) -> Option<JsonModel> {
    match v {
        JsonModel::Object(f) => fields_lookup(f, key),
        _ => None,
    }
}

/// The strings among `items`, in order; other items are skipped.
pub open spec fn strings_in(items: Seq<JsonModel>) -> Seq<Seq<char>>
    decreases items.len(),
{
    if items.len() == 0 {
        Seq::empty()
    } else {
        let prev = strings_in(items.drop_last());
        match items.last() {
            JsonModel::String(s) => prev.push(s),
            _ => prev,
        }
    }
}

/// A server entry's tool list: the strings of its `"tools"` array, or
/// `None` when it has no `"tools"` array.
pub open spec fn tools_of(entry: JsonModel) -> Option<Seq<Seq<char>>> {
    match json_get(entry, "tools"@) {
        Some(JsonModel::Array(items)) => Some(strings_in(items)),
        _ => None,
    }
}

/// The servers a decoded `mcp.json` declares, as (name, tools):
/// an object under `"mcpServers"` gives its names with no tool lists;
/// otherwise an object under `"servers"` gives its names with their tool
/// lists; otherwise there are none.
pub open spec fn parse_spec(v: JsonModel) -> Seq<(Seq<char>, Option<Seq<Seq<char>>>)> {
    match json_get(v, "mcpServers"@) {
        Some(JsonModel::Object(f)) => Seq::new(f.len(), |i: int| (f[i].0, None)),
        _ => match json_get(v, "servers"@) {
            Some(JsonModel::Object(f)) => Seq::new(f.len(), |i: int| (f[i].0, tools_of(f[i].1))),
            _ => Seq::empty(),
        },
    }
}

/// A server list as (name, tools).
pub open spec fn servers_model(servers: Seq<(String, ServerInfo)>) -> Seq<
    (Seq<char>, Option<Seq<Seq<char>>>),
> {
    Seq::new(
        servers.len(),
        |i: int|
            (
                servers[i].0@,
                match servers[i].1.tools {
                    Some(t) => Some(t@.map_values(|s: String| s@)),
                    None => None,
                },
            ),
    )
}

fn str_eq(a: &str, b: &str) -> (r: bool)
    ensures
        r == (a@ == b@),
{
    let x = chars_of(a);
    let y = chars_of(b);
    chars_eq(x.as_slice(), y.as_slice())
}

/// `v[key]` for an object `v` (`serde_json::Value::get` on a key).
pub fn json_lookup<'a>(v: &'a JsonValue, key: &str) -> (r: Option<&'a JsonValue>)
    ensures
        match r {
            Some(x) => json_get(v.model(), key@) == Some(x.model()),
            None => json_get(v.model(), key@) is None,
        },
{
    match v {
        JsonValue::Object(fields) => {
            let ghost fm = match v.model() {
                JsonModel::Object(f) => f,
                _ => Seq::empty(),
            };
            assert(fm.skip(0) =~= fm);
            let mut i: usize = 0;
            while i < fields.len()
                invariant
                    v.model() == JsonModel::Object(fm),
                    i <= fields@.len(),
                    fm.len() == fields@.len(),
                    forall|k: int| 0 <= k < fields@.len() ==> #[trigger] fm[k] == (fields@[k].0@, fields@[k].1.model()),
                    fields_lookup(fm, key@) == fields_lookup(fm.skip(i as int), key@),
                decreases fields@.len() - i,
            {
                assert(fm.skip(i as int)[0] == fm[i as int]);
                assert(fm.skip(i as int).drop_first() =~= fm.skip(i + 1));
                if str_eq(fields[i].0.as_str(), key) {
                    return Some(&fields[i].1);
                }
                i += 1;
            }
            None
        },
        _ => None,
    }
}

/// The strings of a JSON array's items, in order.
fn array_strings(items: &Vec<JsonValue>) -> (r: Vec<String>)
    ensures
        r@.map_values(|s: String| s@) == strings_in(Seq::new(items@.len(), |i: int| items@[i].model())),
{
    let ghost ms = Seq::new(items@.len(), |i: int| items@[i].model());
    let mut out: Vec<String> = Vec::new();
    let mut i: usize = 0;
    while i < items.len()
        invariant
            i <= items@.len(),
            ms == Seq::new(items@.len(), |i: int| items@[i].model()),
            out@.map_values(|s: String| s@) == strings_in(ms.take(i as int)),
        decreases items@.len() - i,
    {
        assert(ms.take(i + 1).drop_last() =~= ms.take(i as int));
        assert(ms.take(i + 1).last() == items@[i as int].model());
        if let JsonValue::String(s) = &items[i] {
            let ghost before = out@;
            out.push(s.clone());
            assert(out@.map_values(|s: String| s@) =~= before.map_values(|s: String| s@).push(s@));
        }
        i += 1;
    }
    assert(ms.take(ms.len() as int) =~= ms);
    out
}

/// Reads the declared servers out of a decoded `mcp.json` (see
/// [`parse_spec`]): names only for the `mcpServers` shape, names with
/// their tool lists for the `servers` shape, nothing for any other shape.
pub fn parse_value(v: &JsonValue) -> (r: ParsedMcpConfig)
    ensures
        servers_model(r.servers@) == parse_spec(v.model()),
{
    proof {
        reveal_strlit("mcpServers");
        reveal_strlit("servers");
        reveal_strlit("tools");
    }
    if let Some(JsonValue::Object(fields)) = json_lookup(v, "mcpServers") {
        let mut out: Vec<(String, ServerInfo)> = Vec::new();
        let mut i: usize = 0;
        while i < fields.len()
            invariant
                i <= fields@.len(),
                out@.len() == i,
                forall|k: int| 0 <= k < i ==> (#[trigger] out@[k]).0@ == fields@[k].0@ && out@[k].1.tools is None,
            decreases fields@.len() - i,
        {
            out.push((fields[i].0.clone(), ServerInfo { tools: None }));
            i += 1;
        }
        assert(servers_model(out@) =~= parse_spec(v.model()));
        return ParsedMcpConfig { servers: out };
    }
    if let Some(JsonValue::Object(fields)) = json_lookup(v, "servers") {
        let mut out: Vec<(String, ServerInfo)> = Vec::new();
        let mut i: usize = 0;
        while i < fields.len()
            invariant
                i <= fields@.len(),
                out@.len() == i,
                forall|k: int|
                    0 <= k < i ==> (#[trigger] out@[k]).0@ == fields@[k].0@ && match out@[k].1.tools {
                        Some(t) => tools_of(fields@[k].1.model()) == Some(t@.map_values(|s: String| s@)),
                        None => tools_of(fields@[k].1.model()) is None,
                    },
            decreases fields@.len() - i,
        {
            let tools = match json_lookup(&fields[i].1, "tools") {
                Some(JsonValue::Array(items)) => {
                    let r = array_strings(items);
                    assert(Seq::new(items@.len(), |i: int| items@[i].model()) =~= match (JsonValue::Array(*items)).model() {
                        JsonModel::Array(ms) => ms,
                        _ => Seq::empty(),
                    });
                    Some(r)
                },
                _ => None,
            };
            out.push((fields[i].0.clone(), ServerInfo { tools }));
            i += 1;
        }
        assert(servers_model(out@) =~= parse_spec(v.model()));
        return ParsedMcpConfig { servers: out };
    }
    assert(parse_spec(v.model()) =~= Seq::<(Seq<char>, Option<Seq<Seq<char>>>)>::empty());
    ParsedMcpConfig { servers: Vec::new() }
}

/// The servers whose tool lists the config gives, with those lists, in
/// order; servers known only by name are left out.
pub open spec fn tool_lists_spec(servers: Seq<(Seq<char>, Option<Seq<Seq<char>>>)>) -> Seq<(Seq<char>, Seq<Seq<char>>)>
    decreases servers.len(),
{
    if servers.len() == 0 {
        Seq::empty()
    } else {
        let prev = tool_lists_spec(servers.drop_last());
        match servers.last().1 {
            Some(t) => prev.push((servers.last().0, t)),
            None => prev,
        }
    }
}

/// The configured tool lists of `cfg` (see [`tool_lists_spec`]): the
/// config-side baseline that waste analysis compares calls against.
pub fn config_tool_lists(cfg: &ParsedMcpConfig) -> (r: Vec<(String, Vec<String>)>)
    ensures
        Seq::new(r@.len(), |i: int| (r@[i].0@, r@[i].1@.map_values(|s: String| s@)))
            == tool_lists_spec(servers_model(cfg.servers@)),
{
    let ghost sm = servers_model(cfg.servers@);
    let mut out: Vec<(String, Vec<String>)> = Vec::new();
    let mut i: usize = 0;
    while i < cfg.servers.len()
        invariant
            sm == servers_model(cfg.servers@),
            i <= cfg.servers@.len(),
            Seq::new(out@.len(), |k: int| (out@[k].0@, out@[k].1@.map_values(|s: String| s@)))
                == tool_lists_spec(sm.take(i as int)),
        decreases cfg.servers@.len() - i,
    {
        assert(sm.take(i + 1).drop_last() =~= sm.take(i as int));
        assert(sm.take(i + 1).last() == sm[i as int]);
        let ghost before = Seq::new(out@.len(), |k: int| (out@[k].0@, out@[k].1@.map_values(|s: String| s@)));
        if let Some(t) = &cfg.servers[i].1.tools {
            out.push((cfg.servers[i].0.clone(), t.clone()));
            assert(Seq::new(out@.len(), |k: int| (out@[k].0@, out@[k].1@.map_values(|s: String| s@)))
                =~= before.push((sm[i as int].0, sm[i as int].1->0)));
        }
        i += 1;
    }
    assert(sm.take(sm.len() as int) =~= sm);
    out
}

/// A server entry that carries a tool list.
pub open spec fn has_tool_list(e: (Seq<char>, Option<Seq<Seq<char>>>)) -> bool {
    e.1 is Some
}

/// The configured tool lists are exactly the servers that carry one, in
/// order, each with its list: as many entries as such servers, every such
/// server present with its list, and nothing else.
pub proof fn law_tool_lists_keep_every_listed_server(servers: Seq<(Seq<char>, Option<Seq<Seq<char>>>)>)
    ensures
        tool_lists_spec(servers) == servers.filter(|e: (Seq<char>, Option<Seq<Seq<char>>>)| has_tool_list(e)).map_values(
            |e: (Seq<char>, Option<Seq<Seq<char>>>)| (e.0, e.1->0),
        ),
        tool_lists_spec(servers).len() == servers.filter(|e: (Seq<char>, Option<Seq<Seq<char>>>)| has_tool_list(e)).len(),
        forall|i: int|
            0 <= i < servers.len() && (#[trigger] servers[i]).1 is Some ==> tool_lists_spec(servers).contains(
                (servers[i].0, servers[i].1->0),
            ),
        forall|k: int|
            #![trigger tool_lists_spec(servers)[k]]
            0 <= k < tool_lists_spec(servers).len() ==> exists|i: int|
                0 <= i < servers.len() && (#[trigger] servers[i]).1 == Some(tool_lists_spec(servers)[k].1) && servers[i].0
                    == tool_lists_spec(servers)[k].0,
    decreases servers.len(),
{
    let f = |e: (Seq<char>, Option<Seq<Seq<char>>>)| has_tool_list(e);
    let g = |e: (Seq<char>, Option<Seq<Seq<char>>>)| (e.0, e.1->0);
    if servers.len() == 0 {
        reveal(Seq::filter);
        assert(servers.filter(f) =~= Seq::<(Seq<char>, Option<Seq<Seq<char>>>)>::empty());
        assert(servers.filter(f).map_values(g) =~= tool_lists_spec(servers));
    } else {
        let d = servers.drop_last();
        law_tool_lists_keep_every_listed_server(d);
        let prev = tool_lists_spec(d);
        reveal(Seq::filter);
        assert(servers.filter(f) == if f(servers.last()) { d.filter(f).push(servers.last()) } else { d.filter(f) });
        assert(tool_lists_spec(servers) =~= servers.filter(f).map_values(g));
        assert forall|i: int|
            0 <= i < servers.len() && (#[trigger] servers[i]).1 is Some implies tool_lists_spec(servers).contains(
                (servers[i].0, servers[i].1->0),
            ) by {
            if i < d.len() {
                assert(d[i] == servers[i]);
                let k = choose|k: int| 0 <= k < prev.len() && prev[k] == (d[i].0, d[i].1->0);
                assert(tool_lists_spec(servers)[k] == prev[k]);
            } else {
                assert(servers[i] == servers.last());
                assert(tool_lists_spec(servers)[prev.len() as int] == (servers[i].0, servers[i].1->0));
            }
        }
        assert forall|k: int| #![trigger tool_lists_spec(servers)[k]] 0 <= k < tool_lists_spec(servers).len() implies exists|i: int|
            0 <= i < servers.len() && (#[trigger] servers[i]).1 == Some(tool_lists_spec(servers)[k].1) && servers[i].0
                == tool_lists_spec(servers)[k].0 by {
            if k < prev.len() {
                assert(tool_lists_spec(servers)[k] == prev[k]);
                let i = choose|i: int| 0 <= i < d.len() && (#[trigger] d[i]).1 == Some(prev[k].1) && d[i].0 == prev[k].0;
                assert(servers[i] == d[i]);
            } else {
                let i = servers.len() - 1;
                assert(servers[i] == servers.last());
            }
        }
    }
}

} // verus!

