//! The `<tools_changed_notice>` blocks that Copilot CLI embeds in a user
//! message's transformed content, and the "ever-loaded" set of MCP tools
//! they announce over a session.
//!
//! Only `New tools available:` lines add tools; `Tools no longer available:`
//! lines never remove any, so the set only grows as a session goes on.

use vstd::prelude::*;
use crate::event::CopilotEvent;
use crate::order::{strictly_sorted, seq_views, insert_sorted};
use crate::text::{
    chars_of, find_from, find_from_spec, lemma_find_from_bounds, lines_of, lines_spec, occurs_at,
    slice_chars, split_chars, split_spec, starts_with_chars, string_from_chars, trim_chars,
    trim_spec, views, trim_start_spec, trim_end_spec, is_ws, strip_cr, strip_cr_all,
    lemma_split_nonempty,
};
use crate::db::lemma_split_plain;

verus! {

pub open spec fn open_tag() -> Seq<char> {
    "<tools_changed_notice>"@
}

pub open spec fn close_tag() -> Seq<char> {
    "</tools_changed_notice>"@
}

pub open spec fn new_tools_prefix() -> Seq<char> {
    "New tools available:"@
}

pub open spec fn mcp_prefix() -> Seq<char> {
    "mcp__"@
}

/// The bodies of the complete `open ... close` blocks of `s` at or after
/// `start`, in order. An open tag without a close tag after it ends the
/// search: that block and anything after it are skipped.
pub open spec fn blocks_from(s: Seq<char>, open: Seq<char>, close: Seq<char>, start: int) -> Seq<
    Seq<char>,
>
    decreases s.len() + 1 - start,
    when start >= 0 && open.len() > 0
{
    proof {
        lemma_find_from_bounds(s, open, start);
    }
    match find_from_spec(s, open, start) {
        None => Seq::empty(),
        Some(o) => {
            let bs = o + open.len();
            proof {
                lemma_find_from_bounds(s, close, bs);
            }
            match find_from_spec(s, close, bs) {
                None => Seq::empty(),
                Some(c) => seq![s.subrange(bs, c)] + blocks_from(s, open, close, c + close.len()),
            }
        },
    }
}

/// The notice blocks of `content`.
pub open spec fn notices_spec(content: Seq<char>) -> Seq<Seq<char>> {
    blocks_from(content, open_tag(), close_tag(), 0)
}

pub open spec fn ascii_alnum(c: char) -> bool {
    ('0' <= c <= '9') || ('a' <= c <= 'z') || ('A' <= c <= 'Z')
}

/// A tool name: non-empty, ASCII letters, digits, `_` and `-` only.
pub open spec fn tool_name_ok(n: Seq<char>) -> bool {
    n.len() > 0 && forall|k: int| 0 <= k < n.len() ==> #[trigger] ascii_alnum(n[k]) || n[k] == '_'
        || n[k] == '-'
}

/// `true` when `s` is a non-empty run of ASCII letters, digits, `_`, `-`.
pub fn is_valid_tool_name(s: &str) -> (r: bool)
    ensures
        r == tool_name_ok(s@),
{
    let cs = chars_of(s);
    if cs.len() == 0 {
        return false;
    }
    let mut i: usize = 0;
    while i < cs.len()
        invariant
            cs@ == s@,
            i <= cs@.len(),
            forall|k: int| 0 <= k < i ==> #[trigger] ascii_alnum(cs@[k]) || cs@[k] == '_' || cs@[k] == '-',
        decreases cs@.len() - i,
    {
        let c = cs[i];
        let ok = ('0' <= c && c <= '9') || ('a' <= c && c <= 'z') || ('A' <= c && c <= 'Z') || c
            == '_' || c == '-';
        if !ok {
            assert(!(ascii_alnum(cs@[i as int]) || cs@[i as int] == '_' || cs@[i as int] == '-'));
            return false;
        }
        i += 1;
    }
    true
}

/// The valid names among comma-separated pieces, each trimmed.
pub open spec fn names_in_pieces(parts: Seq<Seq<char>>) -> Seq<Seq<char>>
    decreases parts.len(),
{
    if parts.len() == 0 {
        Seq::empty()
    } else {
        let prev = names_in_pieces(parts.drop_last());
        let n = trim_spec(parts.last());
        if tool_name_ok(n) {
            prev.push(n)
        } else {
            prev
        }
    }
}

/// The tool names one line announces: for a line that, trimmed, starts
/// with `New tools available:`, the valid names of the comma-separated
/// list after it; nothing for any other line.
pub open spec fn line_names(line: Seq<char>) -> Seq<Seq<char>> {
    let t = trim_spec(line);
    if new_tools_prefix().is_prefix_of(t) {
        names_in_pieces(split_spec(t.skip(new_tools_prefix().len() as int), ','))
    } else {
        Seq::empty()
    }
}

pub open spec fn lines_names(lines: Seq<Seq<char>>) -> Seq<Seq<char>>
    decreases lines.len(),
{
    if lines.len() == 0 {
        Seq::empty()
    } else {
        lines_names(lines.drop_last()) + line_names(lines.last())
    }
}

/// The tool names a block body announces, line by line, in order.
pub open spec fn block_names(block: Seq<char>) -> Seq<Seq<char>> {
    lines_names(lines_spec(block))
}

/// The bodies of the `<tools_changed_notice>` blocks in `content`, in
/// order; an opening tag with no closing tag after it is skipped.
pub fn find_tools_changed_notices(content: &str) -> (r: Vec<String>)
    ensures
        r@.map_values(|b: String| b@) == notices_spec(content@),
{
    proof {
        reveal_strlit("<tools_changed_notice>");
        reveal_strlit("</tools_changed_notice>");
    }
    let cs = chars_of(content);
    let open = chars_of("<tools_changed_notice>");
    let close = chars_of("</tools_changed_notice>");
    let ghost s = cs@;
    let mut out: Vec<String> = Vec::new();
    let mut start: usize = 0;
    let slen = cs.len();
    loop
        invariant
            slen == s.len(),
            s == content@,
            s == cs@,
            open@ == open_tag(),
            close@ == close_tag(),
            open@.len() == 22,
            close@.len() == 23,
            start <= s.len() + 1,
            out@.map_values(|b: String| b@) + blocks_from(s, open@, close@, start as int)
                == notices_spec(content@),
        ensures
            blocks_from(s, open@, close@, start as int) == Seq::<Seq<char>>::empty(),
            out@.map_values(|b: String| b@) + blocks_from(s, open@, close@, start as int)
                == notices_spec(content@),
        decreases s.len() + 1 - start,
    {
        proof {
            lemma_find_from_bounds(s, open@, start as int);
        }
        let o = match find_from(cs.as_slice(), open.as_slice(), start) {
            None => {
                break;
            },
            Some(o) => o,
        };
        assert(find_from_spec(s, open@, start as int) == Some(o as int));
        assert(o + open@.len() <= s.len());
        let bs = o + open.len();
        proof {
            lemma_find_from_bounds(s, close@, bs as int);
        }
        let c = match find_from(cs.as_slice(), close.as_slice(), bs) {
            None => {
                break;
            },
            Some(c) => c,
        };
        let block = crate::text::slice_string(cs.as_slice(), bs, c);
        let ghost before = out@.map_values(|b: String| b@);
        out.push(block);
        assert(out@.map_values(|b: String| b@) =~= before.push(s.subrange(bs as int, c as int)));
        assert(blocks_from(s, open@, close@, start as int) == seq![s.subrange(bs as int, c as int)]
            + blocks_from(s, open@, close@, c + close@.len()));
        assert(before.push(s.subrange(bs as int, c as int)) + blocks_from(s, open@, close@, c + close@.len())
            =~= before + (seq![s.subrange(bs as int, c as int)] + blocks_from(s, open@, close@, c + close@.len())));
        assert(c + close@.len() <= s.len());
        start = c + close.len();
    }
    assert(blocks_from(s, open@, close@, start as int) == Seq::<Seq<char>>::empty());
    assert(out@.map_values(|b: String| b@) =~= notices_spec(content@));
    out
}

/// The valid tool names of every `New tools available:` line of a notice
/// block body, in order; other lines (`Tools no longer available:` among
/// them) are ignored.
pub fn parse_new_tools_line(block: &str) -> (r: Vec<String>)
    ensures
        r@.map_values(|b: String| b@) == block_names(block@),
{
    proof {
        reveal_strlit("New tools available:");
    }
    let cs = chars_of(block);
    let prefix = chars_of("New tools available:");
    let lines = lines_of(cs.as_slice());
    let ghost ls = views(lines@);
    let mut out: Vec<String> = Vec::new();
    let mut i: usize = 0;
    while i < lines.len()
        invariant
            ls == views(lines@),
            ls == lines_spec(block@),
            cs@ == block@,
            prefix@ == new_tools_prefix(),
            i <= lines@.len(),
            out@.map_values(|b: String| b@) == lines_names(ls.take(i as int)),
        decreases lines@.len() - i,
    {
        let trimmed = trim_chars(lines[i].as_slice());
        assert(ls[i as int] == lines@[i as int]@);
        let ghost t = trimmed@;
        let ghost before = out@.map_values(|b: String| b@);
        if starts_with_chars(trimmed.as_slice(), prefix.as_slice()) {
            let rest = slice_chars(trimmed.as_slice(), prefix.len(), trimmed.len());
            assert(rest@ =~= t.skip(new_tools_prefix().len() as int));
            let pieces = split_chars(rest.as_slice(), ',');
            let ghost ps = views(pieces@);
            let mut j: usize = 0;
            while j < pieces.len()
                invariant
                    ps == views(pieces@),
                    ps == split_spec(rest@, ','),
                    j <= pieces@.len(),
                    out@.map_values(|b: String| b@) == before + names_in_pieces(ps.take(j as int)),
                decreases pieces@.len() - j,
            {
                let name = trim_chars(pieces[j].as_slice());
                assert(ps[j as int] == pieces@[j as int]@);
                assert(ps.take(j + 1).drop_last() =~= ps.take(j as int));
                let name_s = string_from_chars(name.as_slice());
                let ghost mid = out@.map_values(|b: String| b@);
                if name.len() > 0 && is_valid_tool_name(name_s.as_str()) {
                    out.push(name_s);
                    assert(out@.map_values(|b: String| b@) =~= mid.push(name@));
                }
                j += 1;
            }
            assert(ps.take(ps.len() as int) =~= ps);
            assert(line_names(ls[i as int]) == names_in_pieces(ps));
        } else {
            assert(line_names(ls[i as int]) =~= Seq::<Seq<char>>::empty());
        }
        assert(ls.take(i + 1).drop_last() =~= ls.take(i as int));
        assert(before + line_names(ls[i as int]) =~= out@.map_values(|b: String| b@));
        i += 1;
    }
    assert(ls.take(ls.len() as int) =~= ls);
    out
}

/// The tool names announced in a transformed user-message content: those
/// of each notice block, in order.
pub open spec fn content_names(content: Seq<char>) -> Seq<Seq<char>> {
    blocks_names(notices_spec(content))
}

pub open spec fn blocks_names(blocks: Seq<Seq<char>>) -> Seq<Seq<char>>
    decreases blocks.len(),
{
    if blocks.len() == 0 {
        Seq::empty()
    } else {
        blocks_names(blocks.drop_last()) + block_names(blocks.last())
    }
}

/// The tool names an event announces: those of a user message's
/// transformed content, nothing for any other event.
pub open spec fn event_names(e: CopilotEvent) -> Set<Seq<char>> {
    match e {
        CopilotEvent::UserMessage(env) => match env.data.transformed_content {
            Some(c) => content_names(c@).to_set(),
            None => Set::empty(),
        },
        _ => Set::empty(),
    }
}

/// Every tool name announced anywhere in `events`.
pub open spec fn announced(events: Seq<CopilotEvent>) -> Set<Seq<char>>
    decreases events.len(),
{
    if events.len() == 0 {
        Set::empty()
    } else {
        announced(events.drop_last()).union(event_names(events.last()))
    }
}

/// The ever-loaded MCP tool set of a session: every announced name that
/// starts with `mcp__`.
pub open spec fn loaded_set(events: Seq<CopilotEvent>) -> Set<Seq<char>> {
    announced(events).filter(|n: Seq<char>| mcp_prefix().is_prefix_of(n))
}

pub open spec fn mcp_only(names: Set<Seq<char>>) -> Set<Seq<char>> {
    names.filter(|n: Seq<char>| mcp_prefix().is_prefix_of(n))
}

proof fn lemma_concat_to_set(a: Seq<Seq<char>>, b: Seq<Seq<char>>)
    ensures
        (a + b).to_set() == a.to_set().union(b.to_set()),
{
    assert forall|x: Seq<char>| (a + b).to_set().contains(x) implies a.to_set().union(b.to_set()).contains(x) by {
        let k = choose|k: int| 0 <= k < (a + b).len() && (a + b)[k] == x;
        if k < a.len() {
            assert(a[k] == x);
        } else {
            assert(b[k - a.len()] == x);
        }
    }
    assert forall|x: Seq<char>| a.to_set().union(b.to_set()).contains(x) implies (a + b).to_set().contains(x) by {
        if a.to_set().contains(x) {
            let k = choose|k: int| 0 <= k < a.len() && a[k] == x;
            assert((a + b)[k] == x);
        } else {
            let k = choose|k: int| 0 <= k < b.len() && b[k] == x;
            assert((a + b)[k + a.len()] == x);
        }
    }
    assert((a + b).to_set() =~= a.to_set().union(b.to_set()));
}

/// Adds the `mcp__` names of `names` to the sorted set `acc`.
fn add_mcp_names(acc: &mut Vec<Vec<char>>, names: &Vec<String>)
    requires
        strictly_sorted(seq_views(old(acc)@)),
    ensures
        strictly_sorted(seq_views(final(acc)@)),
        seq_views(final(acc)@).to_set() == seq_views(old(acc)@).to_set().union(
            mcp_only(names@.map_values(|b: String| b@).to_set()),
        ),
{
    proof {
        reveal_strlit("mcp__");
    }
    let ghost ns = names@.map_values(|b: String| b@);
    let ghost s0 = seq_views(acc@).to_set();
    let mcp = chars_of("mcp__");
    let mut i: usize = 0;
    while i < names.len()
        invariant
            ns == names@.map_values(|b: String| b@),
            mcp@ == mcp_prefix(),
            i <= names@.len(),
            strictly_sorted(seq_views(acc@)),
            seq_views(acc@).to_set() == s0.union(mcp_only(ns.take(i as int).to_set())),
        decreases names@.len() - i,
    {
        let name = chars_of(names[i].as_str());
        assert(ns[i as int] == name@);
        assert(ns.take(i + 1) =~= ns.take(i as int).push(name@));
        let ghost before = seq_views(acc@).to_set();
        if starts_with_chars(name.as_slice(), mcp.as_slice()) {
            insert_sorted(acc, name);
            proof {
                lemma_concat_to_set(ns.take(i as int), seq![ns[i as int]]);
                assert(seq![ns[i as int]].to_set() =~= Set::empty().insert(ns[i as int])) by {
                    assert(seq![ns[i as int]][0] == ns[i as int]);
                }
                assert(ns.take(i as int) + seq![ns[i as int]] =~= ns.take(i + 1));
            }
            assert(mcp_only(ns.take(i + 1).to_set()) =~= mcp_only(ns.take(i as int).to_set()).insert(ns[i as int]));
            assert(seq_views(acc@).to_set() =~= s0.union(mcp_only(ns.take(i + 1).to_set())));
        } else {
            proof {
                lemma_concat_to_set(ns.take(i as int), seq![ns[i as int]]);
                assert(seq![ns[i as int]].to_set() =~= Set::empty().insert(ns[i as int])) by {
                    assert(seq![ns[i as int]][0] == ns[i as int]);
                }
                assert(ns.take(i as int) + seq![ns[i as int]] =~= ns.take(i + 1));
                assert(!mcp_prefix().is_prefix_of(ns[i as int]));
            }
            assert(mcp_only(ns.take(i + 1).to_set()) =~= mcp_only(ns.take(i as int).to_set()));
        }
        i += 1;
    }
    assert(ns.take(ns.len() as int) =~= ns);
}

/// The ever-loaded MCP tool set of a session: every `mcp__` name announced
/// by a `New tools available:` line of a notice block in any user
/// message's transformed content, in ascending order without duplicates.
/// Builtins and skills are left out; `Tools no longer available:` lines
/// remove nothing.
pub fn extract_loaded_set_from_session(events: &[CopilotEvent]) -> (r: Vec<String>)
    ensures
        strictly_sorted(r@.map_values(|s: String| s@)),
        r@.map_values(|s: String| s@).to_set() == loaded_set(events@),
{
    let mut acc: Vec<Vec<char>> = Vec::new();
    let mut i: usize = 0;
    assert(seq_views(acc@).to_set() =~= loaded_set(events@.take(0)));
    while i < events.len()
        invariant
            i <= events@.len(),
            strictly_sorted(seq_views(acc@)),
            seq_views(acc@).to_set() == loaded_set(events@.take(i as int)),
        decreases events@.len() - i,
    {
        let ghost prev = seq_views(acc@).to_set();
        assert(events@.take(i + 1).drop_last() =~= events@.take(i as int));
        if let CopilotEvent::UserMessage(env) = &events[i] {
            if let Some(content) = &env.data.transformed_content {
                let blocks = find_tools_changed_notices(content.as_str());
                let ghost bs = blocks@.map_values(|b: String| b@);
                let mut j: usize = 0;
                while j < blocks.len()
                    invariant
                        bs == blocks@.map_values(|b: String| b@),
                        bs == notices_spec(content@),
                        j <= blocks@.len(),
                        strictly_sorted(seq_views(acc@)),
                        seq_views(acc@).to_set() == prev.union(mcp_only(blocks_names(bs.take(j as int)).to_set())),
                    decreases blocks@.len() - j,
                {
                    let names = parse_new_tools_line(blocks[j].as_str());
                    assert(bs[j as int] == blocks@[j as int]@);
                    assert(bs.take(j + 1).drop_last() =~= bs.take(j as int));
                    let ghost before = seq_views(acc@).to_set();
                    add_mcp_names(&mut acc, &names);
                    proof {
                        lemma_concat_to_set(blocks_names(bs.take(j as int)), block_names(bs[j as int]));
                    }
                    assert(mcp_only(blocks_names(bs.take(j + 1)).to_set()) =~= mcp_only(
                        blocks_names(bs.take(j as int)).to_set(),
                    ).union(mcp_only(block_names(bs[j as int]).to_set())));
                    assert(seq_views(acc@).to_set() =~= prev.union(mcp_only(blocks_names(bs.take(j + 1)).to_set())));
                    j += 1;
                }
                assert(bs.take(bs.len() as int) =~= bs);
                assert(loaded_set(events@.take(i + 1)) =~= prev.union(mcp_only(content_names(content@).to_set())));
            } else {
                assert(loaded_set(events@.take(i + 1)) =~= prev);
            }
        } else {
            assert(loaded_set(events@.take(i + 1)) =~= prev);
        }
        i += 1;
    }
    assert(events@.take(events@.len() as int) =~= events@);
    let mut out: Vec<String> = Vec::new();
    let mut k: usize = 0;
    while k < acc.len()
        invariant
            k <= acc@.len(),
            out@.map_values(|s: String| s@) == seq_views(acc@).take(k as int),
        decreases acc@.len() - k,
    {
        let s = string_from_chars(acc[k].as_slice());
        assert(seq_views(acc@)[k as int] == acc@[k as int]@);
        let ghost before = out@;
        out.push(s);
        assert(out@ == before.push(s));
        assert(out@.map_values(|s: String| s@) =~= before.map_values(|s: String| s@).push(s@));
        assert(seq_views(acc@).take(k + 1) =~= seq_views(acc@).take(k as int).push(s@));
        k += 1;
    }
    assert(seq_views(acc@).take(acc@.len() as int) =~= seq_views(acc@));
    out
}

/// Ever-loaded: the loaded set of a longer session contains that of any
/// prefix of it, and is the union of the sets of its two parts.
pub proof fn law_loaded_set_union(a: Seq<CopilotEvent>, b: Seq<CopilotEvent>)
    ensures
        loaded_set(a + b) == loaded_set(a).union(loaded_set(b)),
        loaded_set(a).subset_of(loaded_set(a + b)),
    decreases b.len(),
{
    lemma_announced_union(a, b);
    assert(loaded_set(a + b) =~= loaded_set(a).union(loaded_set(b)));
}

proof fn lemma_announced_union(a: Seq<CopilotEvent>, b: Seq<CopilotEvent>)
    ensures
        announced(a + b) == announced(a).union(announced(b)),
    decreases b.len(),
{
    if b.len() == 0 {
        assert(a + b =~= a);
        assert(announced(a).union(announced(b)) =~= announced(a));
    } else {
        lemma_announced_union(a, b.drop_last());
        assert((a + b).drop_last() =~= a + b.drop_last());
        assert((a + b).last() == b.last());
        assert(announced(a + b) =~= announced(a).union(announced(b)));
    }
}

/// Every name of `names` is a valid tool name.
pub open spec fn all_tool_names(names: Seq<Seq<char>>) -> bool {
    forall|k: int| 0 <= k < names.len() ==> tool_name_ok(#[trigger] names[k])
}

proof fn lemma_all_concat(a: Seq<Seq<char>>, b: Seq<Seq<char>>)
    requires
        all_tool_names(a),
        all_tool_names(b),
    ensures
        all_tool_names(a + b),
{
    assert forall|k: int| 0 <= k < (a + b).len() implies tool_name_ok(#[trigger] (a + b)[k]) by {
        if k < a.len() {
            assert((a + b)[k] == a[k]);
        } else {
            assert((a + b)[k] == b[k - a.len()]);
        }
    }
}

proof fn lemma_pieces_valid(parts: Seq<Seq<char>>)
    ensures
        all_tool_names(names_in_pieces(parts)),
    decreases parts.len(),
{
    if parts.len() > 0 {
        lemma_pieces_valid(parts.drop_last());
        let prev = names_in_pieces(parts.drop_last());
        let n = trim_spec(parts.last());
        if tool_name_ok(n) {
            assert forall|k: int| 0 <= k < prev.push(n).len() implies tool_name_ok(#[trigger] prev.push(n)[k]) by {
                if k < prev.len() {
                    assert(prev.push(n)[k] == prev[k]);
                }
            }
        }
    }
}

proof fn lemma_lines_valid(lines: Seq<Seq<char>>)
    ensures
        all_tool_names(lines_names(lines)),
    decreases lines.len(),
{
    if lines.len() > 0 {
        lemma_lines_valid(lines.drop_last());
        let t = trim_spec(lines.last());
        lemma_pieces_valid(split_spec(t.skip(new_tools_prefix().len() as int), ','));
        lemma_all_concat(lines_names(lines.drop_last()), line_names(lines.last()));
    }
}

proof fn lemma_blocks_valid(blocks: Seq<Seq<char>>)
    ensures
        all_tool_names(blocks_names(blocks)),
    decreases blocks.len(),
{
    if blocks.len() > 0 {
        lemma_blocks_valid(blocks.drop_last());
        lemma_lines_valid(lines_spec(blocks.last()));
        lemma_all_concat(blocks_names(blocks.drop_last()), block_names(blocks.last()));
    }
}

proof fn lemma_announced_valid(events: Seq<CopilotEvent>, n: Seq<char>)
    requires
        announced(events).contains(n),
    ensures
        tool_name_ok(n),
    decreases events.len(),
{
    if announced(events.drop_last()).contains(n) {
        lemma_announced_valid(events.drop_last(), n);
    } else {
        match events.last() {
            CopilotEvent::UserMessage(env) => match env.data.transformed_content {
                Some(c) => {
                    let names = content_names(c@);
                    lemma_blocks_valid(notices_spec(c@));
                    let k = choose|k: int| 0 <= k < names.len() && names[k] == n;
                    assert(tool_name_ok(names[k]));
                },
                None => {},
            },
            _ => {},
        }
    }
}

/// Only MCP tools are ever in the loaded set: each name in it is
/// `mcp__` followed by more of a valid tool name (ASCII letters, digits,
/// `_` and `-`).
pub proof fn law_loaded_set_mcp_only(events: Seq<CopilotEvent>, n: Seq<char>)
    requires
        loaded_set(events).contains(n),
    ensures
        "mcp__"@.is_prefix_of(n),
        tool_name_ok(n),
{
    lemma_announced_valid(events, n);
}

/// A session without events has loaded no tool.
pub proof fn law_loaded_set_empty()
    ensures
        loaded_set(Seq::<CopilotEvent>::empty()) == Set::<Seq<char>>::empty(),
{
    assert(loaded_set(Seq::<CopilotEvent>::empty()) =~= Set::<Seq<char>>::empty());
}

/// A line that, trimmed, starts with `Tools no longer available:`
/// announces nothing: removal notices never shrink the set.
pub proof fn law_removal_line_ignored(line: Seq<char>)
    requires
        "Tools no longer available:"@.is_prefix_of(trim_spec(line)),
    ensures
        line_names(line) == Seq::<Seq<char>>::empty(),
{
    reveal_strlit("Tools no longer available:");
    reveal_strlit("New tools available:");
    let t = trim_spec(line);
    let lit = "Tools no longer available:"@;
    assert(lit[0] == 'T');
    assert(t.subrange(0, lit.len() as int)[0] == t[0]);
    if new_tools_prefix().is_prefix_of(t) {
        assert(new_tools_prefix()[0] == 'N');
        assert(t[0] == new_tools_prefix()[0]);
    }
}

/// A block opened but never closed is skipped: content with no closing
/// tag at all yields no block.
pub proof fn law_unclosed_block_skipped(content: Seq<char>)
    requires
        forall|i: int| 0 <= i ==> !occurs_at(content, close_tag(), i),
    ensures
        notices_spec(content) == Seq::<Seq<char>>::empty(),
{
    reveal_strlit("<tools_changed_notice>");
    lemma_find_from_bounds(content, open_tag(), 0);
    match find_from_spec(content, open_tag(), 0) {
        None => {},
        Some(o) => {
            lemma_find_from_bounds(content, close_tag(), o + open_tag().len());
        },
    }
}

/// Trimming ignores one more whitespace character at the end.
proof fn lemma_trim_drop_ws_last(s: Seq<char>)
    requires
        s.len() > 0,
        is_ws(s.last()),
    ensures
        trim_spec(s) == trim_spec(s.drop_last()),
    decreases s.len(),
{
    if is_ws(s[0]) {
        if s.len() == 1 {
            assert(s.drop_first() =~= Seq::<char>::empty());
            assert(s.drop_last() =~= Seq::<char>::empty());
        } else {
            let t = s.drop_first();
            assert(t.last() == s.last());
            lemma_trim_drop_ws_last(t);
            assert(s.drop_last().drop_first() =~= t.drop_last());
            assert(s.drop_last()[0] == s[0]);
        }
    } else {
        assert(s.len() >= 2);
        assert(s.drop_last()[0] == s[0]);
        assert(trim_start_spec(s) == s);
        assert(trim_start_spec(s.drop_last()) == s.drop_last());
    }
}

proof fn lemma_line_names_strip_cr(a: Seq<char>)
    ensures
        line_names(strip_cr(a)) == line_names(a),
{
    if a.len() > 0 && a.last() == '\r' {
        lemma_trim_drop_ws_last(a);
    }
}

proof fn lemma_split_two_lines(a: Seq<char>, b: Seq<char>)
    requires
        forall|k: int| 0 <= k < a.len() ==> a[k] != '\n',
        forall|k: int| 0 <= k < b.len() ==> b[k] != '\n',
    ensures
        split_spec(a + "\n"@ + b, '\n') == seq![a, b],
{
    reveal_strlit("\n");
    let e = Seq::<char>::empty();
    assert(split_spec(e, '\n') =~= seq![e]);
    lemma_split_plain(e, a, '\n');
    assert(e + a =~= a);
    assert(seq![e].update(0, e + a) =~= seq![a]);
    let q = a + "\n"@;
    assert(q.drop_last() =~= a);
    assert(q.last() == '\n');
    assert(split_spec(q, '\n') =~= seq![a, e]);
    lemma_split_plain(q, b, '\n');
    assert(seq![a, e].update(1, e + b) =~= seq![a, b]);
}

/// A block announces, line by line, the names its lines announce: for two
/// lines `a` and `b`, the names of `a`, newline, `b` are those of `a`
/// followed by those of `b`. Every `New tools available:` line counts, not
/// only the first that names a tool.
pub proof fn law_block_names_concat(a: Seq<char>, b: Seq<char>)
    requires
        forall|k: int| 0 <= k < a.len() ==> a[k] != '\n',
        forall|k: int| 0 <= k < b.len() ==> b[k] != '\n',
    ensures
        block_names(a + "\n"@ + b) == line_names(a) + line_names(b),
        block_names(a) == line_names(a),
{
    reveal_strlit("New tools available:");
    lemma_split_two_lines(a, b);
    let e = Seq::<char>::empty();
    let ls = lines_spec(a + "\n"@ + b);
    assert(seq![a, b].drop_last() =~= seq![a]);
    assert(strip_cr_all(seq![a]) =~= seq![strip_cr(a)]) by {
        assert(seq![a].drop_last() =~= Seq::<Seq<char>>::empty());
        assert(seq![a].last() == a);
        assert(strip_cr_all(Seq::<Seq<char>>::empty()) == Seq::<Seq<char>>::empty());
        assert(Seq::<Seq<char>>::empty().push(strip_cr(a)) =~= seq![strip_cr(a)]);
    }
    lemma_line_names_strip_cr(a);
    assert(lines_names(seq![strip_cr(a)]) =~= line_names(strip_cr(a))) by {
        assert(seq![strip_cr(a)].drop_last() =~= Seq::<Seq<char>>::empty());
        assert(seq![strip_cr(a)].last() == strip_cr(a));
        assert(lines_names(Seq::<Seq<char>>::empty()) == Seq::<Seq<char>>::empty());
        assert(Seq::<Seq<char>>::empty() + line_names(strip_cr(a)) =~= line_names(strip_cr(a)));
    }
    if b.len() == 0 {
        assert(trim_start_spec(b) == b);
        assert(trim_end_spec(b) == b);
        assert(!new_tools_prefix().is_prefix_of(b));
        assert(line_names(b) =~= Seq::<Seq<char>>::empty());
        assert(line_names(a) + line_names(b) =~= line_names(a));
    } else {
        assert(seq![strip_cr(a)].push(b).drop_last() =~= seq![strip_cr(a)]);
        assert(lines_names(seq![strip_cr(a)].push(b)) == lines_names(seq![strip_cr(a)]) + line_names(b));
    }
    // one line on its own
    assert(split_spec(e, '\n') =~= seq![e]);
    lemma_split_plain(e, a, '\n');
    assert(e + a =~= a);
    assert(split_spec(a, '\n') =~= seq![a]);
    assert(seq![a].drop_last() =~= Seq::<Seq<char>>::empty());
    assert(strip_cr_all(Seq::<Seq<char>>::empty()) =~= Seq::<Seq<char>>::empty());
    if a.len() == 0 {
        assert(trim_start_spec(a) == a);
        assert(trim_end_spec(a) == a);
        assert(!new_tools_prefix().is_prefix_of(a));
        assert(lines_spec(a) =~= Seq::<Seq<char>>::empty());
        assert(line_names(a) =~= Seq::<Seq<char>>::empty());
    } else {
        assert(seq![a].last() == a);
        assert(Seq::<Seq<char>>::empty().push(a) =~= seq![a]);
        assert(lines_spec(a) =~= seq![a]);
        assert(lines_names(seq![a]) =~= line_names(a)) by {
            assert(seq![a].drop_last() =~= Seq::<Seq<char>>::empty());
            assert(lines_names(Seq::<Seq<char>>::empty()) == Seq::<Seq<char>>::empty());
            assert(Seq::<Seq<char>>::empty() + line_names(a) =~= line_names(a));
        }
    }
}

} // verus!

