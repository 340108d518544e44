//! The plain-text session table of `agentprof list`: left-aligned columns
//! as wide as their widest cell, two spaces apart, with an optionally bold
//! header line; and the lines printed around it.

use vstd::prelude::*;
use crate::refs::{DualPathWarning, name_views};
use crate::text::{chars_of, decimal, push_char, push_str, u64_decimal};
use crate::db::{format_utc_ms, spec_format_utc_ms};

verus! {

pub open spec fn max_int(a: int, b: int) -> int {
    if a >= b {
        a
    } else {
        b
    }
}

/// Width of column `c`: the most characters among the header and the
/// column's cells of the first `n` rows.
pub open spec fn col_width(headers: Seq<Seq<char>>, rows: Seq<Seq<Seq<char>>>, c: int, n: int) -> int
    decreases n,
{
    if n <= 0 {
        headers[c].len() as int
    } else {
        max_int(col_width(headers, rows, c, n - 1), rows[n - 1][c].len() as int)
    }
}

proof fn lemma_col_width_max(headers: Seq<Seq<char>>, rows: Seq<Seq<Seq<char>>>, c: int, n: int)
    requires
        0 <= n <= rows.len(),
    ensures
        col_width(headers, rows, c, n) >= headers[c].len(),
        forall|r: int| 0 <= r < n ==> col_width(headers, rows, c, n) >= (#[trigger] rows[r])[c].len(),
        col_width(headers, rows, c, n) == headers[c].len() || exists|r: int|
            0 <= r < n && col_width(headers, rows, c, n) == (#[trigger] rows[r])[c].len(),
    decreases n,
{
    if n > 0 {
        lemma_col_width_max(headers, rows, c, n - 1);
        if col_width(headers, rows, c, n) != headers[c].len() && col_width(headers, rows, c, n) != rows[n - 1][c].len() {
            let r = choose|r: int| 0 <= r < n - 1 && col_width(headers, rows, c, n - 1) == (#[trigger] rows[r])[c].len();
            assert(col_width(headers, rows, c, n) == rows[r][c].len());
        }
    }
}

/// Each column is exactly as wide as its widest entry: at least as wide as
/// its header and as its cell in every row, and as wide as one of them.
pub proof fn law_column_width_is_widest_cell(headers: Seq<Seq<char>>, rows: Seq<Seq<Seq<char>>>, c: int)
    requires
        0 <= c < headers.len(),
    ensures
        widths_of(headers, rows)[c] >= headers[c].len(),
        forall|r: int| 0 <= r < rows.len() ==> widths_of(headers, rows)[c] >= (#[trigger] rows[r])[c].len(),
        widths_of(headers, rows)[c] == headers[c].len() || exists|r: int|
            0 <= r < rows.len() && widths_of(headers, rows)[c] == (#[trigger] rows[r])[c].len(),
{
    lemma_col_width_max(headers, rows, c, rows.len() as int);
}

/// `k` spaces.
pub open spec fn spaces(k: int) -> Seq<char> {
    Seq::new(if k > 0 { k as nat } else { 0 }, |i: int| ' ')
}

/// `s` left-aligned in a field of `w` characters (`{:w$}`): padded with
/// spaces on the right, never cut.
pub open spec fn pad(s: Seq<char>, w: int) -> Seq<char> {
    s + spaces(w - s.len())
}

/// The first `k` cells of a line, each padded to its column's width, two
/// spaces apart.
pub open spec fn line_prefix(cells: Seq<Seq<char>>, widths: Seq<int>, k: int) -> Seq<char>
    decreases k,
{
    if k <= 0 {
        Seq::empty()
    } else if k == 1 {
        pad(cells[0], widths[0])
    } else {
        line_prefix(cells, widths, k - 1) + "  "@ + pad(cells[k - 1], widths[k - 1])
    }
}

pub open spec fn widths_of(headers: Seq<Seq<char>>, rows: Seq<Seq<Seq<char>>>) -> Seq<int> {
    Seq::new(headers.len(), |c: int| col_width(headers, rows, c, rows.len() as int))
}

/// The rows' lines, each followed by a newline.
pub open spec fn body(rows: Seq<Seq<Seq<char>>>, widths: Seq<int>, n: int) -> Seq<char>
    decreases n,
{
    if n <= 0 {
        Seq::empty()
    } else {
        body(rows, widths, n - 1) + line_prefix(rows[n - 1], widths, widths.len() as int) + "\n"@
    }
}

/// The whole table: the header line between the bold on/off escapes
/// (`\x1b[1m`, `\x1b[0m`) when `bold`, a newline, then one line per row.
pub open spec fn table_spec(headers: Seq<Seq<char>>, rows: Seq<Seq<Seq<char>>>, bold: bool) -> Seq<char> {
    let w = widths_of(headers, rows);
    (if bold { "\x1b[1m"@ } else { Seq::empty() }) + line_prefix(headers, w, headers.len() as int) + (
    if bold {
        "\x1b[0m"@
    } else {
        Seq::empty()
    }) + "\n"@ + body(rows, w, rows.len() as int)
}

pub open spec fn string_views(v: Seq<String>) -> Seq<Seq<char>> {
    Seq::new(v.len(), |i: int| v[i]@)
}

pub open spec fn row_views(v: Seq<Vec<String>>) -> Seq<Seq<Seq<char>>> {
    Seq::new(v.len(), |i: int| string_views(v[i]@))
}

fn char_count(s: &String) -> (r: usize)
    ensures
        r == s@.len(),
{
    chars_of(s.as_str()).len()
}

fn push_padded(out: &mut String, s: &String, w: usize)
    ensures
        final(out)@ == old(out)@ + pad(s@, w as int),
{
    push_str(out, s.as_str());
    let n = char_count(s);
    let ghost base = out@;
    let mut k: usize = n;
    while k < w
        invariant
            n == s@.len(),
            n <= k <= w || (k == n && n >= w),
            out@ == base + spaces(k - n),
        decreases w - k,
    {
        push_char(out, ' ');
        assert(spaces(k - n).push(' ') =~= spaces(k + 1 - n));
        k += 1;
    }
    assert(spaces(k - n) =~= spaces(w - n));
}

fn push_line(out: &mut String, cells: &Vec<String>, widths: &Vec<usize>)
    requires
        cells@.len() == widths@.len(),
    ensures
        final(out)@ == old(out)@ + line_prefix(
            string_views(cells@),
            Seq::new(widths@.len(), |c: int| widths@[c] as int),
            widths@.len() as int,
        ),
{
    let ghost cv = string_views(cells@);
    let ghost wv = Seq::new(widths@.len(), |c: int| widths@[c] as int);
    let ghost base = out@;
    let mut i: usize = 0;
    while i < cells.len()
        invariant
            cells@.len() == widths@.len(),
            cv == string_views(cells@),
            wv == Seq::new(widths@.len(), |c: int| widths@[c] as int),
            i <= cells@.len(),
            out@ == base + line_prefix(cv, wv, i as int),
        decreases cells@.len() - i,
    {
        if i > 0 {
            push_str(out, "  ");
            proof {
                reveal_strlit("  ");
            }
        }
        push_padded(out, &cells[i], widths[i]);
        proof {
            assert(cv[i as int] == cells@[i as int]@);
            if i == 0 {
                assert(out@ =~= base + line_prefix(cv, wv, 1));
            } else {
                assert(out@ =~= base + line_prefix(cv, wv, i + 1));
            }
        }
        i += 1;
    }
}

/// Lays out `rows` under `headers` (see [`table_spec`]).
pub fn render_table(headers: &Vec<String>, rows: &Vec<Vec<String>>, use_bold: bool) -> (r: String)
    requires
        forall|i: int| 0 <= i < rows@.len() ==> (#[trigger] rows@[i])@.len() == headers@.len(),
    ensures
        r@ == table_spec(string_views(headers@), row_views(rows@), use_bold),
{
    proof {
        reveal_strlit("\x1b[1m");
        reveal_strlit("\x1b[0m");
        reveal_strlit("\n");
    }
    let ghost hv = string_views(headers@);
    let ghost rv = row_views(rows@);
    let ncol = headers.len();
    let mut widths: Vec<usize> = Vec::new();
    let mut c: usize = 0;
    while c < ncol
        invariant
            ncol == headers@.len(),
            hv == string_views(headers@),
            rv == row_views(rows@),
            forall|i: int| 0 <= i < rows@.len() ==> (#[trigger] rows@[i])@.len() == headers@.len(),
            c <= ncol,
            widths@.len() == c,
            forall|j: int| 0 <= j < c ==> widths@[j] as int == col_width(hv, rv, j, rv.len() as int),
        decreases ncol - c,
    {
        let mut w = char_count(&headers[c]);
        let mut r: usize = 0;
        while r < rows.len()
            invariant
                c < ncol,
                ncol == headers@.len(),
                hv == string_views(headers@),
                rv == row_views(rows@),
                forall|i: int| 0 <= i < rows@.len() ==> (#[trigger] rows@[i])@.len() == headers@.len(),
                r <= rows@.len(),
                w as int == col_width(hv, rv, c as int, r as int),
            decreases rows@.len() - r,
        {
            assert(rv[r as int][c as int] == rows@[r as int]@[c as int]@);
            let n = char_count(&rows[r][c]);
            if n > w {
                w = n;
            }
            r += 1;
        }
        widths.push(w);
        c += 1;
    }
    let ghost wv = Seq::new(widths@.len(), |c: int| widths@[c] as int);
    assert(wv =~= widths_of(hv, rv));
    let mut out = String::new();
    if use_bold {
        push_str(&mut out, "\x1b[1m");
    }
    push_line(&mut out, headers, &widths);
    if use_bold {
        push_str(&mut out, "\x1b[0m");
    }
    push_str(&mut out, "\n");
    let ghost head = out@;
    let mut r: usize = 0;
    while r < rows.len()
        invariant
            ncol == headers@.len(),
            widths@.len() == ncol,
            wv == Seq::new(widths@.len(), |c: int| widths@[c] as int),
            rv == row_views(rows@),
            forall|i: int| 0 <= i < rows@.len() ==> (#[trigger] rows@[i])@.len() == headers@.len(),
            r <= rows@.len(),
            out@ == head + body(rv, wv, r as int),
        decreases rows@.len() - r,
    {
        push_line(&mut out, &rows[r], &widths);
        push_str(&mut out, "\n");
        assert(rv[r as int] == string_views(rows@[r as int]@));
        assert(out@ =~= head + body(rv, wv, r + 1));
        r += 1;
    }
    assert(out@ =~= table_spec(hv, rv, use_bold));
    out
}

/// The column headers of the `list` table.
pub open spec fn list_headers() -> Seq<Seq<char>> {
    seq!["ID"@, "Started"@, "Model"@, "Turns"@, "Out-tokens"@, "Duration"@, "Size"@]
}

/// A session row of `agentprof list`. The output-token count, duration
/// and size arrive already written in their compact forms (`1.2k`, `3.0s`,
/// `40.1M`), which round through floating point outside the library; the
/// model and the duration are absent when the session recorded none.
#[derive(Debug, Clone)]
pub struct ListRow {
    /// Session id.
    pub id: String,
    /// Session start, in ms since the Unix epoch.
    pub started_at_ms: i64,
    /// Model of the first turn that names one.
    pub model: Option<String>,
    /// Number of turns.
    pub turns: usize,
    /// Output tokens, compact.
    pub out_tokens: String,
    /// First to last turn start, compact.
    pub duration: Option<String>,
    /// Log size, compact.
    pub size: String,
}

/// The text of a present cell, `-` for an absent one.
pub open spec fn dash_or(o: Option<String>) -> Seq<char> {
    match o {
        Some(s) => s@,
        None => "-"@,
    }
}

/// The Started cell: the start as chrono writes `%Y-%m-%d %H:%M UTC`,
/// or `-` for an instant chrono cannot represent.
pub open spec fn started_cell(ms: i64) -> Seq<char> {
    match spec_format_utc_ms(ms, "%Y-%m-%d %H:%M UTC"@) {
        Some(t) => t,
        None => "-"@,
    }
}

/// The seven cells of a `list` row: id, start, model (`-` when none),
/// turns in decimal, output tokens, duration (`-` when none), size.
pub open spec fn list_row_cells(r: ListRow) -> Seq<Seq<char>> {
    seq![r.id@, started_cell(r.started_at_ms), dash_or(r.model), decimal(r.turns as nat), r.out_tokens@, dash_or(r.duration), r.size@]
}

fn dash_or_text(o: &Option<String>) -> (r: String)
    ensures
        r@ == dash_or(*o),
{
    proof {
        reveal_strlit("-");
    }
    match o {
        Some(s) => {
            let mut t = String::new();
            push_str(&mut t, s.as_str());
            t
        },
        None => "-".to_owned(),
    }
}

/// The cells of one `list` row (see [`list_row_cells`]).
pub fn list_row_cells_of(r: &ListRow) -> (c: Vec<String>)
    ensures
        string_views(c@) == list_row_cells(*r),
{
    proof {
        reveal_strlit("%Y-%m-%d %H:%M UTC");
        reveal_strlit("-");
    }
    let started = match format_utc_ms(r.started_at_ms, "%Y-%m-%d %H:%M UTC") {
        Some(t) => t,
        None => "-".to_owned(),
    };
    let mut id = String::new();
    push_str(&mut id, r.id.as_str());
    let mut out_tokens = String::new();
    push_str(&mut out_tokens, r.out_tokens.as_str());
    let mut size = String::new();
    push_str(&mut size, r.size.as_str());
    let turns = u64_decimal(r.turns as u64);
    let c = vec![id, started, dash_or_text(&r.model), turns, out_tokens, dash_or_text(&r.duration), size];
    assert(string_views(c@) =~= list_row_cells(*r));
    c
}

/// The cell rows of `rows`.
pub open spec fn list_cells(rows: Seq<ListRow>) -> Seq<Seq<Seq<char>>> {
    Seq::new(rows.len(), |i: int| list_row_cells(rows[i]))
}

/// The `list` table: the seven columns ID, Started, Model, Turns,
/// Out-tokens, Duration and Size over the rows' cells (see
/// [`list_row_cells`]).
pub fn format_table(rows: &[ListRow], use_bold: bool) -> (r: String)
    ensures
        r@ == table_spec(list_headers(), list_cells(rows@), use_bold),
{
    proof {
        reveal_strlit("ID");
        reveal_strlit("Started");
        reveal_strlit("Model");
        reveal_strlit("Turns");
        reveal_strlit("Out-tokens");
        reveal_strlit("Duration");
        reveal_strlit("Size");
    }
    let headers = vec![
        "ID".to_owned(),
        "Started".to_owned(),
        "Model".to_owned(),
        "Turns".to_owned(),
        "Out-tokens".to_owned(),
        "Duration".to_owned(),
        "Size".to_owned(),
    ];
    assert(string_views(headers@) =~= list_headers());
    let mut cells: Vec<Vec<String>> = Vec::new();
    let mut i: usize = 0;
    while i < rows.len()
        invariant
            i <= rows@.len(),
            cells@.len() == i,
            forall|k: int| 0 <= k < i ==> (#[trigger] cells@[k])@.len() == 7,
            row_views(cells@) == list_cells(rows@).take(i as int),
        decreases rows@.len() - i,
    {
        let c = list_row_cells_of(&rows[i]);
        assert(string_views(c@).len() == 7);
        let ghost before = cells@;
        cells.push(c);
        assert(forall|k: int| 0 <= k < i ==> cells@[k] == before[k]);
        assert(row_views(cells@) =~= list_cells(rows@).take(i + 1)) by {
            assert forall|k: int| 0 <= k < i + 1 implies row_views(cells@)[k] == list_cells(rows@).take(i + 1)[k] by {
                if k < i {
                    assert(cells@[k] == before[k]);
                    assert(row_views(before)[k] == list_cells(rows@).take(i as int)[k]);
                }
            }
        }
        i += 1;
    }
    assert(list_cells(rows@).take(rows@.len() as int) =~= list_cells(rows@));
    render_table(&headers, &cells, use_bold)
}

/// The stderr line for one metadata divergence between the adapter and
/// the store.
pub open spec fn warning_line_spec(w: DualPathWarning) -> Seq<char> {
    "agentprof: warn: session "@ + w.session_id@ + ": "@ + decimal(w.differing_fields@.len())
        + " fields differ ("@ + joined(name_views(w.differing_fields@), name_views(
        w.differing_fields@,
    ).len() as int) + "); using adapter; will re-upsert"@
}

/// The first `n` names joined with `", "`.
pub open spec fn joined(names: Seq<Seq<char>>, n: int) -> Seq<char>
    decreases n,
{
    if n <= 0 {
        Seq::empty()
    } else if n == 1 {
        names[0]
    } else {
        joined(names, n - 1) + ", "@ + names[n - 1]
    }
}

/// `agentprof: warn: session <id>: <N> fields differ (<a>, <b>); using
/// adapter; will re-upsert`.
pub fn warning_line(w: &DualPathWarning) -> (r: String)
    ensures
        r@ == warning_line_spec(*w),
{
    proof {
        reveal_strlit("agentprof: warn: session ");
        reveal_strlit(": ");
        reveal_strlit(" fields differ (");
        reveal_strlit(", ");
        reveal_strlit("); using adapter; will re-upsert");
    }
    let ghost names = name_views(w.differing_fields@);
    let mut s = String::new();
    push_str(&mut s, "agentprof: warn: session ");
    push_str(&mut s, w.session_id.as_str());
    push_str(&mut s, ": ");
    let n = u64_decimal(w.differing_fields.len() as u64);
    push_str(&mut s, n.as_str());
    push_str(&mut s, " fields differ (");
    let ghost base = s@;
    let mut i: usize = 0;
    while i < w.differing_fields.len()
        invariant
            names == name_views(w.differing_fields@),
            i <= w.differing_fields@.len(),
            s@ == base + joined(names, i as int),
        decreases w.differing_fields@.len() - i,
    {
        if i > 0 {
            push_str(&mut s, ", ");
        }
        push_str(&mut s, w.differing_fields[i]);
        i += 1;
    }
    push_str(&mut s, "); using adapter; will re-upsert");
    s
}

/// The first `limit` references (all of them when `limit` is 0), in order.
pub fn take_limit(refs: Vec<crate::refs::SessionRef>, limit: usize) -> (r: Vec<crate::refs::SessionRef>)
    ensures
        r@ == if limit == 0 || limit >= refs@.len() { refs@ } else { refs@.take(limit as int) },
{
    let mut refs = refs;
    if limit > 0 && limit < refs.len() {
        refs.truncate(limit);
    }
    refs
}

/// The line `list` prints after the table.
pub fn list_footer(shown: usize, total: usize, since: &str, limit: usize) -> (r: String)
    ensures
        r@ == "\n("@ + decimal(shown as nat) + " of "@ + decimal(total as nat)
            + " sessions shown; --since="@ + since@ + " --limit="@ + decimal(limit as nat) + ")"@,
{
    proof {
        reveal_strlit("\n(");
        reveal_strlit(" of ");
        reveal_strlit(" sessions shown; --since=");
        reveal_strlit(" --limit=");
        reveal_strlit(")");
    }
    let mut s = String::new();
    push_str(&mut s, "\n(");
    push_str(&mut s, u64_decimal(shown as u64).as_str());
    push_str(&mut s, " of ");
    push_str(&mut s, u64_decimal(total as u64).as_str());
    push_str(&mut s, " sessions shown; --since=");
    push_str(&mut s, since);
    push_str(&mut s, " --limit=");
    push_str(&mut s, u64_decimal(limit as u64).as_str());
    push_str(&mut s, ")");
    s
}

/// The line `list` prints when no session falls in the window.
pub fn list_empty_line(since: &str, root: &str) -> (r: String)
    ensures
        r@ == "(no sessions matching --since="@ + since@ + " in "@ + root@ + ")"@,
{
    proof {
        reveal_strlit("(no sessions matching --since=");
        reveal_strlit(" in ");
        reveal_strlit(")");
    }
    let mut s = String::new();
    push_str(&mut s, "(no sessions matching --since=");
    push_str(&mut s, since);
    push_str(&mut s, " in ");
    push_str(&mut s, root);
    push_str(&mut s, ")");
    s
}

} // verus!
