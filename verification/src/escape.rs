//! Escaping text for the HTML and Markdown renderers.

use vstd::prelude::*;
use crate::text::{chars_of, push_char, push_str};

verus! {

/// The HTML form of one character: the five metacharacters `&`, `<`, `>`,
/// `"` and `'` as entities, every other character as itself.
pub open spec fn html_char(c: char) -> Seq<char> {
    if c == '&' {
        "&amp;"@
    } else if c == '<' {
        "&lt;"@
    } else if c == '>' {
        "&gt;"@
    } else if c == '"' {
        "&quot;"@
    } else if c == '\'' {
        "&#39;"@
    } else {
        seq![c]
    }
}

/// `s` with each character replaced by its HTML form.
pub open spec fn html_escape_spec(s: Seq<char>) -> Seq<char>
    decreases s.len(),
{
    if s.len() == 0 {
        Seq::empty()
    } else {
        html_escape_spec(s.drop_last()) + html_char(s.last())
    }
}

/// Escapes the five HTML metacharacters of `s` (`&` as `&amp;`, `<` as
/// `&lt;`, `>` as `&gt;`, `"` as `&quot;`, `'` as `&#39;`).
pub fn html_escape(s: &str) -> (r: String)
    ensures
        r@ == html_escape_spec(s@),
{
    proof {
        reveal_strlit("&amp;");
        reveal_strlit("&lt;");
        reveal_strlit("&gt;");
        reveal_strlit("&quot;");
        reveal_strlit("&#39;");
    }
    let cs = chars_of(s);
    let mut out = String::new();
    let mut i: usize = 0;
    while i < cs.len()
        invariant
            cs@ == s@,
            i <= cs@.len(),
            out@ == html_escape_spec(cs@.take(i as int)),
        decreases cs@.len() - i,
    {
        let c = cs[i];
        assert(cs@.take(i + 1).drop_last() =~= cs@.take(i as int));
        if c == '&' {
            push_str(&mut out, "&amp;");
        } else if c == '<' {
            push_str(&mut out, "&lt;");
        } else if c == '>' {
            push_str(&mut out, "&gt;");
        } else if c == '"' {
            push_str(&mut out, "&quot;");
        } else if c == '\'' {
            push_str(&mut out, "&#39;");
        } else {
            push_char(&mut out, c);
            assert(out@ =~= html_escape_spec(cs@.take(i as int)) + seq![c]);
        }
        i += 1;
    }
    assert(cs@.take(cs@.len() as int) =~= cs@);
    out
}

/// No `<`, `>`, `"` or `'` survives HTML escaping: the result is safe in
/// element text and in double- or single-quoted attributes.
pub proof fn law_html_escape_no_metacharacters(s: Seq<char>)
    ensures
        forall|k: int|
            0 <= k < html_escape_spec(s).len() ==> {
                let c = #[trigger] html_escape_spec(s)[k];
                c != '<' && c != '>' && c != '"' && c != '\''
            },
    decreases s.len(),
{
    reveal_strlit("&amp;");
    reveal_strlit("&lt;");
    reveal_strlit("&gt;");
    reveal_strlit("&quot;");
    reveal_strlit("&#39;");
    if s.len() > 0 {
        law_html_escape_no_metacharacters(s.drop_last());
        let a = html_escape_spec(s.drop_last());
        let b = html_char(s.last());
        assert forall|k: int| 0 <= k < (a + b).len() implies {
            let c = #[trigger] (a + b)[k];
            c != '<' && c != '>' && c != '"' && c != '\''
        } by {
            if k >= a.len() {
                assert((a + b)[k] == b[k - a.len()]);
            } else {
                assert((a + b)[k] == a[k]);
            }
        }
    }
}

/// Text without metacharacters is left unchanged.
pub proof fn law_html_escape_plain_unchanged(s: Seq<char>)
    requires
        forall|k: int|
            0 <= k < s.len() ==> {
                let c = #[trigger] s[k];
                c != '&' && c != '<' && c != '>' && c != '"' && c != '\''
            },
    ensures
        html_escape_spec(s) == s,
    decreases s.len(),
{
    if s.len() > 0 {
        assert(s.last() == s[s.len() - 1]);
        law_html_escape_plain_unchanged(s.drop_last());
        assert(s.drop_last() + seq![s.last()] =~= s);
    }
}

/// The Markdown table-cell form of one character: `|` escaped as `\|`,
/// a newline as a space, every other character as itself.
pub open spec fn md_char(c: char) -> Seq<char> {
    if c == '|' {
        seq!['\\', '|']
    } else if c == '\n' {
        seq![' ']
    } else {
        seq![c]
    }
}

/// `s` with each character replaced by its table-cell form.
pub open spec fn md_escape_spec(s: Seq<char>) -> Seq<char>
    decreases s.len(),
{
    if s.len() == 0 {
        Seq::empty()
    } else {
        md_escape_spec(s.drop_last()) + md_char(s.last())
    }
}

/// Makes `s` safe inside a Markdown table cell: `|` becomes `\|` and a
/// newline becomes a space.
pub fn md_escape(s: &str) -> (r: String)
    ensures
        r@ == md_escape_spec(s@),
{
    let cs = chars_of(s);
    let mut out = String::new();
    let mut i: usize = 0;
    while i < cs.len()
        invariant
            cs@ == s@,
            i <= cs@.len(),
            out@ == md_escape_spec(cs@.take(i as int)),
        decreases cs@.len() - i,
    {
        let c = cs[i];
        assert(cs@.take(i + 1).drop_last() =~= cs@.take(i as int));
        let ghost before = out@;
        if c == '|' {
            push_char(&mut out, '\\');
            push_char(&mut out, '|');
            assert(out@ =~= before + seq!['\\', '|']);
        } else if c == '\n' {
            push_char(&mut out, ' ');
            assert(out@ =~= before + seq![' ']);
        } else {
            push_char(&mut out, c);
            assert(out@ =~= before + seq![c]);
        }
        i += 1;
    }
    assert(cs@.take(cs@.len() as int) =~= cs@);
    out
}

/// A Markdown-escaped cell holds no newline, and every `|` in it is
/// preceded by a backslash, so it can neither end the row nor split the
/// cell.
pub proof fn law_md_escape_cell_safe(s: Seq<char>)
    ensures
        forall|k: int| 0 <= k < md_escape_spec(s).len() ==> #[trigger] md_escape_spec(s)[k] != '\n',
        forall|k: int|
            0 <= k < md_escape_spec(s).len() && #[trigger] md_escape_spec(s)[k] == '|' ==> k > 0
                && md_escape_spec(s)[k - 1] == '\\',
    decreases s.len(),
{
    if s.len() > 0 {
        law_md_escape_cell_safe(s.drop_last());
        let a = md_escape_spec(s.drop_last());
        let b = md_char(s.last());
        assert forall|k: int| 0 <= k < (a + b).len() implies #[trigger] (a + b)[k] != '\n' by {
            if k >= a.len() {
                assert((a + b)[k] == b[k - a.len()]);
            } else {
                assert((a + b)[k] == a[k]);
            }
        }
        assert forall|k: int| 0 <= k < (a + b).len() && #[trigger] (a + b)[k] == '|' implies k > 0
            && (a + b)[k - 1] == '\\' by {
            if k >= a.len() {
                assert((a + b)[k] == b[k - a.len()]);
                if k - a.len() == 1 {
                    assert((a + b)[k - 1] == b[0]);
                }
            } else {
                assert((a + b)[k] == a[k]);
                assert((a + b)[k - 1] == a[k - 1]);
            }
        }
    }
}

} // verus!
