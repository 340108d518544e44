//! Lexicographic order on character sequences (the order of `String`'s
//! `Ord`, since UTF-8 preserves code-point order) and a set of names kept
//! strictly sorted in that order, as a `BTreeSet<String>` iterates.

use vstd::prelude::*;

verus! {

/// `a` sorts strictly before `b` in code-point lexicographic order.
pub open spec fn lex_lt(a: Seq<char>, b: Seq<char>) -> bool
    decreases a.len(),
{
    if a.len() == 0 {
        b.len() > 0
    } else if b.len() == 0 {
        false
    } else if a[0] < b[0] {
        true
    } else if a[0] == b[0] {
        lex_lt(a.drop_first(), b.drop_first())
    } else {
        false
    }
}

pub proof fn lemma_lex_irreflexive(a: Seq<char>)
    ensures
        !lex_lt(a, a),
    decreases a.len(),
{
    if a.len() > 0 {
        lemma_lex_irreflexive(a.drop_first());
    }
}

pub proof fn lemma_lex_transitive(a: Seq<char>, b: Seq<char>, c: Seq<char>)
    requires
        lex_lt(a, b),
        lex_lt(b, c),
    ensures
        lex_lt(a, c),
    decreases a.len(),
{
    if a.len() > 0 && b.len() > 0 && c.len() > 0 {
        if a[0] == b[0] && b[0] == c[0] {
            lemma_lex_transitive(a.drop_first(), b.drop_first(), c.drop_first());
        }
    }
}

pub proof fn lemma_lex_total(a: Seq<char>, b: Seq<char>)
    ensures
        lex_lt(a, b) || a == b || lex_lt(b, a),
    decreases a.len(),
{
    if a.len() > 0 && b.len() > 0 && a[0] == b[0] {
        lemma_lex_total(a.drop_first(), b.drop_first());
        if a.drop_first() == b.drop_first() {
            assert(a =~= seq![a[0]] + a.drop_first());
            assert(b =~= seq![b[0]] + b.drop_first());
        }
    } else if a.len() == 0 && b.len() == 0 {
        assert(a =~= b);
    }
}

/// `a < b` in `String` order.
pub fn lex_less(a: &[char], b: &[char]) -> (r: bool)
    ensures
        r == lex_lt(a@, b@),
{
    let alen = a.len();
    let blen = b.len();
    let mut i: usize = 0;
    assert(a@.skip(0) =~= a@);
    assert(b@.skip(0) =~= b@);
    while i < alen && i < blen
        invariant
            alen == a@.len(),
            blen == b@.len(),
            i <= alen,
            i <= blen,
            lex_lt(a@.skip(i as int), b@.skip(i as int)) == lex_lt(a@, b@),
        decreases alen - i,
    {
        let ghost sa = a@.skip(i as int);
        let ghost sb = b@.skip(i as int);
        assert(sa[0] == a@[i as int]);
        assert(sb[0] == b@[i as int]);
        if a[i] < b[i] {
            return true;
        }
        if a[i] > b[i] {
            return false;
        }
        assert(sa.drop_first() =~= a@.skip(i + 1));
        assert(sb.drop_first() =~= b@.skip(i + 1));
        i += 1;
    }
    assert(a@.skip(i as int).len() == alen - i);
    assert(b@.skip(i as int).len() == blen - i);
    i == alen && i < blen
}

/// Character-sequence equality.
pub fn chars_eq(a: &[char], b: &[char]) -> (r: bool)
    ensures
        r == (a@ == b@),
{
    if a.len() != b.len() {
        return false;
    }
    let mut i: usize = 0;
    while i < a.len()
        invariant
            a@.len() == b@.len(),
            i <= a@.len(),
            forall|k: int| 0 <= k < i ==> a@[k] == b@[k],
        decreases a@.len() - i,
    {
        if a[i] != b[i] {
            return false;
        }
        i += 1;
    }
    assert(a@ =~= b@);
    true
}

/// Strictly increasing in lexicographic order (hence free of duplicates).
pub open spec fn strictly_sorted(s: Seq<Seq<char>>) -> bool {
    forall|i: int, j: int| 0 <= i < j < s.len() ==> lex_lt(#[trigger] s[i], #[trigger] s[j])
}

pub open spec fn seq_views(v: Seq<Vec<char>>) -> Seq<Seq<char>> {
    v.map_values(|x: Vec<char>| x@)
}

/// Inserts `x` into the strictly sorted `items`, unless it is already there.
pub fn insert_sorted(items: &mut Vec<Vec<char>>, x: Vec<char>)
    requires
        strictly_sorted(seq_views(old(items)@)),
    ensures
        strictly_sorted(seq_views(final(items)@)),
        seq_views(final(items)@).to_set() == seq_views(old(items)@).to_set().insert(x@),
{
    let ghost old_v = seq_views(items@);
    let n = items.len();
    let mut p: usize = 0;
    while p < n && lex_less(&items[p], &x)
        invariant
            n == items@.len(),
            p <= n,
            seq_views(items@) == old_v,
            forall|k: int| 0 <= k < p ==> lex_lt(#[trigger] old_v[k], x@),
        decreases n - p,
    {
        p += 1;
    }
    if p < n && chars_eq(&items[p], &x) {
        assert(old_v.to_set().insert(x@) =~= old_v.to_set()) by {
            assert(old_v[p as int] == x@);
        }
        return;
    }
    proof {
        if p < n {
            lemma_lex_total(old_v[p as int], x@);
        }
    }
    let ghost xv = x@;
    items.insert(p, x);
    let ghost new_v = seq_views(items@);
    assert(new_v =~= old_v.insert(p as int, xv));
    assert forall|i: int, j: int| 0 <= i < j < new_v.len() implies lex_lt(
        #[trigger] new_v[i],
        #[trigger] new_v[j],
    ) by {
        if j < p {
        } else if j == p {
        } else if i < p {
            assert(new_v[j] == old_v[j - 1]);
            if i == p {
            } else {
                assert(new_v[i] == old_v[i]);
            }
        } else if i == p {
            assert(new_v[j] == old_v[j - 1]);
            if j - 1 > p {
                lemma_lex_transitive(xv, old_v[p as int], old_v[j - 1]);
            }
        } else {
            assert(new_v[i] == old_v[i - 1]);
            assert(new_v[j] == old_v[j - 1]);
        }
    }
    assert(new_v.to_set() =~= old_v.to_set().insert(xv)) by {
        assert forall|e: Seq<char>| new_v.to_set().contains(e) implies old_v.to_set().insert(
            xv,
        ).contains(e) by {
            let k = choose|k: int| 0 <= k < new_v.len() && new_v[k] == e;
            if k < p {
                assert(old_v[k] == e);
            } else if k > p {
                assert(old_v[k - 1] == e);
            }
        }
        assert forall|e: Seq<char>| old_v.to_set().insert(xv).contains(e) implies new_v.to_set().contains(
            e,
        ) by {
            if e == xv {
                assert(new_v[p as int] == e);
            } else {
                let k = choose|k: int| 0 <= k < old_v.len() && old_v[k] == e;
                if k < p {
                    assert(new_v[k] == e);
                } else {
                    assert(new_v[k + 1] == e);
                }
            }
        }
    }
}

} // verus!
