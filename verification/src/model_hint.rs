//! Picking the dominant model of a session's per-model token usage, the
//! rule shared by `analyze`, `aggregate` and `mcp-waste` when inferring a
//! tokenizer.

use vstd::prelude::*;
use crate::order::{lex_lt, lex_less, lemma_lex_total, lemma_lex_transitive, lemma_lex_irreflexive};
use crate::text::chars_of;

verus! {

/// Token usage of one model.
#[derive(Debug, Clone, Copy, Default)]
pub struct ModelUsage {
    pub input_tokens: u64,
    pub output_tokens: u64,
    pub cache_read_tokens: u64,
    pub cache_write_tokens: u64,
}

/// Input, output, cache-read and cache-write tokens together.
pub open spec fn usage_total(u: ModelUsage) -> int {
    u.input_tokens + u.output_tokens + u.cache_read_tokens + u.cache_write_tokens
}

impl ModelUsage {
    /// No tokens of any kind.
    pub fn new() -> (u: ModelUsage)
        ensures
            usage_total(u) == 0,
            u.input_tokens == 0 && u.output_tokens == 0 && u.cache_read_tokens == 0
                && u.cache_write_tokens == 0,
    {
        ModelUsage { input_tokens: 0, output_tokens: 0, cache_read_tokens: 0, cache_write_tokens: 0 }
    }

    /// The sum of the four token counts (exact; it cannot overflow a `u128`).
    pub fn total(&self) -> (r: u128)
        ensures
            r == usage_total(*self),
    {
        self.input_tokens as u128 + self.output_tokens as u128 + self.cache_read_tokens as u128
            + self.cache_write_tokens as u128
    }
}

/// Entry `i` beats entry `j`: a larger total, or an equal total and a name
/// that sorts first.
pub open spec fn beats_or_ties(m: Seq<(String, ModelUsage)>, i: int, j: int) -> bool {
    usage_total(m[i].1) > usage_total(m[j].1) || (usage_total(m[i].1) == usage_total(m[j].1)
        && !lex_lt(m[j].0@, m[i].0@))
}

/// `name` is the dominant model of `m`: the name of an entry with the
/// largest total, the alphabetically first among those.
pub open spec fn is_dominant(m: Seq<(String, ModelUsage)>, name: Seq<char>) -> bool {
    exists|i: int|
        0 <= i < m.len() && m[i].0@ == name && forall|j: int| 0 <= j < m.len() ==> #[trigger] beats_or_ties(m, i, j)
}

/// The dominant model of the per-model usage `model_metrics`: the one with
/// the largest total, ties broken by the alphabetically earliest name;
/// `None` when there is no usage record or it is empty.
pub fn dominant_model(model_metrics: &Option<Vec<(String, ModelUsage)>>) -> (r: Option<String>)
    ensures
        match model_metrics {
            None => r is None,
            Some(m) => match r {
                None => m@.len() == 0,
                Some(name) => is_dominant(m@, name@),
            },
        },
{
    let m = match model_metrics {
        None => return None,
        Some(m) => m,
    };
    if m.len() == 0 {
        return None;
    }
    let mut best: usize = 0;
    let mut best_total = m[0].1.total();
    let mut best_name = chars_of(m[0].0.as_str());
    proof {
        lemma_lex_irreflexive(m@[0].0@);
    }
    let mut i: usize = 1;
    while i < m.len()
        invariant
            1 <= i <= m@.len(),
            best < i,
            best_total == usage_total(m@[best as int].1),
            best_name@ == m@[best as int].0@,
            forall|j: int| 0 <= j < i ==> #[trigger] beats_or_ties(m@, best as int, j),
        decreases m@.len() - i,
    {
        let t = m[i].1.total();
        let name = chars_of(m[i].0.as_str());
        let better = t > best_total || (t == best_total && lex_less(name.as_slice(), best_name.as_slice()));
        if better {
            let ghost old_best = best as int;
            proof {
                assert forall|j: int| 0 <= j < i + 1 implies #[trigger] beats_or_ties(m@, i as int, j) by {
                    if j == i {
                        lemma_lex_irreflexive(m@[j].0@);
                    } else {
                        assert(beats_or_ties(m@, old_best, j));
                        if usage_total(m@[i as int].1) == usage_total(m@[j].1) {
                            lemma_lex_total(m@[j].0@, m@[old_best].0@);
                            if lex_lt(m@[j].0@, m@[i as int].0@) {
                                lemma_lex_total(m@[j].0@, m@[old_best].0@);
                                if m@[j].0@ != m@[old_best].0@ {
                                    lemma_lex_transitive(m@[j].0@, m@[i as int].0@, m@[old_best].0@);
                                } else {
                                    lemma_lex_transitive(m@[i as int].0@, m@[j].0@, m@[i as int].0@);
                                    lemma_lex_irreflexive(m@[i as int].0@);
                                }
                            }
                        }
                    }
                }
            }
            best = i;
            best_total = t;
            best_name = name;
        } else {
            proof {
                lemma_lex_total(m@[i as int].0@, m@[best as int].0@);
                if t == best_total && m@[i as int].0@ == m@[best as int].0@ {
                    lemma_lex_irreflexive(m@[i as int].0@);
                }
                assert(beats_or_ties(m@, best as int, i as int));
            }
        }
        i += 1;
    }
    Some(m[best].0.clone())
}

} // verus!
