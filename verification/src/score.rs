//! The relevance scorer: a non-negative integer score for an entry against a
//! query. A score of zero means "not a match", even when the store's
//! substring scan returned the row.
//!
//! The tiers are additive and cumulative: an exact field match also counts as
//! a prefix and as a substring match, so exact matches dominate through
//! cumulative weight. All comparisons, gloss comparisons included, use the
//! one case policy of this crate: ASCII case-insensitive matching.

use vstd::prelude::*;
use crate::entry::{glosses_view, DictionaryEntry, EntryModel};
use crate::text::{contains_ci, contains_ci_exec, eq_ci, eq_ci_exec, prefix_ci, prefix_ci_exec};

verus! {

/// Points for an exact match on `word`, `reading` or `pronunciation`.
pub const EXACT_POINTS: u128 = 500;

/// Points for a prefix match on `word`, `reading`, `pos` or `pronunciation`.
pub const PREFIX_POINTS: u128 = 150;

/// Points for a substring match on `word`, `reading`, `pos` or
/// `pronunciation`.
pub const SUBSTRING_POINTS: u128 = 50;

/// Points for a translation gloss equal to the query.
pub const GLOSS_EXACT_POINTS: u128 = 30;

/// Points for a translation gloss containing the query.
pub const GLOSS_SUBSTRING_POINTS: u128 = 10;

/// The contribution of one translation gloss: a bonus for equality and a
/// smaller bonus for containment, cumulative as every tier is.
pub open spec fn gloss_points(g: Seq<char>, q: Seq<char>) -> int {
    (if eq_ci(g, q) {
        GLOSS_EXACT_POINTS as int
    } else {
        0
    }) + (if contains_ci(g, q) {
        GLOSS_SUBSTRING_POINTS as int
    } else {
        0
    })
}

/// The accumulated gloss bonuses from position `i` of the gloss list on.
pub open spec fn gloss_total_from(ts: Seq<Seq<char>>, q: Seq<char>, i: int) -> int
    decreases ts.len() - i,
{
    if i < 0 || i >= ts.len() {
        0
    } else {
        gloss_points(ts[i], q) + gloss_total_from(ts, q, i + 1)
    }
}

/// The accumulated gloss bonuses over the whole gloss list.
pub open spec fn gloss_total(ts: Seq<Seq<char>>, q: Seq<char>) -> int {
    gloss_total_from(ts, q, 0)
}

/// The field-tier contributions: exact matches on `word`, `reading` and
/// `pronunciation`; prefix and substring matches on those three and `pos`.
pub open spec fn field_points(e: EntryModel, q: Seq<char>) -> int {
    (if eq_ci(e.word, q) {
        EXACT_POINTS as int
    } else {
        0
    }) + (if eq_ci(e.reading, q) {
        EXACT_POINTS as int
    } else {
        0
    }) + (if eq_ci(e.pronunciation, q) {
        EXACT_POINTS as int
    } else {
        0
    }) + (if prefix_ci(e.word, q) {
        PREFIX_POINTS as int
    } else {
        0
    }) + (if prefix_ci(e.reading, q) {
        PREFIX_POINTS as int
    } else {
        0
    }) + (if prefix_ci(e.pos, q) {
        PREFIX_POINTS as int
    } else {
        0
    }) + (if prefix_ci(e.pronunciation, q) {
        PREFIX_POINTS as int
    } else {
        0
    }) + (if contains_ci(e.word, q) {
        SUBSTRING_POINTS as int
    } else {
        0
    }) + (if contains_ci(e.reading, q) {
        SUBSTRING_POINTS as int
    } else {
        0
    }) + (if contains_ci(e.pos, q) {
        SUBSTRING_POINTS as int
    } else {
        0
    }) + (if contains_ci(e.pronunciation, q) {
        SUBSTRING_POINTS as int
    } else {
        0
    })
}

/// The full score of an entry against a query.
pub open spec fn score_spec(e: EntryModel, q: Seq<char>) -> int {
    field_points(e, q) + gloss_total(e.translations, q)
}

/// An entry counts as a match when it scores above zero.
pub open spec fn entry_matches(e: EntryModel, q: Seq<char>) -> bool {
    score_spec(e, q) > 0
}

pub proof fn lemma_gloss_total_from_nonneg(ts: Seq<Seq<char>>, q: Seq<char>, i: int)
    ensures
        0 <= gloss_total_from(ts, q, i),
        0 <= i <= ts.len() ==> gloss_total_from(ts, q, i) <= (GLOSS_EXACT_POINTS as int
            + GLOSS_SUBSTRING_POINTS as int) * (ts.len() - i),
    decreases ts.len() - i,
{
    if i < 0 || i >= ts.len() {
    } else {
        lemma_gloss_total_from_nonneg(ts, q, i + 1);
    }
}

/// The score never goes below zero.
pub proof fn lemma_score_nonneg(e: EntryModel, q: Seq<char>)
    ensures
        score_spec(e, q) >= 0,
{
    lemma_gloss_total_from_nonneg(e.translations, q, 0);
}

fn eq_points(a: &str, q: &str) -> (r: u128)
    ensures
        r as int == (if eq_ci(a@, q@) {
            EXACT_POINTS as int
        } else {
            0
        }),
{
    if eq_ci_exec(a, q) {
        EXACT_POINTS
    } else {
        0
    }
}

fn prefix_points(a: &str, q: &str) -> (r: u128)
    ensures
        r as int == (if prefix_ci(a@, q@) {
            PREFIX_POINTS as int
        } else {
            0
        }),
{
    if prefix_ci_exec(a, q) {
        PREFIX_POINTS
    } else {
        0
    }
}

fn substring_points(a: &str, q: &str) -> (r: u128)
    ensures
        r as int == (if contains_ci(a@, q@) {
            SUBSTRING_POINTS as int
        } else {
            0
        }),
{
    if contains_ci_exec(a, q) {
        SUBSTRING_POINTS
    } else {
        0
    }
}

/// Computes the relevance score of `entry` for the query `word`.
///
/// The result is exactly `score_spec`; the result type is wide enough that
/// the additive tiers can never overflow it, however many glosses an entry
/// carries.
pub fn calculate_score(entry: &DictionaryEntry, word: &str) -> (score: u128)
    ensures
        score as int == score_spec(entry.model(), word@),
{
    let mut score: u128 = 0;
    score = score + eq_points(entry.word.as_str(), word);
    score = score + eq_points(entry.reading.as_str(), word);
    score = score + eq_points(entry.pronunciation.as_str(), word);
    score = score + prefix_points(entry.word.as_str(), word);
    score = score + prefix_points(entry.reading.as_str(), word);
    score = score + prefix_points(entry.pos.as_str(), word);
    score = score + prefix_points(entry.pronunciation.as_str(), word);
    score = score + substring_points(entry.word.as_str(), word);
    score = score + substring_points(entry.reading.as_str(), word);
    score = score + substring_points(entry.pos.as_str(), word);
    score = score + substring_points(entry.pronunciation.as_str(), word);
    assert(score as int == field_points(entry.model(), word@));
    let ghost ts = entry.model().translations;
    let glosses = &entry.translations;
    let n = glosses.len();
    let mut i: usize = 0;
    while i < n
        invariant
            n == glosses@.len(),
            ts == glosses_view(glosses@),
            0 <= i <= n,
            score as int == field_points(entry.model(), word@) + gloss_total(ts, word@)
                - gloss_total_from(ts, word@, i as int),
            score as int <= 5500 + 40 * (i as int),
        decreases n - i,
    {
        proof {
            lemma_gloss_total_from_nonneg(ts, word@, i as int);
            lemma_gloss_total_from_nonneg(ts, word@, i + 1);
        }
        let g = glosses[i].as_str();
        assert(g@ == ts[i as int]);
        if eq_ci_exec(g, word) {
            score = score + GLOSS_EXACT_POINTS;
        }
        if contains_ci_exec(g, word) {
            score = score + GLOSS_SUBSTRING_POINTS;
        }
        i = i + 1;
    }
    proof {
        assert(gloss_total_from(ts, word@, n as int) == 0);
    }
    score
}

} // verus!
