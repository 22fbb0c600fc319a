//! Laws of the scoring and ranking pipeline, stated and proved over the
//! same spec functions that the public contracts use.

use vstd::prelude::*;
use vstd::seq_lib::group_to_multiset_ensures;
use crate::entry::EntryModel;
use crate::rank::{page_ranking, page_slice, pair_ge, scored_matches, sorted_desc};
use crate::row::{raw_decodes, row_model_of};
use crate::search::scan_candidates;
use crate::store::{nul_free, scan_clean, scan_hit, Store};
use crate::score::{field_points, gloss_points, gloss_total, gloss_total_from, score_spec};
use crate::text::{
    contains_ci, eq_ci, lemma_eq_ci_implies_prefix_ci, lemma_prefix_ci_implies_contains_ci,
    prefix_ci,
};

verus! {

/// A field without any occurrence of the query matches no tier at all:
/// neither exactly nor as a prefix.
pub proof fn lemma_no_contains_no_tiers(f: Seq<char>, q: Seq<char>)
    requires
        !contains_ci(f, q),
    ensures
        !eq_ci(f, q),
        !prefix_ci(f, q),
{
    if eq_ci(f, q) {
        lemma_eq_ci_implies_prefix_ci(f, q);
        lemma_prefix_ci_implies_contains_ci(f, q);
    }
    if prefix_ci(f, q) {
        lemma_prefix_ci_implies_contains_ci(f, q);
    }
}

/// Exact-match dominance: an entry whose word equals the query strictly
/// outscores an entry whose word merely contains the query somewhere, when
/// the two entries agree on every other scored field — the shared
/// contributions cancel, and the word's exact tier decides. Together with
/// `lemma_higher_score_ranks_earlier` this puts the exact match strictly
/// before the substring match on any result page.
pub proof fn lemma_exact_match_dominates(e1: EntryModel, e2: EntryModel, q: Seq<char>)
    requires
        eq_ci(e1.word, q),
        contains_ci(e2.word, q),
        !eq_ci(e2.word, q),
        e1.reading == e2.reading,
        e1.pos == e2.pos,
        e1.pronunciation == e2.pronunciation,
        e1.translations == e2.translations,
    ensures
        score_spec(e1, q) > score_spec(e2, q),
{
    lemma_eq_ci_implies_prefix_ci(e1.word, q);
    lemma_prefix_ci_implies_contains_ci(e1.word, q);
    assert(gloss_total(e1.translations, q) == gloss_total(e2.translations, q));
}

/// In any sequence sorted by the ranking order, a strictly higher score
/// stands strictly earlier.
pub proof fn lemma_higher_score_ranks_earlier(s: Seq<(int, EntryModel)>, i: int, j: int)
    requires
        sorted_desc(s),
        0 <= i < s.len(),
        0 <= j < s.len(),
        s[i].0 > s[j].0,
    ensures
        i < j,
{
    if j <= i {
        if j < i {
            assert(pair_ge(s[j], s[i]));
        }
        assert(false);
    }
}

/// Tie-break by frequency: among entries with equal score, the one with the
/// higher frequency stands strictly earlier in any sequence sorted by the
/// ranking order.
pub proof fn lemma_tie_breaks_by_frequency(s: Seq<(int, EntryModel)>, i: int, j: int)
    requires
        sorted_desc(s),
        0 <= i < s.len(),
        0 <= j < s.len(),
        s[i].0 == s[j].0,
        s[i].1.freq > s[j].1.freq,
    ensures
        i < j,
{
    if j <= i {
        if j < i {
            assert(pair_ge(s[j], s[i]));
        }
        assert(false);
    }
}

/// Pagination boundary: while a full page's worth of matches remains the
/// page is full, the last partial page holds the remainder, and any page
/// past the end is empty.
pub proof fn lemma_pagination(s: Seq<(int, EntryModel)>, page: int, size: int)
    requires
        0 <= page,
        0 < size,
    ensures
        page * size + size <= s.len() ==> page_slice(s, page, size).len() == size,
        page * size <= s.len() <= page * size + size ==> page_slice(s, page, size).len() == s.len()
            - page * size,
        s.len() <= page * size ==> page_slice(s, page, size).len() == 0,
{
}

/// Pagination boundary along the whole pipeline: whatever order a correct
/// result page was produced in, its length is the full page size while a
/// full page's worth of matches remains, then the remainder, then zero.
pub proof fn lemma_page_ranking_len(
    ms: Seq<EntryModel>,
    q: Seq<char>,
    page: int,
    size: int,
    out: Seq<EntryModel>,
)
    requires
        page_ranking(ms, q, page, size, out),
        0 <= page,
        0 < size,
    ensures
        page * size + size <= scored_matches(ms, q).len() ==> out.len() == size,
        page * size <= scored_matches(ms, q).len() <= page * size + size ==> out.len()
            == scored_matches(ms, q).len() - page * size,
        scored_matches(ms, q).len() <= page * size ==> out.len() == 0,
{
    broadcast use group_to_multiset_ensures;

    let sorted = choose|sorted: Seq<(int, EntryModel)>|
        sorted.to_multiset() == scored_matches(ms, q).to_multiset() && sorted_desc(sorted) && out
            == page_slice(sorted, page, size).map_values(|p: (int, EntryModel)| p.1);
    assert(sorted.len() == sorted.to_multiset().len());
    assert(scored_matches(ms, q).len() == scored_matches(ms, q).to_multiset().len());
    lemma_pagination(sorted, page, size);
}

/// Round-trip: an entry whose encoded row stands in the store, with
/// NUL-free text fields, is among the candidates of any search for its own
/// word — the glue between the contracts of `insert_if_absent`, which
/// stores the encoded row and says it reads back as the entry, and
/// `search_db`, whose candidate set is complete for the scan's hits.
pub proof fn lemma_round_trip(store: &Store, e: EntryModel, cands: Seq<EntryModel>)
    requires
        store.rows().contains(row_model_of(e)),
        raw_decodes(row_model_of(e), e),
        nul_free(row_model_of(e).glosses),
        nul_free(e.word),
        nul_free(e.reading),
        nul_free(e.pronunciation),
        scan_candidates(store, e.word, cands),
    ensures
        cands.contains(e),
{
    let m = row_model_of(e);
    assert(eq_ci(m.word, e.word));
    lemma_eq_ci_implies_prefix_ci(m.word, e.word);
    lemma_prefix_ci_implies_contains_ci(m.word, e.word);
    assert(scan_hit(m, e.word));
    assert(scan_clean(m));
}

/// A translation gloss equal to the query strictly outscores a gloss that
/// merely contains it, when the two entries match the query in no field and
/// carry one gloss each.
pub proof fn lemma_gloss_equality_beats_containment(e1: EntryModel, e2: EntryModel, q: Seq<char>)
    requires
        !contains_ci(e1.word, q),
        !contains_ci(e1.reading, q),
        !contains_ci(e1.pos, q),
        !contains_ci(e1.pronunciation, q),
        !contains_ci(e2.word, q),
        !contains_ci(e2.reading, q),
        !contains_ci(e2.pos, q),
        !contains_ci(e2.pronunciation, q),
        e1.translations.len() == 1,
        eq_ci(e1.translations[0], q),
        e2.translations.len() == 1,
        contains_ci(e2.translations[0], q),
        !eq_ci(e2.translations[0], q),
    ensures
        score_spec(e1, q) > score_spec(e2, q),
{
    lemma_no_contains_no_tiers(e1.word, q);
    lemma_no_contains_no_tiers(e1.reading, q);
    lemma_no_contains_no_tiers(e1.pos, q);
    lemma_no_contains_no_tiers(e1.pronunciation, q);
    lemma_no_contains_no_tiers(e2.word, q);
    lemma_no_contains_no_tiers(e2.reading, q);
    lemma_no_contains_no_tiers(e2.pos, q);
    lemma_no_contains_no_tiers(e2.pronunciation, q);
    lemma_eq_ci_implies_prefix_ci(e1.translations[0], q);
    lemma_prefix_ci_implies_contains_ci(e1.translations[0], q);
    assert(field_points(e1, q) == 0);
    assert(field_points(e2, q) == 0);
    assert(gloss_total_from(e1.translations, q, 0) == gloss_points(e1.translations[0], q)
        + gloss_total_from(e1.translations, q, 1));
    assert(gloss_total_from(e2.translations, q, 0) == gloss_points(e2.translations[0], q)
        + gloss_total_from(e2.translations, q, 1));
    assert(gloss_total(e1.translations, q) == 40);
    assert(gloss_total(e2.translations, q) == 10);
}

} // verus!
