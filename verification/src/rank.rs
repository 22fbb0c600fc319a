//! Ranking and pagination: score all candidates, drop non-matches, sort
//! descending by score with frequency as the tie-break, and return one page.
//!
//! The order among candidates with equal score and equal frequency is left
//! open: the store's scan order is not a contract, so the result is any
//! sequence that sorts the match set by the ranking order.

use vstd::prelude::*;
use vstd::seq_lib::group_to_multiset_ensures;
use crate::entry::{DictionaryEntry, EntryModel};
use crate::score::{calculate_score, entry_matches, score_spec};

verus! {

broadcast use group_to_multiset_ensures;

pub open spec fn models_of(s: Seq<DictionaryEntry>) -> Seq<EntryModel> {
    s.map_values(|e: DictionaryEntry| e.model())
}

/// One scored candidate: the score and the entry it belongs to.
pub open spec fn pairs_model(s: Seq<(u128, DictionaryEntry)>) -> Seq<(int, EntryModel)> {
    s.map_values(|p: (u128, DictionaryEntry)| (p.0 as int, p.1.model()))
}

/// The ranking order: higher score first; among equal scores, higher
/// frequency first.
pub open spec fn pair_ge(a: (int, EntryModel), b: (int, EntryModel)) -> bool {
    a.0 > b.0 || (a.0 == b.0 && a.1.freq >= b.1.freq)
}

pub open spec fn sorted_desc(s: Seq<(int, EntryModel)>) -> bool {
    forall|i: int, j: int| 0 <= i < j < s.len() ==> pair_ge(s[i], s[j])
}

/// The scored match set of the candidates from position `i` on: every
/// candidate with a positive score, paired with that score, in input order.
pub open spec fn scored_from(ms: Seq<EntryModel>, q: Seq<char>, i: int) -> Seq<(int, EntryModel)>
    decreases ms.len() - i,
{
    if i < 0 || i >= ms.len() {
        Seq::empty()
    } else if entry_matches(ms[i], q) {
        seq![(score_spec(ms[i], q), ms[i])] + scored_from(ms, q, i + 1)
    } else {
        scored_from(ms, q, i + 1)
    }
}

/// The scored match set of all candidates.
pub open spec fn scored_matches(ms: Seq<EntryModel>, q: Seq<char>) -> Seq<(int, EntryModel)> {
    scored_from(ms, q, 0)
}

/// The first index of the requested page, clamped to the match count.
pub open spec fn page_start(total: int, page: int, size: int) -> int {
    if page * size > total {
        total
    } else {
        page * size
    }
}

/// One past the last index of the requested page, clamped to the match count.
pub open spec fn page_end(total: int, page: int, size: int) -> int {
    if page * size + size > total {
        total
    } else {
        page * size + size
    }
}

pub open spec fn page_slice(s: Seq<(int, EntryModel)>, page: int, size: int) -> Seq<
    (int, EntryModel),
> {
    s.subrange(page_start(s.len() as int, page, size), page_end(s.len() as int, page, size))
}

/// `out` is a correct result page for the candidate models `ms`: some
/// sequence `sorted` holds exactly the scored match set of `ms`, is sorted by
/// the ranking order, and `out` is its requested page with the scores
/// stripped.
pub open spec fn page_ranking(
    ms: Seq<EntryModel>,
    q: Seq<char>,
    page: int,
    size: int,
    out: Seq<EntryModel>,
) -> bool {
    exists|sorted: Seq<(int, EntryModel)>|
        sorted.to_multiset() == scored_matches(ms, q).to_multiset() && sorted_desc(sorted) && out
            == page_slice(sorted, page, size).map_values(|p: (int, EntryModel)| p.1)
}

fn pair_ge_exec(a: &(u128, DictionaryEntry), b: &(u128, DictionaryEntry)) -> (r: bool)
    ensures
        r == pair_ge((a.0 as int, a.1.model()), (b.0 as int, b.1.model())),
{
    a.0 > b.0 || (a.0 == b.0 && a.1.freq >= b.1.freq)
}

fn score_and_filter(cands: &Vec<DictionaryEntry>, query: &str) -> (r: Vec<(u128, DictionaryEntry)>)
    ensures
        pairs_model(r@) == scored_matches(models_of(cands@), query@),
{
    let ghost ms = models_of(cands@);
    let mut out: Vec<(u128, DictionaryEntry)> = Vec::new();
    let n = cands.len();
    let mut i: usize = 0;
    proof {
        assert(pairs_model(out@) =~= Seq::<(int, EntryModel)>::empty());
    }
    while i < n
        invariant
            n == cands@.len(),
            ms == models_of(cands@),
            0 <= i <= n,
            scored_matches(ms, query@) == pairs_model(out@) + scored_from(ms, query@, i as int),
        decreases n - i,
    {
        let score = calculate_score(&cands[i], query);
        assert(cands@[i as int].model() == ms[i as int]);
        let ghost before = pairs_model(out@);
        if score > 0 {
            out.push((score, cands[i].clone()));
            proof {
                assert(pairs_model(out@) =~= before.push(
                    (score_spec(ms[i as int], query@), ms[i as int]),
                ));
                assert(scored_from(ms, query@, i as int) == seq![
                    (score_spec(ms[i as int], query@), ms[i as int]),
                ] + scored_from(ms, query@, i + 1));
                assert(pairs_model(out@) + scored_from(ms, query@, i + 1) =~= before
                    + scored_from(ms, query@, i as int));
            }
        } else {
            proof {
                assert(!entry_matches(ms[i as int], query@));
                assert(scored_from(ms, query@, i as int) == scored_from(ms, query@, i + 1));
            }
        }
        i = i + 1;
    }
    proof {
        assert(scored_from(ms, query@, n as int) =~= Seq::<(int, EntryModel)>::empty());
        assert(pairs_model(out@) + scored_from(ms, query@, n as int) =~= pairs_model(out@));
    }
    out
}

fn sort_pairs(scored: Vec<(u128, DictionaryEntry)>) -> (r: Vec<(u128, DictionaryEntry)>)
    ensures
        pairs_model(r@).to_multiset() == pairs_model(scored@).to_multiset(),
        sorted_desc(pairs_model(r@)),
{
    let ghost orig = pairs_model(scored@);
    let mut rem = scored;
    let mut out: Vec<(u128, DictionaryEntry)> = Vec::new();
    proof {
        assert(pairs_model(out@) =~= Seq::<(int, EntryModel)>::empty());
        assert(pairs_model(out@).to_multiset().add(pairs_model(rem@).to_multiset())
            =~= orig.to_multiset());
    }
    while rem.len() > 0
        invariant
            pairs_model(out@).to_multiset().add(pairs_model(rem@).to_multiset())
                == orig.to_multiset(),
            sorted_desc(pairs_model(out@)),
            forall|x: (int, EntryModel), y: (int, EntryModel)|
                pairs_model(out@).contains(x) && pairs_model(rem@).contains(y) ==> pair_ge(x, y),
        decreases rem@.len(),
    {
        let mut best: usize = 0;
        let mut k: usize = 1;
        while k < rem.len()
            invariant
                rem@.len() > 0,
                0 <= best < k <= rem@.len(),
                forall|t: int|
                    0 <= t < k ==> pair_ge(
                        pairs_model(rem@)[best as int],
                        pairs_model(rem@)[t],
                    ),
            decreases rem@.len() - k,
        {
            if pair_ge_exec(&rem[k], &rem[best]) {
                best = k;
            }
            k = k + 1;
        }
        let ghost rem_before = pairs_model(rem@);
        let ghost out_before = pairs_model(out@);
        let ghost picked = rem_before[best as int];
        let x = rem.remove(best);
        out.push(x);
        proof {
            assert(pairs_model(rem@) =~= rem_before.remove(best as int));
            assert(pairs_model(out@) =~= out_before.push(picked));
            assert(pairs_model(out@).to_multiset() == out_before.push(picked).to_multiset());
            assert(out_before.push(picked).to_multiset() =~= out_before.to_multiset().insert(
                picked,
            ));
            assert(pairs_model(rem@).to_multiset() == rem_before.remove(best as int).to_multiset());
            assert(rem_before.remove(best as int).to_multiset() =~= rem_before.to_multiset().remove(
                picked,
            ));
            assert(rem_before.to_multiset().count(picked) > 0);
            assert(pairs_model(out@).to_multiset().add(pairs_model(rem@).to_multiset())
                =~= out_before.to_multiset().add(rem_before.to_multiset()));
            // the picked pair is greatest among what remains
            assert forall|y: (int, EntryModel)|
                pairs_model(rem@).contains(y) implies pair_ge(picked, y) by {
                assert(rem_before.to_multiset().count(y) > 0);
                assert(rem_before.contains(y));
                let t = choose|t: int| 0 <= t < rem_before.len() && rem_before[t] == y;
                assert(pair_ge(picked, rem_before[t]));
            };
            // everything already emitted is at least the picked pair
            assert forall|x0: (int, EntryModel)|
                out_before.contains(x0) implies pair_ge(x0, picked) by {
                assert(rem_before.contains(picked));
            };
            assert(sorted_desc(pairs_model(out@))) by {
                assert forall|i: int, j: int|
                    0 <= i < j < pairs_model(out@).len() implies pair_ge(
                    pairs_model(out@)[i],
                    pairs_model(out@)[j],
                ) by {
                    if j < out_before.len() {
                        assert(pair_ge(out_before[i], out_before[j]));
                    } else {
                        assert(pairs_model(out@)[j] == picked);
                        assert(out_before.contains(out_before[i]));
                    }
                };
            };
        }
    }
    proof {
        assert(pairs_model(rem@) =~= Seq::<(int, EntryModel)>::empty());
        assert(pairs_model(out@).to_multiset().add(pairs_model(rem@).to_multiset())
            =~= pairs_model(out@).to_multiset());
    }
    out
}

fn page_of_sorted(sorted: &Vec<(u128, DictionaryEntry)>, page: usize, page_size: usize) -> (r: Vec<
    DictionaryEntry,
>)
    ensures
        models_of(r@) == page_slice(pairs_model(sorted@), page as int, page_size as int).map_values(
            |p: (int, EntryModel)| p.1,
        ),
{
    let ghost pm = pairs_model(sorted@);
    let total = sorted.len();
    let (start, end): (usize, usize) = match page.checked_mul(page_size) {
        Some(s) => {
            if s >= total {
                (total, total)
            } else if total - s < page_size {
                (s, total)
            } else {
                (s, s + page_size)
            }
        },
        None => (total, total),
    };
    assert(start as int == page_start(pm.len() as int, page as int, page_size as int));
    assert(end as int == page_end(pm.len() as int, page as int, page_size as int));
    let mut out: Vec<DictionaryEntry> = Vec::new();
    let mut i: usize = start;
    proof {
        assert(models_of(out@) =~= pm.subrange(start as int, start as int).map_values(
            |p: (int, EntryModel)| p.1,
        ));
    }
    while i < end
        invariant
            pm == pairs_model(sorted@),
            total == sorted@.len(),
            0 <= start <= i <= end <= total,
            models_of(out@) == pm.subrange(start as int, i as int).map_values(
                |p: (int, EntryModel)| p.1,
            ),
        decreases end - i,
    {
        let ghost before = models_of(out@);
        out.push(sorted[i].1.clone());
        proof {
            assert(models_of(out@) =~= before.push(pm[i as int].1));
            assert(pm.subrange(start as int, i + 1).map_values(|p: (int, EntryModel)| p.1)
                =~= pm.subrange(start as int, i as int).map_values(|p: (int, EntryModel)| p.1).push(
                pm[i as int].1,
            ));
        }
        i = i + 1;
    }
    out
}

/// Scores every candidate, drops the non-matches, sorts the rest descending
/// by score and then by frequency, and returns the requested page.
pub fn rank_candidates(
    cands: &Vec<DictionaryEntry>,
    query: &str,
    page: usize,
    page_size: usize,
) -> (r: Vec<DictionaryEntry>)
    ensures
        page_ranking(models_of(cands@), query@, page as int, page_size as int, models_of(r@)),
{
    let scored = score_and_filter(cands, query);
    let sorted = sort_pairs(scored);
    let r = page_of_sorted(&sorted, page, page_size);
    proof {
        let w = pairs_model(sorted@);
        assert(w.to_multiset() == scored_matches(models_of(cands@), query@).to_multiset());
        assert(sorted_desc(w));
        assert(models_of(r@) == page_slice(w, page as int, page_size as int).map_values(
            |p: (int, EntryModel)| p.1,
        ));
    }
    r
}

} // verus!
