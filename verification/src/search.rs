//! The search surface: from a query string to one ranked result page.

use vstd::prelude::*;
use crate::entry::{DictionaryEntry, EntryModel};
use crate::rank::{models_of, page_ranking, rank_candidates};
use crate::row::raw_decodes;
use crate::store::{
    nul_free, scan_backed, scan_clean, scan_hit, RawRowModel, Store, StoreError,
};
use crate::text::{is_blank, is_blank_exec};

verus! {

/// Which text a search runs on: the typed query, or the text currently
/// selected inside the query box.
pub enum SearchPrompt {
    Query,
    SelectedText,
}

/// The decision of which text a search uses: the prompt picks one of the
/// two.
pub fn search_text<'a>(prompt: &SearchPrompt, query: &'a String, selected_text: &'a String) -> (r:
    &'a String)
    ensures
        prompt is Query ==> r@ == query@,
        prompt is SelectedText ==> r@ == selected_text@,
{
    match prompt {
        SearchPrompt::Query => query,
        SearchPrompt::SelectedText => selected_text,
    }
}

/// The candidates of a search: every one is backed by its own stored row —
/// pairwise distinct, so no entry is counted more often than the store
/// holds it, and each a scan hit when the query has no LIKE wildcard — and
/// every stored row that the scan hits for the query is among them (claimed
/// for NUL-free queries and rows).
pub open spec fn scan_candidates(
    store: &Store,
    q: Seq<char>,
    cands: Seq<EntryModel>,
) -> bool {
    &&& scan_backed(store, q, cands)
    &&& forall|m: RawRowModel, e: EntryModel|
        store.rows().contains(m) && #[trigger] raw_decodes(m, e) && scan_hit(m, q)
            && scan_clean(m) && nul_free(q) ==> cands.contains(e)
}

/// Runs one search and returns one page of ranked results.
///
/// A blank query (empty or whitespace only) returns the empty page before
/// any store work. Otherwise the store is scanned for rows containing the
/// query, the rows are read back as entries, scored, filtered, ordered
/// descending by score and then by frequency, and the requested page is
/// returned. A page past the end of the matches is empty, not an error;
/// the only error is a failed scan.
pub fn search_db(store: &Store, query: &str, page: usize, limit: usize) -> (r: Result<
    Vec<DictionaryEntry>,
    StoreError,
>)
    requires
        store.wf(),
    ensures
        is_blank(query@) ==> (r matches Ok(v) && v@.len() == 0),
        !is_blank(query@) ==> (r matches Ok(v) ==> exists|cands: Seq<EntryModel>|
            scan_candidates(store, query@, cands) && page_ranking(
                cands,
                query@,
                page as int,
                limit as int,
                models_of(v@),
            )),
        r matches Err(e) ==> e == StoreError::Scan && !is_blank(query@),
{
    if is_blank_exec(query) {
        return Ok(Vec::new());
    }
    let scanned = match store.scan_containing(query) {
        Ok(c) => c,
        Err(e) => {
            return Err(e);
        },
    };
    let out = rank_candidates(&scanned, query, page, limit);
    proof {
        let cms = models_of(scanned@);
        assert(scan_candidates(store, query@, cms));
    }
    Ok(out)
}

} // verus!
