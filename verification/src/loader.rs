//! The loader: one-time bulk ingestion of the JSON term-bank files,
//! idempotent across process restarts.
//!
//! The caller reads the numbered source files and hands their contents over
//! (absent contents stand for files that could not be read). What records a
//! file's text holds is a function of the text alone, named `records_of` and
//! tied to the trusted extraction; the mapping from an extracted record to
//! an entry is pinned down by the exact contract of `build_entry`. On those
//! two the loader's own contract states both directions: every row a load
//! adds is the row of some good record of the files, and — as long as no
//! row insert failed — every good record's row is stored afterwards.

use vstd::prelude::*;
use vstd::string::*;
use crate::entry::{
    clone_glosses, clone_opt_string, glosses_view, opt_view, DictionaryEntry, EntryModel,
};
use crate::row::{raw_decodes, row_model_of};
use crate::store::{RawRowModel, Store, StoreError};

verus! {

/// What one load run did.
#[derive(Debug, Clone, Copy, PartialEq, Eq, Structural)]
pub struct LoadSummary {
    /// The store already held rows, so nothing was loaded.
    pub already_populated: bool,
    /// Entries handed to the store.
    pub loaded: usize,
    /// Files whose contents were absent or did not parse as an array
    /// document.
    pub skipped_files: usize,
    /// Records that did not map to an entry or had an empty word.
    pub skipped_records: usize,
    /// Records whose row insert failed.
    pub failed_inserts: usize,
}

/// Row `m` reads back as an entry whose word, like the row's, is non-empty.
pub open spec fn decodes_nonempty(m: RawRowModel) -> bool {
    m.word.len() > 0 && exists|e: EntryModel| raw_decodes(m, e) && e.word == m.word
}

/// Every row of `now` that is not in `before` reads back as an entry with a
/// non-empty word.
pub open spec fn added_rows_wf(now: Set<RawRowModel>, before: Set<RawRowModel>) -> bool {
    forall|m: RawRowModel| now.contains(m) && !before.contains(m) ==> #[trigger] decodes_nonempty(
        m,
    )
}

/// How many of the file slots from position `i` on hold no contents.
pub open spec fn absent_from(files: Seq<Option<String>>, i: int) -> int
    decreases files.len() - i,
{
    if i < 0 || i >= files.len() {
        0
    } else {
        (if files[i] is None {
            1int
        } else {
            0
        }) + absent_from(files, i + 1)
    }
}

/// How many of the file slots hold no contents: files that could not be
/// read arrive that way.
pub open spec fn absent_count(files: Seq<Option<String>>) -> int {
    absent_from(files, 0)
}

/// The plain values extracted from one source record. A missing or
/// ill-typed field arrives as `None`; for the two optional fields the inner
/// option distinguishes a value from a well-formed absence, so only the
/// outer `None` marks a malformed field.
pub struct RawRecord {
    pub word: Option<String>,
    pub reading: Option<String>,
    pub pos: Option<String>,
    pub inflection: Option<Option<String>>,
    pub freq: Option<i64>,
    pub translations: Option<Vec<String>>,
    pub sequence: Option<i64>,
    pub tags: Option<Option<String>>,
    pub pronunciation: Option<String>,
}

/// The mathematical value of one extracted record.
pub ghost struct RecordModel {
    pub word: Option<Seq<char>>,
    pub reading: Option<Seq<char>>,
    pub pos: Option<Seq<char>>,
    pub inflection: Option<Option<Seq<char>>>,
    pub freq: Option<int>,
    pub translations: Option<Seq<Seq<char>>>,
    pub sequence: Option<int>,
    pub tags: Option<Option<Seq<char>>>,
    pub pronunciation: Option<Seq<char>>,
}

impl RawRecord {
    pub open spec fn model(&self) -> RecordModel {
        RecordModel {
            word: opt_view(self.word),
            reading: opt_view(self.reading),
            pos: opt_view(self.pos),
            inflection: match self.inflection {
                Some(o) => Some(opt_view(o)),
                None => None,
            },
            freq: match self.freq {
                Some(f) => Some(f as int),
                None => None,
            },
            translations: match self.translations {
                Some(ts) => Some(glosses_view(ts@)),
                None => None,
            },
            sequence: match self.sequence {
                Some(q) => Some(q as int),
                None => None,
            },
            tags: match self.tags {
                Some(o) => Some(opt_view(o)),
                None => None,
            },
            pronunciation: opt_view(self.pronunciation),
        }
    }
}

/// The models of a sequence of extracted records, position by position.
pub open spec fn record_models(v: Seq<RawRecord>) -> Seq<RecordModel> {
    v.map_values(|x: RawRecord| x.model())
}

/// What the trusted extraction reads a term-bank text as: the records of
/// the document, when the text parses as a JSON array, and nothing
/// otherwise — a function of the text alone.
pub uninterp spec fn records_of(text: Seq<char>) -> Option<Seq<RecordModel>>;

fn get_string(v: &serde_json::Value, key: &str) -> Option<String> {
    match v.get(key) {
        Some(x) => match x.as_str() {
            Some(s) => Some(s.to_owned()),
            None => None,
        },
        None => None,
    }
}

fn get_optional_string(v: &serde_json::Value, key: &str) -> Option<Option<String>> {
    match v.get(key) {
        None => Some(None),
        Some(x) => {
            if x.is_null() {
                Some(None)
            } else {
                match x.as_str() {
                    Some(s) => Some(Some(s.to_owned())),
                    None => None,
                }
            }
        },
    }
}

fn get_i64(v: &serde_json::Value, key: &str) -> Option<i64> {
    match v.get(key) {
        Some(x) => x.as_i64(),
        None => None,
    }
}

fn get_glosses(v: &serde_json::Value) -> Option<Vec<String>> {
    let arr = match v.get("translations") {
        Some(a) => a,
        None => {
            return None;
        },
    };
    let items = match arr.as_array() {
        Some(x) => x,
        None => {
            return None;
        },
    };
    let mut out: Vec<String> = Vec::new();
    let mut i: usize = 0;
    while i < items.len()
        invariant
            0 <= i <= items@.len(),
        decreases items@.len() - i,
    {
        match items[i].as_str() {
            Some(s) => out.push(s.to_owned()),
            None => {
                return None;
            },
        }
        i = i + 1;
    }
    Some(out)
}

/// Extracts the plain values of one source record: recognized keys are
/// `word`, `reading`, `pos` (or `partOfSpeech`), `inflection` (optional),
/// `freq` (or `frequency`), `translations` (an array of strings),
/// `sequence`, `tags` (optional) and `pronunciation`.
fn record_of_value(v: &serde_json::Value) -> RawRecord {
    RawRecord {
        word: get_string(v, "word"),
        reading: get_string(v, "reading"),
        pos: match get_string(v, "pos") {
            Some(p) => Some(p),
            None => get_string(v, "partOfSpeech"),
        },
        inflection: get_optional_string(v, "inflection"),
        freq: match get_i64(v, "freq") {
            Some(f) => Some(f),
            None => get_i64(v, "frequency"),
        },
        translations: get_glosses(v),
        sequence: get_i64(v, "sequence"),
        tags: get_optional_string(v, "tags"),
        pronunciation: get_string(v, "pronunciation"),
    }
}

/// Relies on serde_json::from_str and the serde_json::Value accessors: for
/// one text, parsing the document and walking its array with
/// `record_of_value` reads the same fields on every run, so the extracted
/// records are a function of the text alone, which `records_of` names. A
/// text that does not parse as a JSON array yields nothing.
#[verifier::external_body]
fn extract_records(text: &str) -> (r: Option<Vec<RawRecord>>)
    ensures
        r is Some <==> records_of(text@) is Some,
        r matches Some(v) ==> records_of(text@) == Some(record_models(v@)),
{
    let doc: serde_json::Value = match serde_json::from_str(text) {
        Ok(d) => d,
        Err(_) => return None,
    };
    let items = match doc.as_array() {
        Some(a) => a,
        None => return None,
    };
    Some(items.iter().map(record_of_value).collect())
}

/// The record builds an entry: every required field is present and `freq`
/// and `sequence` are in the stored integer range.
pub open spec fn record_builds(m: RecordModel) -> bool {
    &&& m.word is Some
    &&& m.reading is Some
    &&& m.pos is Some
    &&& m.inflection is Some
    &&& (m.freq matches Some(f) && i32::MIN as int <= f <= i32::MAX as int)
    &&& m.translations is Some
    &&& (m.sequence matches Some(q) && i32::MIN as int <= q <= i32::MAX as int)
    &&& m.tags is Some
    &&& m.pronunciation is Some
}

/// The entry a record builds; every field carries over verbatim.
pub open spec fn record_entry(m: RecordModel) -> EntryModel
    recommends
        record_builds(m),
{
    EntryModel {
        word: match m.word {
            Some(w) => w,
            None => Seq::<char>::empty(),
        },
        reading: match m.reading {
            Some(w) => w,
            None => Seq::<char>::empty(),
        },
        pos: match m.pos {
            Some(w) => w,
            None => Seq::<char>::empty(),
        },
        inflection: match m.inflection {
            Some(o) => o,
            None => None,
        },
        freq: match m.freq {
            Some(f) => f,
            None => 0,
        },
        translations: match m.translations {
            Some(ts) => ts,
            None => Seq::<Seq<char>>::empty(),
        },
        sequence: match m.sequence {
            Some(q) => q,
            None => 0,
        },
        tags: match m.tags {
            Some(o) => o,
            None => None,
        },
        pronunciation: match m.pronunciation {
            Some(w) => w,
            None => Seq::<char>::empty(),
        },
    }
}

/// Builds an entry from the plain values extracted from one source record.
///
/// Exactly the records with every required field present, and with `freq`
/// and `sequence` in the stored integer range, build an entry, and the
/// entry is exactly `record_entry` of the record.
pub fn build_entry(rec: &RawRecord) -> (r: Option<DictionaryEntry>)
    ensures
        r is Some <==> record_builds(rec.model()),
        r matches Some(d) ==> d.model() == record_entry(rec.model()),
{
    let word = match &rec.word {
        Some(w) => w.clone(),
        None => {
            return None;
        },
    };
    let reading = match &rec.reading {
        Some(w) => w.clone(),
        None => {
            return None;
        },
    };
    let pos = match &rec.pos {
        Some(w) => w.clone(),
        None => {
            return None;
        },
    };
    let inflection = match &rec.inflection {
        Some(o) => clone_opt_string(o),
        None => {
            return None;
        },
    };
    let freq_wide = match rec.freq {
        Some(f) => f,
        None => {
            return None;
        },
    };
    if !(i32::MIN as i64 <= freq_wide && freq_wide <= i32::MAX as i64) {
        return None;
    }
    let translations = match &rec.translations {
        Some(ts) => clone_glosses(ts),
        None => {
            return None;
        },
    };
    let sequence_wide = match rec.sequence {
        Some(q) => q,
        None => {
            return None;
        },
    };
    if !(i32::MIN as i64 <= sequence_wide && sequence_wide <= i32::MAX as i64) {
        return None;
    }
    let tags = match &rec.tags {
        Some(o) => clone_opt_string(o),
        None => {
            return None;
        },
    };
    let pronunciation = match &rec.pronunciation {
        Some(w) => w.clone(),
        None => {
            return None;
        },
    };
    Some(
        DictionaryEntry {
            word,
            reading,
            pos,
            inflection,
            freq: freq_wide as i32,
            translations,
            sequence: sequence_wide as i32,
            tags,
            pronunciation,
        },
    )
}

/// The records of file slot `i`: what the extraction reads its contents as,
/// nothing for an absent or unparseable file.
pub open spec fn file_records(files: Seq<Option<String>>, i: int) -> Option<Seq<RecordModel>> {
    match files[i] {
        Some(t) => records_of(t@),
        None => None,
    }
}

/// Position `j` of file slot `i` holds a good record: the file's text
/// yields records, the record builds an entry, and that entry's word is
/// non-empty — exactly the records a load owes to the store.
pub open spec fn good_record_at(files: Seq<Option<String>>, i: int, j: int) -> bool {
    &&& 0 <= i < files.len()
    &&& (file_records(files, i) matches Some(rs) && 0 <= j < rs.len() && record_builds(rs[j])
        && record_entry(rs[j]).word.len() > 0)
}

/// The stored row of the good record at position `j` of file slot `i`.
pub open spec fn good_row_at(files: Seq<Option<String>>, i: int, j: int) -> RawRowModel
    recommends
        good_record_at(files, i, j),
{
    match file_records(files, i) {
        Some(rs) => row_model_of(record_entry(rs[j])),
        None => arbitrary(),
    }
}

/// Row `m` is the row of some good record of the files.
pub open spec fn from_some_file(files: Seq<Option<String>>, m: RawRowModel) -> bool {
    exists|i: int, j: int| #[trigger] good_record_at(files, i, j) && m == good_row_at(files, i, j)
}

/// Every row of `now` that is not in `before` is the row of a good record
/// of the files: a load adds nothing of its own invention.
pub open spec fn rows_from_files(
    files: Seq<Option<String>>,
    now: Set<RawRowModel>,
    before: Set<RawRowModel>,
) -> bool {
    forall|m: RawRowModel| now.contains(m) && !before.contains(m) ==> #[trigger] from_some_file(
        files,
        m,
    )
}

/// Every good record of the file slots before `upto` has its row stored in
/// `rows`.
pub open spec fn loaded_complete(
    files: Seq<Option<String>>,
    upto: int,
    rows: Set<RawRowModel>,
) -> bool {
    forall|i: int, j: int|
        0 <= i < upto && #[trigger] good_record_at(files, i, j) ==> rows.contains(
            good_row_at(files, i, j),
        )
}

/// Every good record of the files has its row stored in `rows`.
pub open spec fn all_good_loaded(files: Seq<Option<String>>, rows: Set<RawRowModel>) -> bool {
    loaded_complete(files, files.len() as int, rows)
}

fn bump(x: usize) -> (r: usize)
    ensures
        x < usize::MAX ==> r == x + 1,
        x == usize::MAX ==> r == x,
{
    if x < usize::MAX {
        x + 1
    } else {
        x
    }
}

/// Loads the term-bank files into an empty store: reads each file content
/// as a JSON array of records, maps each record to an entry, and inserts
/// the entries in one transaction. A store that already holds rows is left
/// exactly as it is: loading twice loads once, and on a populated store the
/// only possible error is a failed row count. Absent or malformed files,
/// records that do not map to an entry, entries with an empty word, and
/// failed row inserts are skipped and counted, never fatal; only failing to
/// read the row count, to open the transaction or to commit it is. A load
/// never removes a row; every row it adds reads back as an entry whose word
/// is non-empty and is the row of some good record of the files — also when
/// the commit fails, since the transaction then either keeps the inserts or
/// rolls back to the rows it began with. And the load is complete: on
/// success from an empty store, unless some row insert failed (and
/// `failed_inserts` counted it), every good record's row is stored.
pub fn populate_db(store: &mut Store, files: &Vec<Option<String>>) -> (r: Result<
    LoadSummary,
    StoreError,
>)
    requires
        old(store).wf(),
    ensures
        final(store).wf(),
        old(store).rows().subset_of(final(store).rows()),
        added_rows_wf(final(store).rows(), old(store).rows()),
        rows_from_files(files@, final(store).rows(), old(store).rows()),
        r matches Ok(s) ==> {
            &&& (s.already_populated <==> old(store).rows().len() > 0)
            &&& s.already_populated ==> final(store).rows() == old(store).rows()
            &&& !s.already_populated ==> s.skipped_files as int >= absent_count(files@)
            &&& (!s.already_populated && s.failed_inserts == 0) ==> all_good_loaded(
                files@,
                final(store).rows(),
            )
        },
        r matches Err(e) && e != StoreError::Commit ==> final(store).rows() == old(store).rows(),
        r matches Err(e) && e != StoreError::Count ==> old(store).rows().len() == 0,
        r matches Err(e) ==> e == StoreError::Count || e == StoreError::Begin
            || e == StoreError::Commit,
{
    let n = match store.count() {
        Ok(c) => c,
        Err(e) => {
            return Err(e);
        },
    };
    if n > 0 {
        proof {
            assert(old(store).rows().subset_of(final(store).rows()));
        }
        return Ok(
            LoadSummary {
                already_populated: true,
                loaded: 0,
                skipped_files: 0,
                skipped_records: 0,
                failed_inserts: 0,
            },
        );
    }
    match store.begin_load() {
        Ok(_) => (),
        Err(e) => {
            return Err(e);
        },
    }
    let ghost rows0 = old(store).rows();
    let mut loaded: usize = 0;
    let mut skipped_files: usize = 0;
    let mut skipped_records: usize = 0;
    let mut failed_inserts: usize = 0;
    let mut fi: usize = 0;
    while fi < files.len()
        invariant
            0 <= fi <= files@.len(),
            store.wf(),
            rows0 == old(store).rows(),
            store.tx_base() == rows0,
            rows0.subset_of(store.rows()),
            added_rows_wf(store.rows(), rows0),
            rows_from_files(files@, store.rows(), rows0),
            failed_inserts == 0 ==> loaded_complete(files@, fi as int, store.rows()),
            skipped_files <= fi,
            skipped_files as int >= absent_count(files@) - absent_from(files@, fi as int),
        decreases files@.len() - fi,
    {
        proof {
            assert(absent_from(files@, fi as int) == (if files@[fi as int] is None {
                1int
            } else {
                0
            }) + absent_from(files@, fi + 1));
        }
        match &files[fi] {
            None => {
                skipped_files = bump(skipped_files);
                proof {
                    if failed_inserts == 0 {
                        lemma_complete_step_no_records(files@, fi as int, store.rows());
                    }
                }
            },
            Some(text) => {
                match extract_records(text.as_str()) {
                    None => {
                        skipped_files = bump(skipped_files);
                        proof {
                            assert(file_records(files@, fi as int) is None);
                            if failed_inserts == 0 {
                                lemma_complete_step_no_records(files@, fi as int, store.rows());
                            }
                        }
                    },
                    Some(records) => {
                        let ghost rs = record_models(records@);
                        proof {
                            assert(file_records(files@, fi as int) == Some(rs));
                        }
                        let mut ri: usize = 0;
                        while ri < records.len()
                            invariant
                                0 <= ri <= records@.len(),
                                0 <= fi < files@.len(),
                                store.wf(),
                                store.tx_base() == rows0,
                                rows0.subset_of(store.rows()),
                                added_rows_wf(store.rows(), rows0),
                                rows_from_files(files@, store.rows(), rows0),
                                file_records(files@, fi as int) == Some(rs),
                                rs == record_models(records@),
                                failed_inserts == 0 ==> loaded_complete(
                                    files@,
                                    fi as int,
                                    store.rows(),
                                ),
                                failed_inserts == 0 ==> forall|j: int|
                                    0 <= j < ri && #[trigger] good_record_at(files@, fi as int, j)
                                        ==> store.rows().contains(good_row_at(files@, fi as int, j)),
                            decreases records@.len() - ri,
                        {
                            match build_entry(&records[ri]) {
                                None => {
                                    skipped_records = bump(skipped_records);
                                    proof {
                                        assert(rs[ri as int] == records@[ri as int].model());
                                        assert(!good_record_at(files@, fi as int, ri as int));
                                    }
                                },
                                Some(entry) => {
                                    if entry.word.as_str().is_empty() {
                                        skipped_records = bump(skipped_records);
                                        proof {
                                            assert(rs[ri as int] == records@[ri as int].model());
                                            assert(!good_record_at(files@, fi as int, ri as int));
                                        }
                                    } else {
                                        let ghost before = store.rows();
                                        match store.insert_if_absent(&entry) {
                                            Ok(_) => {
                                                loaded = bump(loaded);
                                                proof {
                                                    lemma_added_rows_wf_insert(
                                                        store.rows(),
                                                        before,
                                                        rows0,
                                                        entry.model(),
                                                    );
                                                    assert(rs[ri as int] == records@[ri as int].model());
                                                    assert(entry.model() == record_entry(
                                                        rs[ri as int],
                                                    ));
                                                    assert(good_record_at(
                                                        files@,
                                                        fi as int,
                                                        ri as int,
                                                    ));
                                                    assert(good_row_at(files@, fi as int, ri as int)
                                                        == row_model_of(entry.model()));
                                                    assert forall|m: RawRowModel|
                                                        store.rows().contains(m)
                                                            && !rows0.contains(m)
                                                        implies #[trigger] from_some_file(
                                                        files@,
                                                        m,
                                                    ) by {
                                                        if m == row_model_of(entry.model()) {
                                                            assert(good_record_at(
                                                                files@,
                                                                fi as int,
                                                                ri as int,
                                                            ) && m == good_row_at(
                                                                files@,
                                                                fi as int,
                                                                ri as int,
                                                            ));
                                                        } else {
                                                            assert(before.contains(m));
                                                        }
                                                    };
                                                }
                                            },
                                            Err(_) => {
                                                failed_inserts = bump(failed_inserts);
                                            },
                                        }
                                    }
                                },
                            }
                            ri = ri + 1;
                        }
                        proof {
                            if failed_inserts == 0 {
                                assert forall|i: int, j: int|
                                    0 <= i < fi as int + 1 && #[trigger] good_record_at(
                                        files@,
                                        i,
                                        j,
                                    ) implies store.rows().contains(good_row_at(files@, i, j)) by {
                                    if i == fi as int {
                                        assert(0 <= j < rs.len());
                                        assert(rs.len() == records@.len());
                                    }
                                };
                                assert(loaded_complete(files@, fi as int + 1, store.rows()));
                            }
                        }
                    },
                }
            },
        }
        fi = fi + 1;
    }
    let ghost staged = store.rows();
    match store.commit_load() {
        Ok(_) => (),
        Err(e) => {
            proof {
                assert(store.rows() == staged || store.rows() == rows0);
            }
            return Err(e);
        },
    }
    Ok(
        LoadSummary {
            already_populated: false,
            loaded,
            skipped_files,
            skipped_records,
            failed_inserts,
        },
    )
}

/// A file slot that yields no records contributes no good records, so
/// completeness steps over it unchanged.
proof fn lemma_complete_step_no_records(
    files: Seq<Option<String>>,
    fi: int,
    rows: Set<RawRowModel>,
)
    requires
        0 <= fi < files.len(),
        file_records(files, fi) is None,
        loaded_complete(files, fi, rows),
    ensures
        loaded_complete(files, fi + 1, rows),
{
    assert forall|i: int, j: int|
        0 <= i < fi + 1 && #[trigger] good_record_at(files, i, j) implies rows.contains(
        good_row_at(files, i, j),
    ) by {
        if i == fi {
            assert(!good_record_at(files, i, j));
        }
    }
}

proof fn lemma_added_rows_wf_insert(
    now: Set<RawRowModel>,
    before: Set<RawRowModel>,
    rows0: Set<RawRowModel>,
    e: EntryModel,
)
    requires
        added_rows_wf(before, rows0),
        now == before.insert(crate::row::row_model_of(e)),
        raw_decodes(crate::row::row_model_of(e), e),
        e.word.len() > 0,
    ensures
        added_rows_wf(now, rows0),
{
    assert forall|m: RawRowModel| now.contains(m) && !rows0.contains(m) implies #[trigger]
    decodes_nonempty(m) by {
        if m == crate::row::row_model_of(e) {
            assert(raw_decodes(m, e) && e.word == m.word);
        } else {
            assert(before.contains(m));
        }
    }
}

} // verus!
