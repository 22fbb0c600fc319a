//! The store gateway: durable row storage over SQLite with one index-free
//! scan capability.
//!
//! The store is modelled as a finite set of raw rows, exactly as the table
//! columns hold them: the optional fields and the gloss list are stored in
//! their encoded text form (see the row codec). Every SQL statement passes
//! through this type — the connection is private — and everything the crate
//! states about SQLite stands in the contracts of the few trusted wrappers
//! here. A store counts as well formed only once the dictionary table is
//! known to carry this library's own schema: a pre-existing table of
//! another shape is refused at startup, since the contracts of the count
//! and insert wrappers lean on the all-columns uniqueness key.

use vstd::prelude::*;
use crate::entry::{DictionaryEntry, EntryModel};
use crate::rank::models_of;
use crate::row::{from_row, raw_decodes, row_model_of, to_row};
use crate::text::contains_ci;

verus! {

/// Failures of the backing store. Failing to open or validate the store or
/// to commit a load is fatal for the application; every other variant is
/// recoverable.
#[derive(Debug, Clone, Copy, PartialEq, Eq, Structural)]
pub enum StoreError {
    /// The database could not be opened or created.
    Open,
    /// The dictionary table could not be created or validated, or a
    /// pre-existing table does not carry this library's schema.
    Schema,
    /// The row count query failed.
    Count,
    /// The load transaction could not be opened.
    Begin,
    /// A row insert failed.
    Insert,
    /// The substring scan failed.
    Scan,
    /// The load transaction could not be committed.
    Commit,
}

#[verifier::external_type_specification]
#[verifier::external_body]
pub struct ExConnection(rusqlite::Connection);

/// One stored row, with the nine content columns exactly as the table holds
/// them: `inflection` and `tags` carry the option coding, `glosses` carries
/// the encoded gloss list.
pub struct RawRow {
    pub word: String,
    pub reading: String,
    pub pos: String,
    pub inflection: String,
    pub freq: i32,
    pub glosses: String,
    pub sequence: i32,
    pub tags: String,
    pub pronunciation: String,
}

/// The mathematical value of one stored row.
pub ghost struct RawRowModel {
    pub word: Seq<char>,
    pub reading: Seq<char>,
    pub pos: Seq<char>,
    pub inflection: Seq<char>,
    pub freq: int,
    pub glosses: Seq<char>,
    pub sequence: int,
    pub tags: Seq<char>,
    pub pronunciation: Seq<char>,
}

impl RawRow {
    pub open spec fn model(&self) -> RawRowModel {
        RawRowModel {
            word: self.word@,
            reading: self.reading@,
            pos: self.pos@,
            inflection: self.inflection@,
            freq: self.freq as int,
            glosses: self.glosses@,
            sequence: self.sequence as int,
            tags: self.tags@,
            pronunciation: self.pronunciation@,
        }
    }
}

/// The distinct nine-column content tuples of the dictionary table as
/// connection `c` sees them; empty when the table is absent.
pub uninterp spec fn stored_rows(c: rusqlite::Connection) -> Set<RawRowModel>;

/// The dictionary table of connection `c` exists and carries this library's
/// schema: the nine content columns behind an all-columns uniqueness key,
/// so the table's physical rows are exactly the distinct content tuples.
pub uninterp spec fn has_library_schema(c: rusqlite::Connection) -> bool;

/// A row that the store's substring scan reports for needle `q`: one of the
/// four searched columns contains the needle, compared ASCII
/// case-insensitively.
pub open spec fn scan_hit(m: RawRowModel, q: Seq<char>) -> bool {
    contains_ci(m.word, q) || contains_ci(m.reading, q) || contains_ci(m.glosses, q)
        || contains_ci(m.pronunciation, q)
}

/// Free of NUL characters: a NUL ends what SQLite's LIKE compares, so the
/// scan's completeness is only claimed for NUL-free needles and rows.
pub open spec fn nul_free(s: Seq<char>) -> bool {
    forall|i: int| 0 <= i < s.len() ==> s[i] != '\0'
}

/// The four scanned columns of row `m` are free of NUL characters.
pub open spec fn scan_clean(m: RawRowModel) -> bool {
    nul_free(m.word) && nul_free(m.reading) && nul_free(m.glosses) && nul_free(m.pronunciation)
}

/// A needle that LIKE takes literally: no wildcard and no NUL. For such a
/// needle the scan returns exactly the rows it hits.
pub open spec fn like_literal(s: Seq<char>) -> bool {
    forall|i: int| 0 <= i < s.len() ==> s[i] != '%' && s[i] != '_' && s[i] != '\0'
}

/// The CREATE statement of the dictionary table, exactly as this library
/// issues it and exactly as SQLite stores its text back.
pub open spec fn library_schema_text() -> Seq<char> {
    "CREATE TABLE dictionary (id INTEGER PRIMARY KEY, word TEXT NOT NULL, reading TEXT NOT NULL, pos TEXT NOT NULL, inflection TEXT NOT NULL, freq INTEGER NOT NULL, translations TEXT NOT NULL, sequence INTEGER NOT NULL, tags TEXT NOT NULL, pronunciation TEXT NOT NULL, UNIQUE(word, reading, pos, inflection, freq, translations, sequence, tags, pronunciation))"@
}

fn library_schema_statement() -> (r: &'static str)
    ensures
        r@ == library_schema_text(),
{
    "CREATE TABLE dictionary (id INTEGER PRIMARY KEY, word TEXT NOT NULL, reading TEXT NOT NULL, pos TEXT NOT NULL, inflection TEXT NOT NULL, freq INTEGER NOT NULL, translations TEXT NOT NULL, sequence INTEGER NOT NULL, tags TEXT NOT NULL, pronunciation TEXT NOT NULL, UNIQUE(word, reading, pos, inflection, freq, translations, sequence, tags, pronunciation))"
}

/// A handle on the backing store: one SQLite connection, plus the recorded
/// row set at the start of the open load transaction, against which a
/// failed commit is bounded.
pub struct Store {
    conn: rusqlite::Connection,
    base: Ghost<Set<RawRowModel>>,
}

/// Relies on rusqlite::Connection::open: opens or creates the SQLite
/// database at `path` (the path ":memory:" opens a fresh in-memory
/// database). A SQLite table always holds finitely many rows; nothing is
/// known of the schema until `ensure_schema` has accepted it.
#[verifier::external_body]
fn open_connection(path: &str) -> (r: Result<rusqlite::Connection, StoreError>)
    ensures
        r matches Ok(c) ==> stored_rows(c).finite(),
        r matches Err(e) ==> e == StoreError::Open,
{
    match rusqlite::Connection::open(path) {
        Ok(conn) => Ok(conn),
        Err(_) => Err(StoreError::Open),
    }
}

/// The rows behind one scan result: one stored row per result entry,
/// pairwise distinct, each reading back as its entry — and, for a needle
/// that LIKE takes literally, each a row the scan hits, so the result is
/// then exactly the decodable hit set.
pub open spec fn scan_backing(
    s: &Store,
    q: Seq<char>,
    w: Seq<RawRowModel>,
    ents: Seq<EntryModel>,
) -> bool {
    &&& w.len() == ents.len()
    &&& forall|k: int|
        0 <= k < w.len() ==> s.rows().contains(#[trigger] w[k]) && raw_decodes(w[k], ents[k])
    &&& forall|k1: int, k2: int| 0 <= k1 < k2 < w.len() ==> w[k1] != w[k2]
    &&& like_literal(q) ==> forall|k: int| 0 <= k < w.len() ==> scan_hit(#[trigger] w[k], q)
}

/// Some sequence of stored rows backs the result entries one for one; see
/// `scan_backing`.
pub open spec fn scan_backed(s: &Store, q: Seq<char>, ents: Seq<EntryModel>) -> bool {
    exists|w: Seq<RawRowModel>| scan_backing(s, q, w, ents)
}

impl Store {
    /// The rows this store holds.
    pub closed spec fn rows(&self) -> Set<RawRowModel> {
        stored_rows(self.conn)
    }

    /// A usable store: the dictionary table exists with this library's
    /// schema and, as any SQLite table, holds finitely many rows.
    pub closed spec fn wf(&self) -> bool {
        stored_rows(self.conn).finite() && has_library_schema(self.conn)
    }

    /// The rows at the start of the load transaction, as `begin_load`
    /// recorded them.
    pub closed spec fn tx_base(&self) -> Set<RawRowModel> {
        self.base@
    }

    /// Relies on rusqlite::Connection::query_row on sqlite_master: returns
    /// the stored text of the dictionary table's CREATE statement, or
    /// nothing when no such table exists — the rows are then empty. SQLite
    /// stores that text as `CREATE TABLE ` followed by the statement's own
    /// text from the table name on, so stored text equal to this library's
    /// own single-spaced CREATE statement means the table carries the
    /// library's schema.
    #[verifier::external_body]
    fn table_sql(&self) -> (r: Result<Option<String>, StoreError>)
        ensures
            r matches Ok(o) ==> {
                &&& o is None ==> self.rows() == Set::<RawRowModel>::empty()
                &&& (o matches Some(sql) && sql@ == library_schema_text()) ==> has_library_schema(
                    self.conn,
                )
            },
            r matches Err(e) ==> e == StoreError::Schema,
    {
        let r = self.conn.query_row(
            "SELECT sql FROM sqlite_master WHERE type = 'table' AND name = 'dictionary'",
            (),
            |row| row.get(0),
        );
        match r {
            Ok(sql) => Ok(Some(sql)),
            Err(rusqlite::Error::QueryReturnedNoRows) => Ok(None),
            Err(_) => Err(StoreError::Schema),
        }
    }

    /// Relies on rusqlite::Connection::execute: CREATE TABLE creates the
    /// dictionary table with this library's schema — the statement is
    /// exactly the one `library_schema_statement` returns — and no rows; it
    /// fails when a table of that name already exists, changing nothing.
    #[verifier::external_body]
    fn create_table(&mut self) -> (r: Result<(), StoreError>)
        ensures
            final(self).tx_base() == old(self).tx_base(),
            r is Ok ==> final(self).wf() && final(self).rows() == Set::<RawRowModel>::empty(),
            r is Err ==> final(self).rows() == old(self).rows() && (old(self).rows().finite()
                ==> final(self).rows().finite()),
            r matches Err(e) ==> e == StoreError::Schema,
    {
        match self.conn.execute(library_schema_statement(), ()) {
            Ok(_) => Ok(()),
            Err(_) => Err(StoreError::Schema),
        }
    }

    /// Makes sure the dictionary table exists and carries this library's
    /// schema: creates it when absent, accepts a pre-existing table exactly
    /// when its stored CREATE statement is the library's own, and refuses
    /// the store otherwise. Idempotent; changes no rows.
    fn ensure_schema(&mut self) -> (r: Result<(), StoreError>)
        requires
            old(self).rows().finite(),
        ensures
            final(self).rows() == old(self).rows(),
            final(self).rows().finite(),
            r is Ok ==> final(self).wf(),
            r matches Err(e) ==> e == StoreError::Schema,
    {
        let existing = match self.table_sql() {
            Ok(o) => o,
            Err(e) => {
                return Err(e);
            },
        };
        match existing {
            None => {
                // the table is absent, so the store holds no rows yet
                match self.create_table() {
                    Ok(_) => Ok(()),
                    Err(e) => Err(e),
                }
            },
            Some(sql) => {
                let expected = library_schema_statement().to_owned();
                if sql == expected {
                    Ok(())
                } else {
                    Err(StoreError::Schema)
                }
            },
        }
    }

    /// Relies on rusqlite::Connection::query_row: SELECT COUNT(*) returns
    /// the number of physical rows, which under the library's uniqueness
    /// key is the number of distinct content tuples.
    #[verifier::external_body]
    fn count_rows(&self) -> (r: Result<u64, StoreError>)
        requires
            self.wf(),
        ensures
            r matches Ok(c) ==> c as nat == self.rows().len(),
            r matches Err(e) ==> e == StoreError::Count,
    {
        let n: i64 = match self.conn.query_row("SELECT COUNT(*) FROM dictionary", (), |row| row.get(0)) {
            Ok(n) => n,
            Err(_) => return Err(StoreError::Count),
        };
        Ok(n as u64)
    }

    /// Relies on rusqlite::Connection::execute_batch: BEGIN opens a
    /// transaction and changes no rows; on success the current rows are
    /// recorded as the transaction's base. A failed BEGIN (a transaction is
    /// already open) changes nothing.
    #[verifier::external_body]
    pub(crate) fn begin_load(&mut self) -> (r: Result<(), StoreError>)
        requires
            old(self).wf(),
        ensures
            final(self).wf(),
            final(self).rows() == old(self).rows(),
            r is Ok ==> final(self).tx_base() == final(self).rows(),
            r is Err ==> final(self).tx_base() == old(self).tx_base(),
            r matches Err(e) ==> e == StoreError::Begin,
    {
        match self.conn.execute_batch("BEGIN") {
            Ok(_) => Ok(()),
            Err(_) => Err(StoreError::Begin),
        }
    }

    /// Relies on rusqlite::Connection::execute_batch: COMMIT makes the open
    /// transaction durable without changing what this connection sees. On
    /// failure SQLite either keeps the transaction open — the rows stay —
    /// or rolls it back to the state at BEGIN, which `begin_load` recorded
    /// as the base; a transaction can only begin on a store whose table
    /// already exists, and every statement passes through this type, so the
    /// table itself survives either way.
    #[verifier::external_body]
    pub(crate) fn commit_load(&mut self) -> (r: Result<(), StoreError>)
        requires
            old(self).wf(),
        ensures
            final(self).wf(),
            final(self).tx_base() == old(self).tx_base(),
            r is Ok ==> final(self).rows() == old(self).rows(),
            r is Err ==> final(self).rows() == old(self).rows() || final(self).rows() == old(
                self,
            ).tx_base(),
            r matches Err(e) ==> e == StoreError::Commit,
    {
        match self.conn.execute_batch("COMMIT") {
            Ok(_) => Ok(()),
            Err(_) => Err(StoreError::Commit),
        }
    }

    /// Relies on rusqlite::Connection::execute: INSERT OR IGNORE against the
    /// all-columns uniqueness key adds the row, or leaves the table
    /// unchanged when an identical row is already present; a failed
    /// statement changes nothing.
    #[verifier::external_body]
    fn insert_row(&mut self, row: &RawRow) -> (r: Result<(), StoreError>)
        requires
            old(self).wf(),
        ensures
            final(self).wf(),
            final(self).tx_base() == old(self).tx_base(),
            r is Ok ==> final(self).rows() == old(self).rows().insert(row.model()),
            r is Err ==> final(self).rows() == old(self).rows(),
            r matches Err(e) ==> e == StoreError::Insert,
    {
        let r = self.conn.execute(
            "INSERT OR IGNORE INTO dictionary (word, reading, pos, inflection, freq, translations, sequence, tags, pronunciation)
             VALUES (?1, ?2, ?3, ?4, ?5, ?6, ?7, ?8, ?9)",
            (&row.word, &row.reading, &row.pos, &row.inflection, row.freq, &row.glosses, row.sequence, &row.tags, &row.pronunciation),
        );
        match r {
            Ok(_) => Ok(()),
            Err(_) => Err(StoreError::Insert),
        }
    }

    /// Relies on rusqlite prepare and query_map: the LIKE filter reports
    /// every row whose word, reading, translations blob or pronunciation
    /// contains the needle. LIKE folds exactly the ASCII letters' case by
    /// default, so every ASCII case-insensitive hit is reported (a LIKE
    /// wildcard in the needle can only widen the match set); every reported
    /// row is a stored row, pairwise distinct under the library's
    /// uniqueness key, and for a needle without wildcards it is a row the
    /// scan hits. LIKE stops at a NUL character, so completeness is claimed
    /// only for NUL-free needles and rows.
    #[verifier::external_body]
    fn scan_rows(&self, needle: &str) -> (r: Result<Vec<RawRow>, StoreError>)
        requires
            self.wf(),
        ensures
            r matches Ok(v) ==> {
                &&& forall|k: int| 0 <= k < v@.len() ==> self.rows().contains(#[trigger] v@[k].model())
                &&& forall|k1: int, k2: int|
                    0 <= k1 < k2 < v@.len() ==> v@[k1].model() != v@[k2].model()
                &&& forall|m: RawRowModel|
                    self.rows().contains(m) && scan_hit(m, needle@) && scan_clean(m) && nul_free(
                        needle@,
                    ) ==> exists|k: int| 0 <= k < v@.len() && v@[k].model() == m
                &&& like_literal(needle@) ==> forall|k: int|
                    0 <= k < v@.len() ==> scan_hit(#[trigger] v@[k].model(), needle@)
            },
            r matches Err(e) ==> e == StoreError::Scan,
    {
        let pat = format!("%{}%", needle);
        let mut stmt = match self.conn.prepare(
            "SELECT word, reading, pos, inflection, freq, translations, sequence, tags, pronunciation FROM dictionary WHERE word LIKE ?1 OR reading LIKE ?1 OR translations LIKE ?1 OR pronunciation LIKE ?1",
        ) {
            Ok(s) => s,
            Err(_) => return Err(StoreError::Scan),
        };
        let rows = match stmt.query_map((pat,), |row| row_from_sql(row)) {
            Ok(r) => r,
            Err(_) => return Err(StoreError::Scan),
        };
        rows.collect::<Result<Vec<RawRow>, rusqlite::Error>>().map_err(|_| StoreError::Scan)
    }
}

#[verifier::external_type_specification]
#[verifier::external_body]
pub struct ExRow<'a>(rusqlite::Row<'a>);

#[verifier::external_type_specification]
#[verifier::external_body]
pub struct ExRusqliteError(rusqlite::Error);

/// Relies on rusqlite::Row::get: reads the nine selected columns of one
/// scanned row, in the scan's column order.
#[verifier::external_body]
fn row_from_sql(row: &rusqlite::Row<'_>) -> (r: Result<RawRow, rusqlite::Error>) {
    Ok(RawRow {
        word: row.get(0)?, reading: row.get(1)?, pos: row.get(2)?,
        inflection: row.get(3)?, freq: row.get(4)?, glosses: row.get(5)?,
        sequence: row.get(6)?, tags: row.get(7)?, pronunciation: row.get(8)?,
    })
}

/// Opens or creates the store at `path` and makes sure the dictionary table
/// exists with this library's schema. Idempotent: safe to call at every
/// startup. The path ":memory:" opens a fresh in-memory store; a
/// pre-existing database whose dictionary table has another schema is
/// refused with `Schema`.
pub fn init_db(path: &str) -> (r: Result<Store, StoreError>)
    ensures
        r matches Ok(s) ==> s.wf(),
        r matches Err(e) ==> e == StoreError::Open || e == StoreError::Schema,
{
    let conn = match open_connection(path) {
        Ok(c) => c,
        Err(e) => {
            return Err(e);
        },
    };
    let mut s = Store { conn, base: Ghost(Set::empty()) };
    match s.ensure_schema() {
        Ok(_) => Ok(s),
        Err(e) => Err(e),
    }
}

impl Store {
    /// The total number of stored rows.
    pub fn count(&self) -> (r: Result<u64, StoreError>)
        requires
            self.wf(),
        ensures
            r matches Ok(c) ==> c as nat == self.rows().len(),
            r matches Err(e) ==> e == StoreError::Count,
    {
        self.count_rows()
    }

    /// Inserts `entry` unless an identical entry is already stored; then the
    /// insert is a silent no-op. `Insert` reports a failed statement, the
    /// one possible failure, and leaves the rows unchanged.
    pub fn insert_if_absent(&mut self, entry: &DictionaryEntry) -> (r: Result<(), StoreError>)
        requires
            old(self).wf(),
        ensures
            final(self).wf(),
            final(self).tx_base() == old(self).tx_base(),
            r is Ok ==> final(self).rows() == old(self).rows().insert(row_model_of(entry.model()))
                && raw_decodes(row_model_of(entry.model()), entry.model()) && nul_free(
                row_model_of(entry.model()).glosses,
            ),
            r is Err ==> final(self).rows() == old(self).rows(),
            r matches Err(e) ==> e == StoreError::Insert,
    {
        let row = to_row(entry);
        self.insert_row(&row)
    }

    /// Returns every stored row whose word, reading, pronunciation or
    /// translations blob contains `needle`, compared ASCII
    /// case-insensitively, read back as entries; rows that do not decode as
    /// entries are dropped. The order of the result is unspecified and not
    /// to be relied on. Each result entry is backed by its own stored row,
    /// so no entry is reported more often than the store holds it;
    /// completeness holds for NUL-free needles and rows (see the scan's
    /// contract).
    #[verifier::rlimit(50)]
    pub fn scan_containing(&self, needle: &str) -> (r: Result<Vec<DictionaryEntry>, StoreError>)
        requires
            self.wf(),
        ensures
            r matches Ok(v) ==> scan_backed(self, needle@, models_of(v@)),
            r matches Ok(v) ==> forall|m: RawRowModel, e: EntryModel|
                self.rows().contains(m) && raw_decodes(m, e) && scan_hit(m, needle@)
                    && scan_clean(m) && nul_free(needle@) ==> models_of(v@).contains(e),
            r matches Err(e) ==> e == StoreError::Scan,
    {
        let raw = match self.scan_rows(needle) {
            Ok(raw) => raw,
            Err(e) => {
                return Err(e);
            },
        };
        let mut out: Vec<DictionaryEntry> = Vec::new();
        let mut i: usize = 0;
        let ghost mut ws: Seq<RawRowModel> = Seq::empty();
        let ghost mut js: Seq<int> = Seq::empty();
        while i < raw.len()
            invariant
                0 <= i <= raw@.len(),
                forall|k: int| 0 <= k < raw@.len() ==> self.rows().contains(#[trigger] raw@[k].model()),
                forall|k1: int, k2: int|
                    0 <= k1 < k2 < raw@.len() ==> raw@[k1].model() != raw@[k2].model(),
                forall|m: RawRowModel|
                    self.rows().contains(m) && scan_hit(m, needle@) && scan_clean(m) && nul_free(
                        needle@,
                    ) ==> exists|k: int| 0 <= k < raw@.len() && raw@[k].model() == m,
                like_literal(needle@) ==> forall|k: int|
                    0 <= k < raw@.len() ==> scan_hit(#[trigger] raw@[k].model(), needle@),
                ws.len() == out@.len(),
                js.len() == ws.len(),
                forall|k: int| 0 <= k < js.len() ==> 0 <= #[trigger] js[k] < i,
                forall|k1: int, k2: int| 0 <= k1 < k2 < js.len() ==> js[k1] < js[k2],
                forall|k: int| 0 <= k < ws.len() ==> #[trigger] ws[k] == raw@[js[k]].model(),
                forall|k: int|
                    0 <= k < out@.len() ==> self.rows().contains(#[trigger] ws[k]) && raw_decodes(
                        ws[k],
                        out@[k].model(),
                    ),
                forall|j: int, e: EntryModel|
                    0 <= j < i && #[trigger] raw_decodes(raw@[j].model(), e) ==> exists|k: int|
                        0 <= k < out@.len() && out@[k].model() == e,
            decreases raw@.len() - i,
        {
            let ghost out_before = out@;
            match from_row(&raw[i]) {
                Some(d) => {
                    out.push(d);
                    proof {
                        ws = ws.push(raw@[i as int].model());
                        js = js.push(i as int);
                        assert forall|j: int, e: EntryModel|
                            0 <= j < i + 1 && #[trigger] raw_decodes(raw@[j].model(), e)
                            implies exists|k: int|
                            0 <= k < out@.len() && out@[k].model() == e by {
                            if j < i {
                                let k = choose|k: int|
                                    0 <= k < out_before.len() && out_before[k].model() == e;
                                assert(out@[k].model() == e);
                            } else {
                                crate::row::lemma_raw_decodes_deterministic(
                                    raw@[j].model(),
                                    e,
                                    d.model(),
                                );
                                assert(out@[out@.len() - 1].model() == e);
                            }
                        };
                    }
                },
                None => {},
            }
            i = i + 1;
        }
        proof {
            let ents = models_of(out@);
            assert forall|k: int|
                0 <= k < ws.len() implies self.rows().contains(#[trigger] ws[k]) && raw_decodes(
                ws[k],
                ents[k],
            ) by {
                assert(ents[k] == out@[k].model());
            };
            assert forall|k1: int, k2: int| 0 <= k1 < k2 < ws.len() implies ws[k1] != ws[k2] by {
                assert(js[k1] < js[k2]);
                assert(raw@[js[k1]].model() != raw@[js[k2]].model());
            };
            assert(scan_backed(self, needle@, ents)) by {
                assert(scan_backing(self, needle@, ws, ents));
            };
            assert forall|m: RawRowModel, e: EntryModel|
                self.rows().contains(m) && raw_decodes(m, e) && scan_hit(m, needle@)
                    && scan_clean(m) && nul_free(needle@) implies ents.contains(e) by {
                let j = choose|j: int| 0 <= j < raw@.len() && raw@[j].model() == m;
                assert(raw_decodes(raw@[j].model(), e));
                let k = choose|k: int| 0 <= k < out@.len() && out@[k].model() == e;
                assert(ents[k] == e);
            };
        }
        Ok(out)
    }
}

} // verus!
