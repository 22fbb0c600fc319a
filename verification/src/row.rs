//! The row codec: between entries and the raw rows the store holds.
//!
//! The two optional fields are stored under a one-character option coding
//! that the crate defines and proves invertible. The gloss list is stored as
//! one text blob written and read by serde_json; what those two calls return
//! is named by `gloss_blob_of` and `gloss_blob_parse`, and the only fact
//! relied on is that writing and then reading gives the gloss list back.

use vstd::prelude::*;
use vstd::string::*;
use crate::entry::{glosses_view, opt_view, DictionaryEntry, EntryModel};
use crate::store::{nul_free, RawRow, RawRowModel};

verus! {

/// The stored coding of an optional text field: absence is "-", presence is
/// the value behind a "+".
pub open spec fn opt_code(o: Option<Seq<char>>) -> Seq<char> {
    match o {
        None => seq!['-'],
        Some(s) => seq!['+'] + s,
    }
}

/// The inverse reading of the option coding; nothing when the text is not a
/// valid coding.
pub open spec fn opt_decode(s: Seq<char>) -> Option<Option<Seq<char>>> {
    if s.len() >= 1 && s[0] == '+' {
        Some(Some(s.skip(1)))
    } else if s.len() == 1 && s[0] == '-' {
        Some(None)
    } else {
        None
    }
}

/// The option coding reads back as what was written.
pub proof fn lemma_opt_code_roundtrip(o: Option<Seq<char>>)
    ensures
        opt_decode(opt_code(o)) == Some(o),
{
    match o {
        None => {},
        Some(s) => {
            assert((seq!['+'] + s).skip(1) =~= s);
        },
    }
}

fn encode_opt(o: &Option<String>) -> (r: String)
    ensures
        r@ == opt_code(opt_view(*o)),
{
    match o {
        None => {
            let r = String::from_str("-");
            proof {
                reveal_strlit("-");
                assert(r@ =~= seq!['-']);
            }
            r
        },
        Some(s) => {
            let mut r = String::from_str("+");
            r.append(s.as_str());
            proof {
                reveal_strlit("+");
                assert(r@ =~= seq!['+'] + s@);
            }
            r
        },
    }
}

fn decode_opt(s: &str) -> (r: Option<Option<String>>)
    ensures
        r is None <==> opt_decode(s@) is None,
        r matches Some(o) ==> opt_decode(s@) matches Some(m) && opt_view(o) == m,
{
    let len = s.unicode_len();
    if len >= 1 && s.get_char(0) == '+' {
        let rest = s.substring_char(1, len);
        proof {
            assert(rest@ =~= s@.skip(1));
        }
        Some(Some(rest.to_owned()))
    } else if len == 1 && s.get_char(0) == '-' {
        Some(None)
    } else {
        None
    }
}

/// What serde_json::to_string returns for a gloss list: a function of the
/// glosses alone.
pub uninterp spec fn gloss_blob_of(ts: Seq<Seq<char>>) -> Seq<char>;

/// What serde_json::from_str reads a text as, when it parses as a list of
/// strings: a function of the text alone.
pub uninterp spec fn gloss_blob_parse(s: Seq<char>) -> Option<Seq<Seq<char>>>;

/// Relies on serde_json::to_string: serializing a vector of strings is
/// deterministic in the glosses alone and never fails (serialization errors
/// come only from faulty Serialize impls or non-string map keys, and a
/// vector of strings has neither); serde_json::from_str reads the written
/// text back as the same vector; and the written text is free of NUL
/// characters, since serde_json escapes every control character.
#[verifier::external_body]
pub(crate) fn encode_glosses(ts: &Vec<String>) -> (r: String)
    ensures
        r@ == gloss_blob_of(glosses_view(ts@)),
        gloss_blob_parse(r@) == Some(glosses_view(ts@)),
        nul_free(r@),
{
    serde_json::to_string(ts).unwrap()
}

/// Relies on serde_json::from_str: reading a text as a vector of strings is
/// deterministic in the text alone, and a text written by
/// serde_json::to_string reads back as the vector that produced it.
#[verifier::external_body]
pub(crate) fn decode_glosses(s: &str) -> (r: Option<Vec<String>>)
    ensures
        r is None ==> gloss_blob_parse(s@) is None && (forall|ts: Seq<Seq<char>>|
            s@ != gloss_blob_of(ts)),
        r matches Some(v) ==> gloss_blob_parse(s@) == Some(glosses_view(v@)) && (forall|
            ts: Seq<Seq<char>>,
        |
            s@ == gloss_blob_of(ts) ==> glosses_view(v@) == ts),
{
    serde_json::from_str::<Vec<String>>(s).ok()
}

/// The raw row that entry model `e` is stored as.
pub open spec fn row_model_of(e: EntryModel) -> RawRowModel {
    RawRowModel {
        word: e.word,
        reading: e.reading,
        pos: e.pos,
        inflection: opt_code(e.inflection),
        freq: e.freq,
        glosses: gloss_blob_of(e.translations),
        sequence: e.sequence,
        tags: opt_code(e.tags),
        pronunciation: e.pronunciation,
    }
}

/// Raw row `m` reads back as entry model `e`.
pub open spec fn raw_decodes(m: RawRowModel, e: EntryModel) -> bool {
    e.word == m.word && e.reading == m.reading && e.pos == m.pos && opt_decode(m.inflection)
        == Some(e.inflection) && e.freq == m.freq && gloss_blob_parse(m.glosses)
        == Some(e.translations) && e.sequence == m.sequence && opt_decode(m.tags) == Some(e.tags)
        && e.pronunciation == m.pronunciation
}

/// A raw row reads back as at most one entry.
pub proof fn lemma_raw_decodes_deterministic(m: RawRowModel, e1: EntryModel, e2: EntryModel)
    requires
        raw_decodes(m, e1),
        raw_decodes(m, e2),
    ensures
        e1 == e2,
{
}

/// Encodes an entry into the row the store holds for it. The produced row
/// reads back as the entry, and its gloss blob is free of NUL characters.
pub(crate) fn to_row(e: &DictionaryEntry) -> (r: RawRow)
    ensures
        r.model() == row_model_of(e.model()),
        raw_decodes(r.model(), e.model()),
        nul_free(r.model().glosses),
{
    let glosses = encode_glosses(&e.translations);
    let row = RawRow {
        word: e.word.clone(),
        reading: e.reading.clone(),
        pos: e.pos.clone(),
        inflection: encode_opt(&e.inflection),
        freq: e.freq,
        glosses,
        sequence: e.sequence,
        tags: encode_opt(&e.tags),
        pronunciation: e.pronunciation.clone(),
    };
    proof {
        lemma_opt_code_roundtrip(e.model().inflection);
        lemma_opt_code_roundtrip(e.model().tags);
    }
    row
}

/// Reads a raw row back as an entry; nothing when one of the coded columns
/// does not decode. Every row that some entry encodes to does decode, and
/// to that entry.
pub(crate) fn from_row(row: &RawRow) -> (r: Option<DictionaryEntry>)
    ensures
        r matches Some(d) ==> raw_decodes(row.model(), d.model()),
        r is None ==> forall|e: EntryModel| !raw_decodes(row.model(), e),
        forall|e: EntryModel| row.model() == row_model_of(e) ==> r is Some,
{
    let inflection = match decode_opt(row.inflection.as_str()) {
        Some(o) => o,
        None => {
            proof {
                lemma_no_decode_when_opt_fails(row.model());
            }
            return None;
        },
    };
    let tags = match decode_opt(row.tags.as_str()) {
        Some(o) => o,
        None => {
            proof {
                lemma_no_decode_when_opt_fails(row.model());
            }
            return None;
        },
    };
    let translations = match decode_glosses(row.glosses.as_str()) {
        Some(v) => v,
        None => {
            return None;
        },
    };
    let d = DictionaryEntry {
        word: row.word.clone(),
        reading: row.reading.clone(),
        pos: row.pos.clone(),
        inflection,
        freq: row.freq,
        translations,
        sequence: row.sequence,
        tags,
        pronunciation: row.pronunciation.clone(),
    };
    proof {
        assert forall|e: EntryModel| row.model() == row_model_of(e) implies raw_decodes(
            row.model(),
            e,
        ) by {
            lemma_opt_code_roundtrip(e.inflection);
            lemma_opt_code_roundtrip(e.tags);
        };
    }
    Some(d)
}

proof fn lemma_no_decode_when_opt_fails(m: RawRowModel)
    requires
        opt_decode(m.inflection) is None || opt_decode(m.tags) is None,
    ensures
        forall|e: EntryModel| !raw_decodes(m, e),
{
}

} // verus!
