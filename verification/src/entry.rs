//! The canonical record shape for one lexicon entry, and its mathematical
//! model.

use vstd::prelude::*;

verus! {

/// One dictionary entry. Immutable once loaded; cloned freely on read paths.
///
/// `inflection` and `tags` are optional: absence is distinct from an empty
/// string. `freq` is a usage-frequency rank, treated as "higher is more
/// relevant" when breaking score ties. `sequence` is an external identifier
/// from the source lexicon, not a key.
#[derive(Debug)]
pub struct DictionaryEntry {
    pub word: String,
    pub reading: String,
    pub pos: String,
    pub inflection: Option<String>,
    pub freq: i32,
    pub translations: Vec<String>,
    pub sequence: i32,
    pub tags: Option<String>,
    pub pronunciation: String,
}

/// The mathematical value of an entry: every text field as a sequence of
/// characters, every number as an unbounded integer.
pub ghost struct EntryModel {
    pub word: Seq<char>,
    pub reading: Seq<char>,
    pub pos: Seq<char>,
    pub inflection: Option<Seq<char>>,
    pub freq: int,
    pub translations: Seq<Seq<char>>,
    pub sequence: int,
    pub tags: Option<Seq<char>>,
    pub pronunciation: Seq<char>,
}

pub open spec fn opt_view(o: Option<String>) -> Option<Seq<char>> {
    match o {
        Some(s) => Some(s@),
        None => None,
    }
}

pub open spec fn glosses_view(ts: Seq<String>) -> Seq<Seq<char>> {
    ts.map_values(|s: String| s@)
}

impl DictionaryEntry {
    pub open spec fn model(&self) -> EntryModel {
        EntryModel {
            word: self.word@,
            reading: self.reading@,
            pos: self.pos@,
            inflection: opt_view(self.inflection),
            freq: self.freq as int,
            translations: glosses_view(self.translations@),
            sequence: self.sequence as int,
            tags: opt_view(self.tags),
            pronunciation: self.pronunciation@,
        }
    }
}

pub(crate) fn clone_opt_string(o: &Option<String>) -> (r: Option<String>)
    ensures
        opt_view(r) == opt_view(*o),
{
    match o {
        Some(s) => Some(s.clone()),
        None => None,
    }
}

pub(crate) fn clone_glosses(ts: &Vec<String>) -> (r: Vec<String>)
    ensures
        glosses_view(r@) == glosses_view(ts@),
{
    let mut out: Vec<String> = Vec::new();
    let mut i: usize = 0;
    while i < ts.len()
        invariant
            0 <= i <= ts@.len(),
            glosses_view(out@) == glosses_view(ts@.take(i as int)),
        decreases ts@.len() - i,
    {
        let ghost before = out@;
        out.push(ts[i].clone());
        proof {
            assert(glosses_view(out@) =~= glosses_view(before).push(ts@[i as int]@));
            assert(glosses_view(ts@.take(i + 1)) =~= glosses_view(ts@.take(i as int)).push(
                ts@[i as int]@,
            ));
        }
        i = i + 1;
    }
    proof {
        assert(ts@.take(ts@.len() as int) =~= ts@);
    }
    out
}

impl Clone for DictionaryEntry {
    /// The clone has the same model as the original.
    fn clone(&self) -> (r: Self)
        ensures
            r.model() == self.model(),
    {
        DictionaryEntry {
            word: self.word.clone(),
            reading: self.reading.clone(),
            pos: self.pos.clone(),
            inflection: clone_opt_string(&self.inflection),
            freq: self.freq,
            translations: clone_glosses(&self.translations),
            sequence: self.sequence,
            tags: clone_opt_string(&self.tags),
            pronunciation: self.pronunciation.clone(),
        }
    }
}

fn eq_opt_string(a: &Option<String>, b: &Option<String>) -> (r: bool)
    ensures
        r == (opt_view(*a) == opt_view(*b)),
{
    match (a, b) {
        (Some(x), Some(y)) => *x == *y,
        (None, None) => true,
        _ => {
            proof {
                assert(opt_view(*a) != opt_view(*b));
            }
            false
        },
    }
}

fn eq_glosses(a: &Vec<String>, b: &Vec<String>) -> (r: bool)
    ensures
        r == (glosses_view(a@) == glosses_view(b@)),
{
    if a.len() != b.len() {
        proof {
            assert(glosses_view(a@).len() != glosses_view(b@).len());
        }
        return false;
    }
    let mut i: usize = 0;
    while i < a.len()
        invariant
            a@.len() == b@.len(),
            0 <= i <= a@.len(),
            forall|k: int| 0 <= k < i ==> glosses_view(a@)[k] == glosses_view(b@)[k],
        decreases a@.len() - i,
    {
        if !(a[i] == b[i]) {
            proof {
                assert(glosses_view(a@)[i as int] != glosses_view(b@)[i as int]);
            }
            return false;
        }
        i = i + 1;
    }
    proof {
        assert(glosses_view(a@) =~= glosses_view(b@));
    }
    true
}

impl PartialEq for DictionaryEntry {
    /// Two entries are equal exactly when all fields are equal.
    fn eq(&self, other: &Self) -> (r: bool) {
        self.word == other.word && self.reading == other.reading && self.pos == other.pos
            && eq_opt_string(&self.inflection, &other.inflection) && self.freq == other.freq
            && eq_glosses(&self.translations, &other.translations)
            && self.sequence == other.sequence && eq_opt_string(&self.tags, &other.tags)
            && self.pronunciation == other.pronunciation
    }
}

impl vstd::std_specs::cmp::PartialEqSpecImpl for DictionaryEntry {
    open spec fn obeys_eq_spec() -> bool {
        true
    }

    open spec fn eq_spec(&self, other: &Self) -> bool {
        self.model() == other.model()
    }
}

} // verus!
