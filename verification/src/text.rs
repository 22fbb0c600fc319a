//! Character-level text operations used by the scorer and the ranker.
//!
//! All query comparisons in this crate use one case policy: ASCII
//! case-insensitive matching (`lower_char` folds `A..Z` to `a..z` and leaves
//! every other character alone). The backing store's substring scan folds
//! exactly the same ASCII range, so the scan and the scorer agree on what
//! counts as a match.

use vstd::prelude::*;
use vstd::string::*;

verus! {

/// ASCII case folding: uppercase `A..Z` maps to `a..z`, all else unchanged.
pub open spec fn lower_char(c: char) -> char {
    if 65 <= c as u32 && c as u32 <= 90 {
        (c as u32 + 32) as char
    } else {
        c
    }
}

/// The needle matches `hay` at position `i`, comparing characters after
/// ASCII case folding.
pub open spec fn match_at(hay: Seq<char>, needle: Seq<char>, i: int) -> bool {
    forall|j: int| 0 <= j < needle.len() ==> lower_char(hay[i + j]) == lower_char(needle[j])
}

/// The two sequences are equal after ASCII case folding.
pub open spec fn eq_ci(a: Seq<char>, b: Seq<char>) -> bool {
    a.len() == b.len() && match_at(a, b, 0)
}

/// `needle` is a prefix of `hay` after ASCII case folding.
pub open spec fn prefix_ci(hay: Seq<char>, needle: Seq<char>) -> bool {
    needle.len() <= hay.len() && match_at(hay, needle, 0)
}

/// `needle` occurs somewhere in `hay` after ASCII case folding.
pub open spec fn contains_ci(hay: Seq<char>, needle: Seq<char>) -> bool {
    exists|i: int| 0 <= i && i + needle.len() <= hay.len() && match_at(hay, needle, i)
}

pub proof fn lemma_eq_ci_implies_prefix_ci(a: Seq<char>, b: Seq<char>)
    requires
        eq_ci(a, b),
    ensures
        prefix_ci(a, b),
{
}

pub proof fn lemma_prefix_ci_implies_contains_ci(a: Seq<char>, b: Seq<char>)
    requires
        prefix_ci(a, b),
    ensures
        contains_ci(a, b),
{
    assert(0 <= 0 && 0 + b.len() <= a.len() && match_at(a, b, 0));
}

pub fn lower_char_exec(c: char) -> (r: char)
    ensures
        r == lower_char(c),
{
    let u = c as u32;
    if 65 <= u && u <= 90 {
        ((u as u8) + 32) as char
    } else {
        c
    }
}

fn match_at_exec(hay: &str, needle: &str, i: usize) -> (r: bool)
    requires
        i + needle@.len() <= hay@.len(),
    ensures
        r == match_at(hay@, needle@, i as int),
{
    let hlen = hay.unicode_len();
    let nlen = needle.unicode_len();
    let mut j: usize = 0;
    while j < nlen
        invariant
            hlen == hay@.len(),
            nlen == needle@.len(),
            i + nlen <= hlen,
            0 <= j <= nlen,
            forall|k: int| 0 <= k < j ==> lower_char(hay@[i + k]) == lower_char(needle@[k]),
        decreases nlen - j,
    {
        let hc = lower_char_exec(hay.get_char(i + j));
        let nc = lower_char_exec(needle.get_char(j));
        if hc != nc {
            assert(!match_at(hay@, needle@, i as int));
            return false;
        }
        j = j + 1;
    }
    true
}

/// ASCII case-insensitive equality of two strings.
pub fn eq_ci_exec(a: &str, b: &str) -> (r: bool)
    ensures
        r == eq_ci(a@, b@),
{
    let alen = a.unicode_len();
    let blen = b.unicode_len();
    if alen != blen {
        return false;
    }
    match_at_exec(a, b, 0)
}

/// ASCII case-insensitive prefix test: does `hay` start with `needle`?
pub fn prefix_ci_exec(hay: &str, needle: &str) -> (r: bool)
    ensures
        r == prefix_ci(hay@, needle@),
{
    let hlen = hay.unicode_len();
    let nlen = needle.unicode_len();
    if nlen > hlen {
        return false;
    }
    match_at_exec(hay, needle, 0)
}

/// ASCII case-insensitive substring test: does `hay` contain `needle`?
pub fn contains_ci_exec(hay: &str, needle: &str) -> (r: bool)
    ensures
        r == contains_ci(hay@, needle@),
{
    let hlen = hay.unicode_len();
    let nlen = needle.unicode_len();
    if nlen > hlen {
        return false;
    }
    let mut i: usize = 0;
    while i <= hlen - nlen
        invariant
            hlen == hay@.len(),
            nlen == needle@.len(),
            nlen <= hlen,
            0 <= i <= hlen - nlen + 1,
            forall|k: int| 0 <= k < i ==> !match_at(hay@, needle@, k),
        decreases hlen - nlen - i + 1,
    {
        if match_at_exec(hay, needle, i) {
            return true;
        }
        i = i + 1;
    }
    false
}

/// The Unicode White_Space characters — the set that `str::trim` strips —
/// so a query is blank exactly when trimming it leaves nothing.
pub open spec fn is_space(c: char) -> bool {
    c == ' ' || c == '\t' || c == '\n' || c == '\r' || c == '\u{000B}' || c == '\u{000C}'
        || c == '\u{0085}' || c == '\u{00A0}' || c == '\u{1680}' || (0x2000 <= c as u32 && c
        as u32 <= 0x200A) || c == '\u{2028}' || c == '\u{2029}' || c == '\u{202F}'
        || c == '\u{205F}' || c == '\u{3000}'
}

/// A query is blank when every character in it is whitespace; the empty
/// query is blank.
pub open spec fn is_blank(s: Seq<char>) -> bool {
    forall|i: int| 0 <= i < s.len() ==> is_space(s[i])
}

fn is_space_exec(c: char) -> (r: bool)
    ensures
        r == is_space(c),
{
    let u = c as u32;
    c == ' ' || c == '\t' || c == '\n' || c == '\r' || c == '\u{000B}' || c == '\u{000C}'
        || c == '\u{0085}' || c == '\u{00A0}' || c == '\u{1680}' || (0x2000 <= u && u <= 0x200A)
        || c == '\u{2028}' || c == '\u{2029}' || c == '\u{202F}' || c == '\u{205F}'
        || c == '\u{3000}'
}

/// Whether the string consists of whitespace alone.
pub fn is_blank_exec(s: &str) -> (r: bool)
    ensures
        r == is_blank(s@),
{
    let len = s.unicode_len();
    let mut i: usize = 0;
    while i < len
        invariant
            len == s@.len(),
            0 <= i <= len,
            forall|k: int| 0 <= k < i ==> is_space(s@[k]),
        decreases len - i,
    {
        if !is_space_exec(s.get_char(i)) {
            return false;
        }
        i = i + 1;
    }
    true
}

/// The lowercase consonants whose doubled occurrences get expanded by
/// `replace_repeated_consonants`.
pub open spec fn is_consonant(c: char) -> bool {
    c == 'b' || c == 'c' || c == 'd' || c == 'f' || c == 'g' || c == 'h' || c == 'j' || c == 'k'
        || c == 'l' || c == 'm' || c == 'n' || c == 'p' || c == 'q' || c == 'r' || c == 's'
        || c == 't' || c == 'v' || c == 'w' || c == 'x' || c == 'y' || c == 'z'
}

/// The expansion of `s` from position `i` on: a doubled consonant `cc`
/// becomes `tsuc`, every other character is kept as it is.
pub open spec fn expand_doubles_from(s: Seq<char>, i: int) -> Seq<char>
    decreases s.len() - i,
{
    if i < 0 || i >= s.len() {
        Seq::empty()
    } else if i + 1 < s.len() && is_consonant(s[i]) && s[i + 1] == s[i] {
        seq!['t', 's', 'u', s[i]] + expand_doubles_from(s, i + 2)
    } else {
        seq![s[i]] + expand_doubles_from(s, i + 1)
    }
}

/// The romaji double-consonant expansion of a whole string.
pub open spec fn expand_doubles(s: Seq<char>) -> Seq<char> {
    expand_doubles_from(s, 0)
}

fn is_consonant_exec(c: char) -> (r: bool)
    ensures
        r == is_consonant(c),
{
    c == 'b' || c == 'c' || c == 'd' || c == 'f' || c == 'g' || c == 'h' || c == 'j' || c == 'k'
        || c == 'l' || c == 'm' || c == 'n' || c == 'p' || c == 'q' || c == 'r' || c == 's'
        || c == 't' || c == 'v' || c == 'w' || c == 'x' || c == 'y' || c == 'z'
}

/// Rewrites each doubled lowercase consonant `cc` to `tsuc`, a romaji
/// rendering of the sokuon; all other characters pass through unchanged.
pub fn replace_repeated_consonants(input: &str) -> (r: String)
    ensures
        r@ == expand_doubles(input@),
{
    let len = input.unicode_len();
    let mut result = String::new();
    let mut i: usize = 0;
    while i < len
        invariant
            len == input@.len(),
            0 <= i <= len,
            result@ + expand_doubles_from(input@, i as int) == expand_doubles(input@),
        decreases len - i,
    {
        let ch = input.get_char(i);
        let piece = input.substring_char(i, i + 1);
        if i + 1 < len && is_consonant_exec(ch) && input.get_char(i + 1) == ch {
            let ghost before = result@;
            result.append("tsu");
            result.append(piece);
            proof {
                reveal_strlit("tsu");
                assert(result@ =~= before + seq!['t', 's', 'u', input@[i as int]]);
                assert(expand_doubles_from(input@, i as int) == seq![
                    't',
                    's',
                    'u',
                    input@[i as int],
                ] + expand_doubles_from(input@, i + 2));
                assert(result@ + expand_doubles_from(input@, i + 2) =~= before
                    + expand_doubles_from(input@, i as int));
            }
            i = i + 2;
        } else {
            let ghost before = result@;
            result.append(piece);
            proof {
                assert(result@ =~= before + seq![input@[i as int]]);
                assert(expand_doubles_from(input@, i as int) == seq![input@[i as int]]
                    + expand_doubles_from(input@, i + 1));
                assert(result@ + expand_doubles_from(input@, i + 1) =~= before
                    + expand_doubles_from(input@, i as int));
            }
            i = i + 1;
        }
    }
    result
}

} // verus!
