use jpdict::entry::DictionaryEntry;
use jpdict::loader::{build_entry, RawRecord};
use jpdict::score::calculate_score;
use jpdict::text::{contains_ci_exec, eq_ci_exec, is_blank_exec, prefix_ci_exec,
    replace_repeated_consonants};

fn entry(
    word: &str,
    reading: &str,
    pos: &str,
    freq: i32,
    translations: Vec<&str>,
    pronunciation: &str,
) -> DictionaryEntry {
    DictionaryEntry {
        word: word.to_string(),
        reading: reading.to_string(),
        pos: pos.to_string(),
        inflection: None,
        freq,
        translations: translations.into_iter().map(|s| s.to_string()).collect(),
        sequence: 0,
        tags: None,
        pronunciation: pronunciation.to_string(),
    }
}

#[test]
fn eq_ci_folds_ascii_case_only() {
    assert!(eq_ci_exec("Apple", "apple"));
    assert!(eq_ci_exec("apple", "APPLE"));
    assert!(eq_ci_exec("たべる", "たべる"));
    assert!(!eq_ci_exec("apple", "apples"));
    assert!(!eq_ci_exec("apple", "applx"));
    assert!(eq_ci_exec("", ""));
}

#[test]
fn prefix_ci_matches_prefixes() {
    assert!(prefix_ci_exec("apples", "Apple"));
    assert!(prefix_ci_exec("食べると", "食べる"));
    assert!(!prefix_ci_exec("apple", "apples"));
    assert!(!prefix_ci_exec("xapple", "apple"));
    assert!(prefix_ci_exec("anything", ""));
}

#[test]
fn contains_ci_matches_substrings() {
    assert!(contains_ci_exec("pineapple", "Apple"));
    assert!(contains_ci_exec("を食べる", "食べる"));
    assert!(!contains_ci_exec("pineaple", "apple"));
    assert!(contains_ci_exec("", ""));
    assert!(!contains_ci_exec("", "a"));
}

#[test]
fn blank_queries_are_recognized() {
    assert!(is_blank_exec(""));
    assert!(is_blank_exec("   "));
    assert!(is_blank_exec(" \t\r\n"));
    assert!(is_blank_exec("\u{3000}"));
    assert!(is_blank_exec("\u{2007}\u{0085}\u{202F}"));
    assert!(!is_blank_exec(" a "));
    // the blank set is exactly what str::trim strips
    for probe in ["\u{2007}", " \u{1680}\u{2028} ", "x", " y "] {
        assert_eq!(is_blank_exec(probe), probe.trim().is_empty());
    }
}

#[test]
fn repeated_consonants_expand_to_tsu() {
    assert_eq!(replace_repeated_consonants("kitte"), "kitsute");
    assert_eq!(replace_repeated_consonants("hello"), "hetsulo");
    assert_eq!(replace_repeated_consonants("gakki"), "gatsuki");
    assert_eq!(replace_repeated_consonants("abc"), "abc");
    assert_eq!(replace_repeated_consonants(""), "");
    // vowels and uppercase letters are left alone
    assert_eq!(replace_repeated_consonants("aa"), "aa");
    assert_eq!(replace_repeated_consonants("TT"), "TT");
}

#[test]
fn exact_word_match_scores_all_three_tiers() {
    let e = entry("食べる", "たべる", "v", 100, vec!["to eat"], "taberu");
    // exact 500 + prefix 150 + substring 50 on the word field alone
    assert_eq!(calculate_score(&e, "食べる"), 700);
}

#[test]
fn substring_only_word_match_scores_low_tier() {
    let e = entry("を食べる", "をたべる", "exp", 1, vec![], "wotaberu");
    assert_eq!(calculate_score(&e, "食べる"), 50);
}

#[test]
fn prefix_word_match_scores_prefix_and_substring_tiers() {
    let e = entry("apples", "", "n", 1, vec![], "");
    assert_eq!(calculate_score(&e, "apple"), 200);
}

#[test]
fn field_tiers_fold_ascii_case() {
    let e = entry("Apple", "", "n", 1, vec![], "");
    assert_eq!(calculate_score(&e, "apple"), 700);
}

#[test]
fn matches_on_several_fields_accumulate() {
    let e = entry("sake", "sake", "n", 1, vec![], "");
    // word and reading each contribute 500 + 150 + 50
    assert_eq!(calculate_score(&e, "sake"), 1400);
}

#[test]
fn gloss_equality_scores_both_bonuses() {
    let e = entry("飲む", "のむ", "v", 1, vec!["To Drink"], "nomu");
    // gloss equal (30) and gloss containing (10), nothing else matches
    assert_eq!(calculate_score(&e, "to drink"), 40);
}

#[test]
fn gloss_containment_scores_small_bonus() {
    let e = entry("飲む", "のむ", "v", 1, vec!["to drink quickly"], "nomu");
    assert_eq!(calculate_score(&e, "to drink"), 10);
}

#[test]
fn gloss_bonuses_accumulate_across_glosses() {
    let e = entry("飲む", "のむ", "v", 1, vec!["to drink", "to gulp a drink", "drink"], "nomu");
    // 30 + 10 for the equal gloss, 10 for each containing gloss
    assert_eq!(calculate_score(&e, "drink"), 10 + 10 + 30 + 10);
}

#[test]
fn no_match_scores_zero() {
    let e = entry("走る", "はしる", "v", 1, vec!["to run"], "hashiru");
    assert_eq!(calculate_score(&e, "swim"), 0);
}

#[test]
fn entries_compare_field_by_field() {
    let a = entry("水", "みず", "n", 5, vec!["water"], "mizu");
    let b = entry("水", "みず", "n", 5, vec!["water"], "mizu");
    assert_eq!(a, b);
    let mut c = entry("水", "みず", "n", 5, vec!["water"], "mizu");
    c.inflection = Some(String::new());
    assert!(a != c);
    let d = entry("水", "みず", "n", 6, vec!["water"], "mizu");
    assert!(a != d);
}

fn full_record() -> RawRecord {
    RawRecord {
        word: Some("食べる".to_string()),
        reading: Some("たべる".to_string()),
        pos: Some("v1".to_string()),
        inflection: Some(Some("〜て".to_string())),
        freq: Some(123),
        translations: Some(vec!["to eat".to_string(), "to live on".to_string()]),
        sequence: Some(42),
        tags: Some(None),
        pronunciation: Some("taberu".to_string()),
    }
}

#[test]
fn complete_records_build_entries_verbatim() {
    let built = build_entry(&full_record()).expect("a complete record builds");
    assert_eq!(built.word, "食べる");
    assert_eq!(built.reading, "たべる");
    assert_eq!(built.pos, "v1");
    assert_eq!(built.inflection, Some("〜て".to_string()));
    assert_eq!(built.freq, 123);
    assert_eq!(built.translations, vec!["to eat".to_string(), "to live on".to_string()]);
    assert_eq!(built.sequence, 42);
    assert_eq!(built.tags, None);
    assert_eq!(built.pronunciation, "taberu");
}

#[test]
fn incomplete_or_out_of_range_records_build_nothing() {
    let mut missing_word = full_record();
    missing_word.word = None;
    assert!(build_entry(&missing_word).is_none());

    let mut malformed_tags = full_record();
    malformed_tags.tags = None;
    assert!(build_entry(&malformed_tags).is_none());

    let mut wide_freq = full_record();
    wide_freq.freq = Some(5_000_000_000);
    assert!(build_entry(&wide_freq).is_none());

    let mut wide_sequence = full_record();
    wide_sequence.sequence = Some(i64::MIN);
    assert!(build_entry(&wide_sequence).is_none());

    // an absent optional field is a well-formed absence, not a failure
    let mut absent_inflection = full_record();
    absent_inflection.inflection = Some(None);
    let built = build_entry(&absent_inflection).expect("builds");
    assert_eq!(built.inflection, None);
}
