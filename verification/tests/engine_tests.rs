use jpdict::entry::DictionaryEntry;
use jpdict::loader::populate_db;
use jpdict::search::{search_db, search_text, SearchPrompt};
use jpdict::store::{init_db, Store};

fn record(word: &str, reading: &str, freq: i32, translations: &[&str]) -> String {
    let glosses = translations
        .iter()
        .map(|t| format!("\"{}\"", t))
        .collect::<Vec<_>>()
        .join(",");
    format!(
        "{{\"word\":\"{}\",\"reading\":\"{}\",\"pos\":\"n\",\"freq\":{},\"translations\":[{}],\"sequence\":{},\"pronunciation\":\"{}\"}}",
        word, reading, freq, glosses, freq, reading
    )
}

fn fresh_store_with(files: Vec<Option<String>>) -> Store {
    let mut store = init_db(":memory:").expect("open in-memory store");
    let summary = populate_db(&mut store, &files).expect("load");
    assert!(!summary.already_populated);
    store
}

#[test]
fn loading_twice_is_a_no_op() {
    let file = format!(
        "[{},{}]",
        record("水", "みず", 10, &["water"]),
        record("火", "ひ", 20, &["fire"])
    );
    let mut store = init_db(":memory:").expect("open in-memory store");
    let first = populate_db(&mut store, &vec![Some(file.clone())]).expect("first load");
    assert!(!first.already_populated);
    assert_eq!(first.loaded, 2);
    assert_eq!(first.failed_inserts, 0);
    assert_eq!(store.count().expect("count"), 2);

    let second = populate_db(&mut store, &vec![Some(file.clone())]).expect("second load");
    assert!(second.already_populated);
    assert_eq!(second.loaded, 0);
    assert_eq!(store.count().expect("count"), 2);

    let third = populate_db(&mut store, &vec![Some(file)]).expect("third load");
    assert!(third.already_populated);
    assert_eq!(store.count().expect("count"), 2);
}

#[test]
fn records_with_empty_words_are_never_stored() {
    let file = format!(
        "[{},{}]",
        record("", "よみ", 1, &["nothing"]),
        record("本", "ほん", 2, &["book"])
    );
    let mut store = init_db(":memory:").expect("open in-memory store");
    let summary = populate_db(&mut store, &vec![Some(file)]).expect("load");
    assert_eq!(summary.loaded, 1);
    assert_eq!(summary.skipped_records, 1);
    assert_eq!(store.count().expect("count"), 1);
    let found = search_db(&store, "ほん", 0, 20).expect("search");
    assert_eq!(found.len(), 1);
    assert_eq!(found[0].word, "本");
}

#[test]
fn malformed_files_and_records_are_skipped() {
    let good = format!("[{}]", record("犬", "いぬ", 3, &["dog"]));
    let bad_json = "this is not json".to_string();
    let not_an_array = "{\"word\":\"x\"}".to_string();
    let bad_record_file = format!(
        "[{},{}]",
        "{\"word\":\"猫\",\"reading\":\"ねこ\"}",
        record("鳥", "とり", 4, &["bird"])
    );
    let mut store = init_db(":memory:").expect("open in-memory store");
    let summary = populate_db(
        &mut store,
        &vec![Some(bad_json), None, Some(not_an_array), Some(bad_record_file), Some(good)],
    )
    .expect("load");
    assert_eq!(summary.skipped_files, 3);
    assert_eq!(summary.skipped_records, 1);
    assert_eq!(summary.failed_inserts, 0);
    assert_eq!(summary.loaded, 2);
    assert_eq!(store.count().expect("count"), 2);
}

#[test]
fn out_of_range_numbers_are_skipped() {
    let file = format!(
        "[{{\"word\":\"多\",\"reading\":\"た\",\"pos\":\"n\",\"freq\":5000000000,\"translations\":[],\"sequence\":1,\"pronunciation\":\"ta\"}},{}]",
        record("少", "しょう", 2, &["few"])
    );
    let mut store = init_db(":memory:").expect("open in-memory store");
    let summary = populate_db(&mut store, &vec![Some(file)]).expect("load");
    assert_eq!(summary.loaded, 1);
    assert_eq!(summary.skipped_records, 1);
}

#[test]
fn identical_records_are_stored_once() {
    let one = record("山", "やま", 7, &["mountain"]);
    let file = format!("[{},{}]", one, one);
    let store = fresh_store_with(vec![Some(file)]);
    assert_eq!(store.count().expect("count"), 1);
}

#[test]
fn blank_queries_return_the_empty_page() {
    let file = format!("[{}]", record("空", "そら", 1, &["sky"]));
    let store = fresh_store_with(vec![Some(file)]);
    assert_eq!(search_db(&store, "", 0, 20).expect("search").len(), 0);
    assert_eq!(search_db(&store, "   ", 0, 20).expect("search").len(), 0);
    assert_eq!(search_db(&store, " \u{3000} ", 0, 20).expect("search").len(), 0);
}

#[test]
fn exact_word_match_ranks_before_substring_match() {
    let file = format!(
        "[{},{}]",
        record("食べると", "たべると", 99, &[]),
        record("食べる", "たべる", 1, &[])
    );
    let store = fresh_store_with(vec![Some(file)]);
    let found = search_db(&store, "食べる", 0, 20).expect("search");
    assert_eq!(found.len(), 2);
    assert_eq!(found[0].word, "食べる");
    assert_eq!(found[1].word, "食べると");
}

#[test]
fn equal_scores_order_by_descending_frequency() {
    let file = format!(
        "[{},{},{}]",
        record("行く", "いく", 5, &[]),
        record("行く", "ゆく", 10, &[]),
        record("行く", "いぐ", 7, &[])
    );
    let store = fresh_store_with(vec![Some(file)]);
    // every entry matches the query exactly on `word`, so scores tie
    let found = search_db(&store, "行く", 0, 20).expect("search");
    assert_eq!(found.len(), 3);
    assert_eq!(found[0].freq, 10);
    assert_eq!(found[1].freq, 7);
    assert_eq!(found[2].freq, 5);
}

#[test]
fn pages_split_at_the_page_size_boundary() {
    let records: Vec<String> = (1..=25)
        .map(|i| record(&format!("みず{}", i), "みず", i, &[]))
        .collect();
    let file = format!("[{}]", records.join(","));
    let store = fresh_store_with(vec![Some(file)]);
    assert_eq!(store.count().expect("count"), 25);
    let page0 = search_db(&store, "みず", 0, 20).expect("search");
    let page1 = search_db(&store, "みず", 1, 20).expect("search");
    let page2 = search_db(&store, "みず", 2, 20).expect("search");
    assert_eq!(page0.len(), 20);
    assert_eq!(page1.len(), 5);
    assert_eq!(page2.len(), 0);
    // the pages are disjoint: frequencies run 25 down to 6, then 5 down to 1
    assert_eq!(page0[0].freq, 25);
    assert_eq!(page0[19].freq, 6);
    assert_eq!(page1[0].freq, 5);
    assert_eq!(page1[4].freq, 1);
}

#[test]
fn gloss_equality_ranks_before_gloss_containment() {
    let file = format!(
        "[{},{}]",
        record("滝", "たき", 50, &["waterfall"]),
        record("水", "みず", 1, &["water"])
    );
    let store = fresh_store_with(vec![Some(file)]);
    let found = search_db(&store, "water", 0, 20).expect("search");
    assert_eq!(found.len(), 2);
    assert_eq!(found[0].word, "水");
    assert_eq!(found[1].word, "滝");
}

#[test]
fn zero_scoring_rows_are_dropped() {
    // the scan matches the serialized gloss blob, but scoring re-evaluates
    // per field: a query hitting only the blob's punctuation scores zero
    let file = format!("[{}]", record("本", "ほん", 1, &["a book", "a volume"]));
    let store = fresh_store_with(vec![Some(file)]);
    let found = search_db(&store, "\",\"", 0, 20).expect("search");
    assert_eq!(found.len(), 0);
}

#[test]
fn loaded_entries_round_trip_verbatim() {
    let file = "[{\"word\":\"食べる\",\"reading\":\"たべる\",\"pos\":\"v1\",\
                \"inflection\":\"〜て\",\"freq\":123,\
                \"translations\":[\"to eat\",\"to live on\"],\"sequence\":42,\
                \"tags\":\"common jlpt4\",\"pronunciation\":\"taberu\"}]"
        .to_string();
    let store = fresh_store_with(vec![Some(file)]);
    let found = search_db(&store, "食べる", 0, 20).expect("search");
    let expected = DictionaryEntry {
        word: "食べる".to_string(),
        reading: "たべる".to_string(),
        pos: "v1".to_string(),
        inflection: Some("〜て".to_string()),
        freq: 123,
        translations: vec!["to eat".to_string(), "to live on".to_string()],
        sequence: 42,
        tags: Some("common jlpt4".to_string()),
        pronunciation: "taberu".to_string(),
    };
    let matches: Vec<&DictionaryEntry> = found.iter().filter(|e| **e == expected).collect();
    assert_eq!(matches.len(), 1);
}

#[test]
fn absent_optional_fields_round_trip_as_absent() {
    let file = format!("[{}]", record("川", "かわ", 9, &["river"]));
    let store = fresh_store_with(vec![Some(file)]);
    let found = search_db(&store, "川", 0, 20).expect("search");
    assert_eq!(found.len(), 1);
    assert_eq!(found[0].inflection, None);
    assert_eq!(found[0].tags, None);
    assert_eq!(found[0].translations, vec!["river".to_string()]);
}

#[test]
fn alternate_key_spellings_are_recognized() {
    let file = "[{\"word\":\"赤\",\"reading\":\"あか\",\"partOfSpeech\":\"adj\",\
                \"frequency\":8,\"translations\":[\"red\"],\"sequence\":3,\
                \"pronunciation\":\"aka\"}]"
        .to_string();
    let store = fresh_store_with(vec![Some(file)]);
    let found = search_db(&store, "赤", 0, 20).expect("search");
    assert_eq!(found.len(), 1);
    assert_eq!(found[0].pos, "adj");
    assert_eq!(found[0].freq, 8);
}

#[test]
fn pages_past_the_matches_are_empty() {
    let file = format!("[{}]", record("海", "うみ", 4, &["sea"]));
    let store = fresh_store_with(vec![Some(file)]);
    assert_eq!(search_db(&store, "海", 5, 20).expect("search").len(), 0);
    assert_eq!(search_db(&store, "無関係", 0, 20).expect("search").len(), 0);
}

#[test]
fn search_text_picks_the_prompted_source() {
    let query = "query text".to_string();
    let selected = "selected text".to_string();
    assert_eq!(search_text(&SearchPrompt::Query, &query, &selected).as_str(), "query text");
    assert_eq!(
        search_text(&SearchPrompt::SelectedText, &query, &selected).as_str(),
        "selected text"
    );
}

#[test]
fn a_store_that_cannot_be_opened_is_a_fatal_error() {
    let result = init_db("/nonexistent_directory_for_this_test/dictionary.db");
    assert!(matches!(result, Err(jpdict::store::StoreError::Open)));
}

#[test]
fn direct_inserts_of_identical_entries_are_a_no_op() {
    let mut store = init_db(":memory:").expect("open in-memory store");
    let entry = DictionaryEntry {
        word: "猫".to_string(),
        reading: "ねこ".to_string(),
        pos: "n".to_string(),
        inflection: None,
        freq: 11,
        translations: vec!["cat".to_string()],
        sequence: 7,
        tags: None,
        pronunciation: "neko".to_string(),
    };
    store.insert_if_absent(&entry).expect("first insert");
    store.insert_if_absent(&entry).expect("second insert");
    assert_eq!(store.count().expect("count"), 1);
    let found = search_db(&store, "猫", 0, 20).expect("search");
    assert_eq!(found.len(), 1);
    assert_eq!(found[0], entry);
}

#[test]
fn reopening_a_store_with_the_library_schema_is_accepted() {
    let uri = "file:jpdict_reopen_test?mode=memory&cache=shared";
    let mut first = init_db(uri).expect("open shared in-memory store");
    let file = format!("[{}]", record("月", "つき", 3, &["moon"]));
    populate_db(&mut first, &vec![Some(file)]).expect("load");
    // a second handle sees the same table, validates its schema, and reads
    // the same rows
    let second = init_db(uri).expect("reopen");
    assert_eq!(second.count().expect("count"), 1);
    let found = search_db(&second, "月", 0, 20).expect("search");
    assert_eq!(found.len(), 1);
    assert_eq!(found[0].word, "月");
}
