use dictstore::db::Db;
use dictstore::words::WordDef;

fn mem_db() -> Db {
    Db::open_at(":memory:").unwrap()
}

fn entry(trad: &str, simp: &str, pinyin: &[&str], defs: &[&str]) -> WordDef {
    WordDef {
        simplified: simp.to_string(),
        traditional: trad.to_string(),
        pinyin: pinyin.iter().map(|s| s.to_string()).collect(),
        defs: defs.iter().map(|s| s.to_string()).collect(),
    }
}

#[test]
fn get_document_is_idempotent() {
    let mut db = mem_db();
    let a = db.get_document("x").unwrap();
    let b = db.get_document("x").unwrap();
    assert!(a == b);
    assert_eq!(a.get(), b.get());
}

#[test]
fn get_dict_is_idempotent() {
    let mut db = mem_db();
    let a = db.get_dict("cc-cedict").unwrap();
    let b = db.get_dict("cc-cedict").unwrap();
    assert_eq!(a.get(), b.get());
}

#[test]
fn distinct_names_get_distinct_ids() {
    let mut db = mem_db();
    let a = db.get_dict("a").unwrap();
    let b = db.get_dict("b").unwrap();
    assert!(a != b);
    assert_ne!(a.get(), b.get());
}

#[test]
fn distinct_document_names_get_distinct_ids() {
    let mut db = mem_db();
    let a = db.get_document("a").unwrap();
    let b = db.get_document("b").unwrap();
    assert_ne!(a.get(), b.get());
}

#[test]
fn reimport_replaces_all_entries() {
    let mut db = mem_db();
    db.replace_dictionary(
        "d",
        vec![
            entry("甲", "甲", &["jia3"], &["first"]),
            entry("乙", "乙", &["yi3"], &["second"]),
        ],
    )
    .unwrap();
    db.replace_dictionary("d", vec![entry("丙", "丙", &["bing3"], &["third"])]).unwrap();
    let found = db.words_starting_with("").unwrap();
    let simplified: Vec<String> = found.iter().map(|t| t.2.simplified.clone()).collect();
    assert!(simplified.contains(&"丙".to_string()));
    assert!(!simplified.contains(&"甲".to_string()));
    assert!(!simplified.contains(&"乙".to_string()));
    assert_eq!(found.len(), 1);
}

#[test]
fn replace_keeps_other_dictionaries() {
    let mut db = mem_db();
    db.replace_dictionary("one", vec![entry("甲", "甲", &["jia3"], &["first"])]).unwrap();
    db.replace_dictionary("two", vec![entry("乙", "乙", &["yi3"], &["second"])]).unwrap();
    db.replace_dictionary("one", vec![entry("丙", "丙", &["bing3"], &["third"])]).unwrap();
    let found = db.words_starting_with("乙").unwrap();
    assert_eq!(found.len(), 1);
    assert_eq!(found[0].2.simplified, "乙");
}

#[test]
fn stored_sequences_round_trip_in_order() {
    let mut db = mem_db();
    db.replace_dictionary(
        "d",
        vec![entry("中國", "中国", &["Zhong1", "guo2"], &["China", "country"])],
    )
    .unwrap();
    let found = db.words_starting_with("中国").unwrap();
    assert_eq!(found.len(), 1);
    let w = &found[0].2;
    assert_eq!(w.traditional, "中國");
    assert_eq!(w.simplified, "中国");
    assert_eq!(w.pinyin, vec!["Zhong1".to_string(), "guo2".to_string()]);
    assert_eq!(w.defs, vec!["China".to_string(), "country".to_string()]);
}

#[test]
fn prefix_search_matches_both_scripts() {
    let mut db = mem_db();
    db.replace_dictionary(
        "d",
        vec![entry("中國", "中国", &["Zhong1", "guo2"], &["China"])],
    )
    .unwrap();
    assert_eq!(db.words_starting_with("中國").unwrap().len(), 1);
    assert_eq!(db.words_starting_with("中国").unwrap().len(), 1);
    assert_eq!(db.words_starting_with("國").unwrap().len(), 0);
}

#[test]
fn prefix_search_finds_all_matching_headwords() {
    let mut db = mem_db();
    db.replace_dictionary(
        "d",
        vec![
            entry("中國", "中国", &["Zhong1", "guo2"], &["China"]),
            entry("中心", "中心", &["zhong1", "xin1"], &["center"]),
        ],
    )
    .unwrap();
    let hits = db.words_starting_with("中").unwrap();
    assert_eq!(hits.len(), 2);
    let simplified: Vec<String> = hits.iter().map(|t| t.2.simplified.clone()).collect();
    assert!(simplified.contains(&"中国".to_string()));
    assert!(simplified.contains(&"中心".to_string()));
    assert_eq!(db.words_starting_with("国").unwrap().len(), 0);
}

#[test]
fn query_reports_row_and_dictionary_ids() {
    let mut db = mem_db();
    db.replace_dictionary("d", vec![entry("甲", "甲", &["jia3"], &["first"])]).unwrap();
    let d = db.get_dict("d").unwrap();
    let hits = db.words_starting_with("甲").unwrap();
    assert_eq!(hits.len(), 1);
    assert!(hits[0].1 == d);
}

#[test]
fn empty_store_answers_empty() {
    let db = mem_db();
    assert_eq!(db.words_starting_with("").unwrap().len(), 0);
}

#[test]
fn replace_with_no_entries_empties_the_dictionary() {
    let mut db = mem_db();
    db.replace_dictionary("d", vec![entry("甲", "甲", &["jia3"], &["first"])]).unwrap();
    db.replace_dictionary("d", Vec::new()).unwrap();
    assert_eq!(db.words_starting_with("").unwrap().len(), 0);
}

#[test]
fn duplicate_headwords_are_kept() {
    let mut db = mem_db();
    db.replace_dictionary(
        "d",
        vec![
            entry("行", "行", &["xing2"], &["to walk"]),
            entry("行", "行", &["hang2"], &["row"]),
        ],
    )
    .unwrap();
    assert_eq!(db.words_starting_with("行").unwrap().len(), 2);
}

#[test]
fn schema_is_idempotent_across_opens() {
    let path = "/tmp/dictstore_schema_reopen.sqlite";
    let mut first = Db::open_at(path).unwrap();
    let a = first.get_document("persistent").unwrap();
    drop(first);
    let mut second = Db::open_at(path).unwrap();
    let b = second.get_document("persistent").unwrap();
    assert!(a == b);
}

#[test]
fn unreachable_database_path_is_reported() {
    assert!(Db::open_at("/surely-missing-directory/words.sqlite").is_err());
}

#[test]
fn import_parsed_text_and_search() {
    let text = "# CC-CEDICT sample\n中國 中国 [Zhong1 guo2] /China/\n中心 中心 [zhong1 xin1] /center/core/";
    let defs = dictstore::parse::parse_cc_cedict(text).unwrap();
    let mut db = mem_db();
    db.replace_dictionary("cc-cedict", defs).unwrap();
    let hits = db.words_starting_with("中心").unwrap();
    assert_eq!(hits.len(), 1);
    assert_eq!(hits[0].2.defs, vec!["center".to_string(), "core".to_string()]);
}
