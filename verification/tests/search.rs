use bmoji::catalog::{Annotation, SymbolEntry};
use bmoji::search::{result_limit, DefSearch, SearchEngine, TantivySearch};
use bmoji::store::{
    extract_fields, index_in_memory, index_schema, pair_fields, plan_open, DirectoryState,
    IndexError, OpenPlan,
};

fn words(list: &[&str]) -> Vec<String> {
    list.iter().map(|word| word.to_string()).collect()
}

fn entry(key: &str, is_variant: bool, annotations: &[(&str, &[&str])]) -> SymbolEntry {
    SymbolEntry {
        key: key.to_string(),
        group: "Smileys & Emotion".to_string(),
        is_variant,
        variants: Vec::new(),
        annotations: annotations
            .iter()
            .map(|(lang, keywords)| Annotation { lang: lang.to_string(), keywords: words(keywords) })
            .collect(),
    }
}

fn keys(catalog: &[SymbolEntry], found: &[usize]) -> Vec<String> {
    found.iter().map(|at| catalog[*at].key.clone()).collect()
}

#[test]
fn search_finds_entry_by_keyword_end_to_end() {
    let catalog = vec![entry("😀", false, &[("en", &["grinning", "face"])])];
    let search = TantivySearch::in_memory(&catalog, &words(&["en", "en"])).unwrap();
    let found = search.search_emojis(&catalog, "grinning", 10);
    assert_eq!(keys(&catalog, &found), vec!["😀".to_string()]);
    assert!(search.search_emojis(&catalog, "xyz-no-match", 10).is_empty());
}

#[test]
fn search_finds_entry_by_keywords_of_two_languages() {
    let catalog = vec![entry("👋", false, &[("es", &["hola"]), ("en", &["hello"])])];
    let search = TantivySearch::in_memory(&catalog, &words(&["es", "en"])).unwrap();
    assert_eq!(search.search_emojis(&catalog, "hola", 10), vec![0]);
    assert_eq!(search.search_emojis(&catalog, "hello", 10), vec![0]);
}

#[test]
fn search_leaves_languages_out_that_were_not_negotiated() {
    let catalog = vec![entry("👋", false, &[("es", &["hola"]), ("en", &["hello"])])];
    let search = TantivySearch::in_memory(&catalog, &words(&["en", "en"])).unwrap();
    assert!(search.search_emojis(&catalog, "hola", 10).is_empty());
    assert_eq!(search.search_emojis(&catalog, "hello", 10), vec![0]);
}

#[test]
fn search_never_returns_variants() {
    let catalog = vec![
        entry("👋", false, &[("en", &["wave"])]),
        entry("👋🏻", true, &[("en", &["wave"])]),
    ];
    let search = TantivySearch::in_memory(&catalog, &words(&["en"])).unwrap();
    assert_eq!(search.search_emojis(&catalog, "wave", 10), vec![0]);
}

#[test]
fn search_returns_at_most_max_count() {
    let catalog: Vec<SymbolEntry> = ["a", "b", "c", "d", "e"]
        .iter()
        .map(|key| entry(key, false, &[("en", &["face"])]))
        .collect();
    let search = TantivySearch::in_memory(&catalog, &words(&["en"])).unwrap();
    assert_eq!(search.search_emojis(&catalog, "face", 3).len(), 3);
    assert_eq!(search.search_emojis(&catalog, "face", 1).len(), 1);
    assert_eq!(search.search_emojis(&catalog, "face", 5).len(), 5);
    assert_eq!(search.search_emojis(&catalog, "face", 100).len(), 5);
    assert_eq!(search.search_emojis(&catalog, "face", u32::MAX).len(), 5);
    assert!(search.search_emojis(&catalog, "face", 0).is_empty());
}

#[test]
fn search_with_empty_query_gives_no_error() {
    let catalog = vec![entry("😀", false, &[("en", &["grinning", "face"])])];
    let search = TantivySearch::in_memory(&catalog, &words(&["en"])).unwrap();
    assert!(search.search_emojis(&catalog, "", 10).len() <= 10);
    assert!(search.search_emojis(&catalog, "   ", 10).len() <= 10);
}

#[test]
fn search_with_malformed_query_gives_no_error() {
    let catalog = vec![entry("😀", false, &[("en", &["grinning", "face"])])];
    let search = TantivySearch::in_memory(&catalog, &words(&["en"])).unwrap();
    for text in ["nofield:grinning", "\"grinning", "(((", "grinning AND", "annotation:[a TO", "^", "*"] {
        assert!(search.search_emojis(&catalog, text, 10).len() <= 1, "query {:?}", text);
    }
}

#[test]
fn search_on_empty_catalog_finds_nothing() {
    let catalog: Vec<SymbolEntry> = Vec::new();
    let search = TantivySearch::in_memory(&catalog, &words(&["en"])).unwrap();
    assert!(search.search_emojis(&catalog, "face", 10).is_empty());
}

#[test]
fn search_ranks_entry_with_term_above_entry_without() {
    let catalog = vec![
        entry("🐶", false, &[("en", &["dog", "pet"])]),
        entry("🐱", false, &[("en", &["cat", "pet"])]),
    ];
    let search = TantivySearch::in_memory(&catalog, &words(&["en"])).unwrap();
    assert_eq!(search.search_emojis(&catalog, "cat", 10), vec![1]);
    assert_eq!(search.search_emojis(&catalog, "cat pet", 10), vec![1, 0]);
    assert_eq!(search.search_emojis(&catalog, "cat pet", 1), vec![1]);
    assert_eq!(search.search_emojis(&catalog, "dog pet", 10), vec![0, 1]);
}

#[test]
fn search_finds_entry_by_its_key() {
    let catalog = vec![
        entry("alpha", false, &[("en", &["first"])]),
        entry("beta", false, &[("en", &["second"])]),
    ];
    let search = TantivySearch::in_memory(&catalog, &words(&["en"])).unwrap();
    assert_eq!(search.search_emojis(&catalog, "beta", 10), vec![1]);
}

#[test]
fn search_drops_keys_that_the_catalog_does_not_hold() {
    let indexed = vec![
        entry("alpha", false, &[("en", &["letter"])]),
        entry("beta", false, &[("en", &["letter"])]),
    ];
    let other = vec![entry("beta", false, &[("en", &["letter"])])];
    let search = TantivySearch::in_memory(&indexed, &words(&["en"])).unwrap();
    assert_eq!(search.search_emojis(&other, "letter", 10), vec![0]);
}

#[test]
fn rebuild_replaces_documents_of_earlier_build() {
    let index = index_in_memory();
    let langs = words(&["en", "en"]);
    let first_catalog = vec![
        entry("😀", false, &[("en", &["grinning", "face"])]),
        entry("🐱", false, &[("en", &["cat", "face"])]),
    ];
    let first = TantivySearch::new(&index, &first_catalog, &langs).unwrap();
    let once = first.search_emojis(&first_catalog, "face", 10);
    let again = TantivySearch::new(&index, &first_catalog, &langs).unwrap();
    let twice = again.search_emojis(&first_catalog, "face", 10);
    assert_eq!(once.len(), 2);
    let mut left = keys(&first_catalog, &once);
    let mut right = keys(&first_catalog, &twice);
    left.sort();
    right.sort();
    assert_eq!(left, right);
    assert_eq!(again.search_emojis(&first_catalog, "grinning", 10), vec![0]);

    let second_catalog = vec![entry("🐶", false, &[("en", &["dog", "face"])])];
    let third = TantivySearch::new(&index, &second_catalog, &langs).unwrap();
    assert_eq!(third.search_emojis(&second_catalog, "face", 10), vec![0]);
    assert!(third.search_emojis(&first_catalog, "face", 10).is_empty());
    assert!(third.search_emojis(&second_catalog, "grinning", 10).is_empty());
}

#[test]
fn search_keeps_its_view_after_a_later_rebuild() {
    let index = index_in_memory();
    let langs = words(&["en"]);
    let catalog = vec![entry("😀", false, &[("en", &["grinning"])])];
    let search = TantivySearch::new(&index, &catalog, &langs).unwrap();
    let empty: Vec<SymbolEntry> = Vec::new();
    let _later = TantivySearch::new(&index, &empty, &langs).unwrap();
    assert_eq!(search.search_emojis(&catalog, "grinning", 10), vec![0]);
}

#[test]
fn new_rejects_index_with_dotted_field_names_only() {
    let mut builder = tantivy::schema::Schema::builder();
    builder.add_text_field("annotation.en", tantivy::schema::TEXT);
    builder.add_text_field("glyph.v1", tantivy::schema::TEXT | tantivy::schema::STORED);
    let index = tantivy::Index::create_in_ram(builder.build());
    assert!(matches!(extract_fields(&index), Err(IndexError::Incompatible)));
}

#[test]
fn new_takes_fields_by_name_in_any_order() {
    let mut builder = tantivy::schema::Schema::builder();
    builder.add_text_field("glyph", tantivy::schema::TEXT | tantivy::schema::STORED);
    builder.add_text_field("other", tantivy::schema::TEXT);
    builder.add_text_field("annotation", tantivy::schema::TEXT);
    let index = tantivy::Index::create_in_ram(builder.build());
    let pair = extract_fields(&index).unwrap();
    assert_eq!((pair.annotation, pair.glyph), (2, 0));
    let catalog = vec![entry("😀", false, &[("en", &["grinning"])])];
    let search = TantivySearch::new(&index, &catalog, &words(&["en"])).unwrap();
    assert_eq!(search.search_emojis(&catalog, "grinning", 10), vec![0]);
}

#[test]
fn new_rejects_index_without_the_two_fields() {
    let mut builder = tantivy::schema::Schema::builder();
    builder.add_text_field("annotation", tantivy::schema::TEXT);
    let index = tantivy::Index::create_in_ram(builder.build());
    let catalog = vec![entry("😀", false, &[("en", &["grinning"])])];
    let result = TantivySearch::new(&index, &catalog, &words(&["en"]));
    assert!(matches!(result, Err(IndexError::Incompatible)));
    assert!(matches!(extract_fields(&index), Err(IndexError::Incompatible)));
}

#[test]
fn new_reports_engine_failure_when_writer_is_taken() {
    let index = index_in_memory();
    let held: tantivy::IndexWriter = index.writer(15_000_000).unwrap();
    let catalog = vec![entry("😀", false, &[("en", &["grinning"])])];
    let result = TantivySearch::new(&index, &catalog, &words(&["en"]));
    match result {
        Err(IndexError::Engine(text)) => assert!(!text.is_empty()),
        _ => panic!("the writer was taken, so the engine must refuse"),
    }
    drop(held);
    assert!(TantivySearch::new(&index, &catalog, &words(&["en"])).is_ok());
}

#[test]
fn schema_has_annotation_then_glyph() {
    let schema = index_schema();
    assert_eq!(schema.get_field("annotation").unwrap().field_id(), 0);
    assert_eq!(schema.get_field("glyph").unwrap().field_id(), 1);
    assert!(schema.get_field_entry(schema.get_field("glyph").unwrap()).is_stored());
    assert!(!schema.get_field_entry(schema.get_field("annotation").unwrap()).is_stored());
    let pair = extract_fields(&index_in_memory()).unwrap();
    assert_eq!(pair.annotation, 0);
    assert_eq!(pair.glyph, 1);
}

#[test]
fn pair_fields_needs_two_different_fields() {
    let pair = pair_fields(Some(3), Some(7)).unwrap();
    assert_eq!((pair.annotation, pair.glyph), (3, 7));
    assert!(matches!(pair_fields(Some(3), Some(3)), Err(IndexError::Incompatible)));
    assert!(matches!(pair_fields(None, Some(3)), Err(IndexError::Incompatible)));
    assert!(matches!(pair_fields(Some(3), None), Err(IndexError::Incompatible)));
    assert!(matches!(pair_fields(None, None), Err(IndexError::Incompatible)));
}

#[test]
fn plan_open_follows_state_of_directory() {
    assert_eq!(plan_open(DirectoryState::Missing), OpenPlan::CreateDirectoryAndIndex);
    assert_eq!(plan_open(DirectoryState::Present { holds_index: false }), OpenPlan::CreateIndex);
    assert_eq!(plan_open(DirectoryState::Present { holds_index: true }), OpenPlan::OpenIndex);
    assert_eq!(plan_open(DirectoryState::Unusable), OpenPlan::Fail);
}

#[test]
fn fuzzy_search_resolves_matches_against_catalog() {
    let catalog = vec![
        entry("🐱", false, &[("en", &["cat"])]),
        entry("😀", false, &[("en", &["grinning", "face"])]),
    ];
    let search = DefSearch::new("en".to_string());
    assert_eq!(search.lang(), "en");
    let found = search.search_emojis(&catalog, "grinning face", 1);
    assert!(found.contains(&1));
    assert!(found.iter().all(|at| *at < catalog.len()));
    assert!(search.search_emojis(&Vec::new(), "grinning face", 10).is_empty());
}

#[test]
fn result_limit_is_the_smaller_of_the_two() {
    assert_eq!(result_limit(5, 3), 3);
    assert_eq!(result_limit(3, 5), 3);
    assert_eq!(result_limit(4, 4), 4);
    assert_eq!(result_limit(0, 10), 0);
    assert_eq!(result_limit(10, 0), 0);
    assert_eq!(result_limit(u64::MAX, u32::MAX), u32::MAX as usize);
}

#[test]
fn engine_failure_carries_the_given_words() {
    match bmoji::store::engine_failure_with("the lock is taken".to_string()) {
        IndexError::Engine(text) => assert_eq!(text, "the lock is taken"),
        other => panic!("unexpected failure {:?}", other),
    }
}

#[test]
fn search_reads_keys_back_in_order_of_rank() {
    let catalog = vec![
        entry("one", false, &[("en", &["red"])]),
        entry("two", false, &[("en", &["red", "green"])]),
        entry("three", false, &[("en", &["red", "green", "blue"])]),
    ];
    let search = TantivySearch::in_memory(&catalog, &words(&["en"])).unwrap();
    assert_eq!(search.search_emojis(&catalog, "blue", 10), vec![2]);
    let found = search.search_emojis(&catalog, "red green blue", 10);
    assert_eq!(found.len(), 3);
    assert_eq!(found[0], 2);
    let first_two = search.search_emojis(&catalog, "red green blue", 2);
    assert_eq!(first_two, found[..2].to_vec());
}
