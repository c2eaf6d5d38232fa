use bmoji::catalog::{
    entries_in_group, find_entry, has_unique_keys, resolve_keys, Annotation, SymbolEntry,
};
use bmoji::document::{build_annotation_text, build_documents, has_language};

fn words(list: &[&str]) -> Vec<String> {
    list.iter().map(|word| word.to_string()).collect()
}

fn annotation(lang: &str, keywords: &[&str]) -> Annotation {
    Annotation { lang: lang.to_string(), keywords: words(keywords) }
}

fn entry(key: &str, group: &str, is_variant: bool, annotations: Vec<Annotation>) -> SymbolEntry {
    SymbolEntry {
        key: key.to_string(),
        group: group.to_string(),
        is_variant,
        variants: Vec::new(),
        annotations,
    }
}

#[test]
fn annotation_text_joins_keywords_with_commas() {
    let grinning = entry("😀", "Smileys & Emotion", false, vec![annotation("en", &["grinning", "face"])]);
    assert_eq!(build_annotation_text(&grinning, &words(&["en", "en"])), "grinning,face");
}

#[test]
fn annotation_text_accumulates_languages() {
    let hello = entry(
        "👋",
        "People & Body",
        false,
        vec![annotation("es", &["hola"]), annotation("en", &["hello"])],
    );
    assert_eq!(build_annotation_text(&hello, &words(&["es", "en"])), "hola,hello");
    assert_eq!(build_annotation_text(&hello, &words(&["en", "es"])), "hola,hello");
    assert_eq!(build_annotation_text(&hello, &words(&["en"])), "hello");
    assert_eq!(build_annotation_text(&hello, &words(&["fr", "en"])), "hello");
}

#[test]
fn annotation_text_is_empty_without_a_matching_language() {
    let hello = entry("👋", "People & Body", false, vec![annotation("es", &["hola"])]);
    assert_eq!(build_annotation_text(&hello, &words(&["fr", "en"])), "");
    assert_eq!(build_annotation_text(&hello, &Vec::new()), "");
    let bare = entry("👋", "People & Body", false, Vec::new());
    assert_eq!(build_annotation_text(&bare, &words(&["en"])), "");
}

#[test]
fn annotation_text_keeps_empty_keywords_in_place() {
    let odd = entry("❓", "Symbols", false, vec![annotation("en", &["", "mark", ""])]);
    assert_eq!(build_annotation_text(&odd, &words(&["en"])), ",mark,");
}

#[test]
fn has_language_compares_whole_tags() {
    let langs = words(&["es", "en"]);
    assert!(has_language(&langs, "es"));
    assert!(has_language(&langs, "en"));
    assert!(!has_language(&langs, "e"));
    assert!(!has_language(&langs, "es_MX"));
    assert!(!has_language(&Vec::new(), "en"));
}

#[test]
fn documents_skip_variants() {
    let catalog = vec![
        entry("👋", "People & Body", false, vec![annotation("en", &["wave"])]),
        entry("👋🏻", "People & Body", true, vec![annotation("en", &["wave", "light"])]),
        entry("😀", "Smileys & Emotion", false, vec![annotation("en", &["grinning", "face"])]),
    ];
    let batch = build_documents(&catalog, &words(&["en", "en"]));
    assert_eq!(batch.len(), 2);
    assert_eq!(batch[0].key, "👋");
    assert_eq!(batch[0].annotation_text, "wave");
    assert_eq!(batch[1].key, "😀");
    assert_eq!(batch[1].annotation_text, "grinning,face");
}

#[test]
fn documents_of_empty_catalog_are_none() {
    assert!(build_documents(&Vec::new(), &words(&["en"])).is_empty());
}

#[test]
fn documents_are_the_same_for_the_same_input() {
    let catalog = vec![
        entry("👋", "People & Body", false, vec![annotation("es", &["hola"]), annotation("en", &["hello"])]),
        entry("😀", "Smileys & Emotion", false, vec![annotation("en", &["grinning", "face"])]),
    ];
    let langs = words(&["es", "en"]);
    let first = build_documents(&catalog, &langs);
    let second = build_documents(&catalog, &langs);
    assert_eq!(first.len(), second.len());
    for (a, b) in first.iter().zip(second.iter()) {
        assert_eq!(a.key, b.key);
        assert_eq!(a.annotation_text, b.annotation_text);
    }
}

#[test]
fn find_entry_gives_first_position_of_key() {
    let catalog = vec![
        entry("a", "g", false, Vec::new()),
        entry("b", "g", false, Vec::new()),
        entry("a", "g", true, Vec::new()),
    ];
    assert_eq!(find_entry(&catalog, "a"), Some(0));
    assert_eq!(find_entry(&catalog, "b"), Some(1));
    assert_eq!(find_entry(&catalog, "c"), None);
    assert_eq!(find_entry(&Vec::new(), "a"), None);
}

#[test]
fn resolve_keys_drops_unknown_keys_and_keeps_order() {
    let catalog = vec![
        entry("a", "g", false, Vec::new()),
        entry("b", "g", false, Vec::new()),
        entry("c", "g", false, Vec::new()),
    ];
    assert_eq!(resolve_keys(&catalog, &words(&["c", "x", "a", "c"])), vec![2, 0, 2]);
    assert_eq!(resolve_keys(&catalog, &Vec::new()), Vec::<usize>::new());
}

#[test]
fn entries_in_group_leave_variants_out() {
    let catalog = vec![
        entry("⚽", "Activities", false, Vec::new()),
        entry("🐻", "Animals & Nature", false, Vec::new()),
        entry("🏀", "Activities", true, Vec::new()),
        entry("🎾", "Activities", false, Vec::new()),
    ];
    assert_eq!(entries_in_group(&catalog, "Activities"), vec![0, 3]);
    assert_eq!(entries_in_group(&catalog, "Flags"), Vec::<usize>::new());
}

#[test]
fn unique_keys_are_told_from_repeated_ones() {
    let unique = vec![
        entry("a", "g", false, Vec::new()),
        entry("b", "g", false, Vec::new()),
        entry("c", "g", true, Vec::new()),
    ];
    assert!(has_unique_keys(&unique));
    let repeated = vec![
        entry("a", "g", false, Vec::new()),
        entry("b", "g", false, Vec::new()),
        entry("a", "h", true, Vec::new()),
    ];
    assert!(!has_unique_keys(&repeated));
    assert!(has_unique_keys(&Vec::new()));
}
