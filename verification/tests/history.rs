use bmoji::catalog::SymbolEntry;
use bmoji::history::{BmojiOptions, EmojiHistory, MAX_HISTORY_SIZE};
use bmoji::theme::ButtonStyle;

fn words(list: &[&str]) -> Vec<String> {
    list.iter().map(|word| word.to_string()).collect()
}

fn entry(key: &str) -> SymbolEntry {
    SymbolEntry {
        key: key.to_string(),
        group: "Symbols".to_string(),
        is_variant: false,
        variants: Vec::new(),
        annotations: Vec::new(),
    }
}

#[test]
fn history_starts_empty() {
    let history = EmojiHistory::default();
    assert!(history.is_empty());
    assert_eq!(history.iter().count(), 0);
    assert!(BmojiOptions::default().history.is_empty());
}

#[test]
fn history_add_puts_new_pick_in_front() {
    let mut history = EmojiHistory::default();
    history.add("a".to_string());
    history.add("b".to_string());
    history.add("c".to_string());
    assert!(!history.is_empty());
    assert_eq!(history.0, words(&["c", "b", "a"]));
}

#[test]
fn history_add_moves_known_pick_to_front() {
    let mut history = EmojiHistory(words(&["c", "b", "a"]));
    history.add("a".to_string());
    assert_eq!(history.0, words(&["a", "c", "b"]));
    history.add("a".to_string());
    assert_eq!(history.0, words(&["a", "c", "b"]));
    history.add("c".to_string());
    assert_eq!(history.0, words(&["c", "a", "b"]));
}

#[test]
fn history_add_removes_first_occurrence_only() {
    let mut history = EmojiHistory(words(&["x", "a", "y", "a"]));
    history.add("a".to_string());
    assert_eq!(history.0, words(&["a", "x", "y", "a"]));
}

#[test]
fn history_iter_goes_newest_first() {
    let history = EmojiHistory(words(&["c", "b", "a"]));
    let seen: Vec<String> = history.iter().cloned().collect();
    assert_eq!(seen, words(&["c", "b", "a"]));
}

#[test]
fn history_emojis_resolve_against_catalog() {
    let catalog = vec![entry("a"), entry("b"), entry("c")];
    let history = EmojiHistory(words(&["c", "gone", "a"]));
    assert_eq!(history.emojis(&catalog), vec![2, 0]);
    assert!(EmojiHistory::default().emojis(&catalog).is_empty());
}

#[test]
fn history_limited_keeps_newest() {
    let history = EmojiHistory(words(&["c", "b", "a"]));
    assert_eq!(history.limited(2).0, words(&["c", "b"]));
    assert_eq!(history.limited(3).0, words(&["c", "b", "a"]));
    assert_eq!(history.limited(10).0, words(&["c", "b", "a"]));
    assert!(history.limited(0).0.is_empty());
}

#[test]
fn options_are_saved_with_bounded_history() {
    assert_eq!(MAX_HISTORY_SIZE, 80);
    let picks: Vec<String> = (0..100).map(|n| format!("k{}", n)).collect();
    let options = BmojiOptions { history: EmojiHistory(picks.clone()) };
    let saved = options.saved();
    assert_eq!(saved.history.0.len(), 80);
    assert_eq!(saved.history.0[..], picks[..80]);
    let few = BmojiOptions { history: EmojiHistory(words(&["a"])) };
    assert_eq!(few.saved().history.0, words(&["a"]));
}

#[test]
fn button_style_defaults_to_plain() {
    assert_eq!(ButtonStyle::default(), ButtonStyle::Plain);
}

#[test]
fn button_style_marks_symbols_with_variants() {
    assert_eq!(ButtonStyle::for_symbol(true), ButtonStyle::Emoji);
    assert_eq!(ButtonStyle::for_symbol(false), ButtonStyle::Plain);
    assert_eq!(ButtonStyle::for_category(true), ButtonStyle::Category);
    assert_eq!(ButtonStyle::for_category(false), ButtonStyle::Plain);
}

#[test]
fn button_style_fills_all_but_plain() {
    assert!(ButtonStyle::Category.filled());
    assert!(ButtonStyle::Emoji.filled());
    assert!(ButtonStyle::ClearSearch.filled());
    assert!(!ButtonStyle::Plain.filled());
    assert!(ButtonStyle::ClearSearch.reacts());
    assert!(!ButtonStyle::Category.reacts());
    assert!(!ButtonStyle::Emoji.reacts());
    assert!(!ButtonStyle::Plain.reacts());
}

#[test]
fn dark_scheme_is_recognised_by_its_exact_name() {
    assert!(bmoji::theme::prefers_dark("prefer-dark"));
    assert!(!bmoji::theme::prefers_dark("prefer-light"));
    assert!(!bmoji::theme::prefers_dark("default"));
    assert!(!bmoji::theme::prefers_dark(""));
    assert!(!bmoji::theme::prefers_dark("prefer-dark "));
}
