use bmoji::locale::{negotiate, LanguageTag};

fn tags(names: &[&str]) -> Vec<String> {
    names.iter().map(|name| name.to_string()).collect()
}

fn chars(text: &str) -> Vec<char> {
    text.chars().collect()
}

#[test]
fn negotiation_matches_language_of_posix_locale() {
    let available = tags(&["en", "es", "fr"]);
    let result = negotiate(Some("es_ES.UTF-8"), &available);
    assert_eq!(result[0], "es");
    assert_eq!(result, vec!["es".to_string(), "en".to_string()]);
}

#[test]
fn negotiation_falls_back_when_locale_is_unset() {
    let available = tags(&["en", "es", "fr"]);
    assert_eq!(negotiate(None, &available), vec!["en".to_string(), "en".to_string()]);
}

#[test]
fn negotiation_falls_back_when_locale_is_malformed() {
    let available = tags(&["en", "es", "fr"]);
    for raw in ["", "C", "!!!", ".UTF-8", "es__ES", "es_ES_", "toolonglanguage", "e5", "es_ES@euro"] {
        let result = negotiate(Some(raw), &available);
        assert_eq!(result, vec!["en".to_string(), "en".to_string()], "locale {:?}", raw);
    }
}

#[test]
fn negotiation_falls_back_when_nothing_is_supported() {
    let available = tags(&["en", "es", "fr"]);
    assert_eq!(
        negotiate(Some("de_DE.UTF-8"), &available),
        vec!["en".to_string(), "en".to_string()]
    );
    let none: Vec<String> = Vec::new();
    assert_eq!(negotiate(Some("es_ES.UTF-8"), &none), vec!["en".to_string(), "en".to_string()]);
}

#[test]
fn negotiation_keeps_default_when_default_is_negotiated() {
    let available = tags(&["en", "es", "fr"]);
    let result = negotiate(Some("en_US.UTF-8"), &available);
    assert_eq!(result.len(), 2);
    assert_eq!(result, vec!["en".to_string(), "en".to_string()]);
}

#[test]
fn negotiation_prefers_equal_tag_over_covering_tag() {
    let available = tags(&["es", "es_MX", "fr"]);
    assert_eq!(
        negotiate(Some("es_MX.UTF-8"), &available),
        vec!["es_MX".to_string(), "en".to_string()]
    );
    assert_eq!(
        negotiate(Some("es_AR.UTF-8"), &available),
        vec!["es".to_string(), "en".to_string()]
    );
}

#[test]
fn negotiation_does_not_relax_the_request() {
    let available = tags(&["es_MX", "zh_Hant"]);
    assert_eq!(negotiate(Some("es_ES"), &available), vec!["en".to_string(), "en".to_string()]);
    assert_eq!(negotiate(Some("es"), &available), vec!["en".to_string(), "en".to_string()]);
    assert_eq!(negotiate(Some("zh_TW"), &available), vec!["en".to_string(), "en".to_string()]);
    assert_eq!(
        negotiate(Some("zh_Hant_TW.UTF-8"), &available),
        vec!["zh_Hant".to_string(), "en".to_string()]
    );
}

#[test]
fn negotiation_ignores_case_and_separator() {
    let available = tags(&["pt-br", "SR_cyrl"]);
    assert_eq!(
        negotiate(Some("pt_BR.ISO-8859-1"), &available),
        vec!["pt-br".to_string(), "en".to_string()]
    );
    assert_eq!(
        negotiate(Some("sr-Cyrl-RS"), &available),
        vec!["SR_cyrl".to_string(), "en".to_string()]
    );
}

#[test]
fn negotiation_skips_supported_tags_that_spell_no_tag() {
    let available = tags(&["root", "", "fr"]);
    assert_eq!(
        negotiate(Some("fr_FR.UTF-8"), &available),
        vec!["fr".to_string(), "en".to_string()]
    );
}

#[test]
fn negotiation_takes_first_of_equal_candidates() {
    let available = tags(&["fr", "FR", "fr"]);
    let result = negotiate(Some("fr"), &available);
    assert_eq!(result, vec!["fr".to_string(), "en".to_string()]);
}

#[test]
fn language_tag_parses_every_kind_of_subtag() {
    let tag = LanguageTag::parse("sl-Latn-IT-rozaj-1994").unwrap();
    assert_eq!(tag.language, chars("sl"));
    assert_eq!(tag.script, Some(chars("latn")));
    assert_eq!(tag.region, Some(chars("it")));
    assert_eq!(tag.variants, vec![chars("rozaj"), chars("1994")]);
}

#[test]
fn language_tag_parses_language_alone() {
    let tag = LanguageTag::parse("EN").unwrap();
    assert_eq!(tag.language, chars("en"));
    assert_eq!(tag.script, None);
    assert_eq!(tag.region, None);
    assert!(tag.variants.is_empty());
}

#[test]
fn language_tag_parses_numeric_region() {
    let tag = LanguageTag::parse("es_419").unwrap();
    assert_eq!(tag.language, chars("es"));
    assert_eq!(tag.region, Some(chars("419")));
    assert_eq!(tag.script, None);
}

#[test]
fn language_tag_rejects_malformed_text() {
    for text in ["", "e", "root", "en-", "-en", "en--US", "en-US-US", "en-Latn-Latn", "en-x", "é", "en.UTF-8", "123"] {
        assert!(LanguageTag::parse(text).is_none(), "text {:?}", text);
    }
}

#[test]
fn language_tag_covers_by_stated_subtags_only() {
    let spanish = LanguageTag::parse("es").unwrap();
    let mexican = LanguageTag::parse("es-MX").unwrap();
    let castilian = LanguageTag::parse("es-ES").unwrap();
    assert!(spanish.covers(&mexican));
    assert!(spanish.covers(&spanish));
    assert!(!mexican.covers(&spanish));
    assert!(!mexican.covers(&castilian));
    assert!(mexican.equals(&LanguageTag::parse("ES_mx").unwrap()));
    assert!(!mexican.equals(&spanish));
}
