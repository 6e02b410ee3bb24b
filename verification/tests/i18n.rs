use i18nrs::{I18n, I18nConfig, InitError, PersistenceSink, StateError, StorageType};

fn make_config(langs: &[&str], docs: &[(&str, &str)]) -> (I18nConfig, Vec<(String, String)>) {
    let languages: Vec<String> = langs.iter().map(|s| s.to_string()).collect();
    let translations: Vec<(String, String)> = docs
        .iter()
        .map(|(k, v)| (k.to_string(), v.to_string()))
        .collect();
    let config = I18nConfig { languages, translations: translations.clone() };
    (config, translations)
}

fn make_i18n(langs: &[&str], docs: &[(&str, &str)]) -> I18n {
    let (config, translations) = make_config(langs, docs);
    I18n::new(config, translations).expect("construction should succeed")
}

struct MemSink {
    log: Vec<(String, String)>,
}

impl MemSink {
    fn new() -> Self {
        MemSink { log: Vec::new() }
    }
}

impl PersistenceSink for MemSink {
    fn get(&self, key: &str) -> Option<String> {
        self.log.iter().rev().find(|(k, _)| k == key).map(|(_, v)| v.clone())
    }

    fn set(&mut self, key: &str, value: &str) -> Result<(), String> {
        self.log.push((key.to_string(), value.to_string()));
        Ok(())
    }
}

struct FailSink;

impl PersistenceSink for FailSink {
    fn get(&self, _key: &str) -> Option<String> {
        None
    }

    fn set(&mut self, _key: &str, _value: &str) -> Result<(), String> {
        Err("write refused".to_string())
    }
}

#[test]
fn construction_succeeds_with_complete_documents() {
    let i18n = make_i18n(
        &["en", "fr"],
        &[("en", r#"{"greeting": "Hello"}"#), ("fr", r#"{"greeting": "Bonjour"}"#)],
    );
    assert_eq!(i18n.get_current_language(), "en");
    assert_eq!(i18n.t("greeting"), "Hello");
}

#[test]
fn construction_fails_when_document_missing() {
    let (config, translations) = make_config(&["en", "fr"], &[("en", r#"{"a": "b"}"#)]);
    let err = I18n::new(config, translations).unwrap_err();
    assert_eq!(err, InitError::MissingTranslation("fr".to_string()));
    assert_eq!(err.message(), "Translation data for 'fr' not found");
}

#[test]
fn construction_fails_on_invalid_document() {
    let (config, translations) =
        make_config(&["en", "fr"], &[("en", "{not json"), ("fr", r#"{"a": "b"}"#)]);
    let err = I18n::new(config, translations).unwrap_err();
    assert!(matches!(err, InitError::InvalidDocument(ref l, _) if l == "en"));
    assert!(err.message().starts_with("Invalid JSON for language en: "));
}

#[test]
fn construction_fails_without_languages() {
    let (config, translations) = make_config(&[], &[]);
    let err = I18n::new(config, translations).unwrap_err();
    assert_eq!(err, InitError::NoLanguagesConfigured);
    assert_eq!(err.message(), "You must add at least one supported language");
}

#[test]
fn first_entry_counts_for_a_repeated_language() {
    let i18n = make_i18n(
        &["en"],
        &[("en", r#"{"a": "first"}"#), ("en", r#"{"a": "second"}"#)],
    );
    assert_eq!(i18n.t("a"), "first");
}

#[test]
fn resolve_returns_exact_nested_leaf() {
    let i18n = make_i18n(&["en"], &[("en", r#"{"a": {"b": {"c": "value"}}}"#)]);
    assert_eq!(i18n.t("a.b.c"), "value");
}

#[test]
fn resolve_falls_back_to_default_language() {
    let mut i18n = make_i18n(
        &["en", "fr"],
        &[("en", r#"{"only_en": "English text"}"#), ("fr", r#"{}"#)],
    );
    let mut sink = MemSink::new();
    i18n.set_translation_language("fr", &mut sink, "i18nrs").unwrap();
    assert_eq!(i18n.t("only_en"), "English text");
}

#[test]
fn resolve_degrades_to_placeholder() {
    let i18n = make_i18n(&["en"], &[("en", r#"{"a": "b"}"#)]);
    assert_eq!(i18n.t("missing"), "Key 'missing' not found for language 'en'");
    assert_eq!(i18n.t("a.deeper"), "Key 'a.deeper' not found for language 'en'");
}

#[test]
fn resolve_renders_non_text_leaves() {
    let i18n = make_i18n(
        &["en"],
        &[("en", r#"{"n": 5, "b": true, "z": null, "arr": [1, 2], "nested": {"x": "y"}}"#)],
    );
    assert_eq!(i18n.t("n"), "5");
    assert_eq!(i18n.t("b"), "true");
    assert_eq!(i18n.t("z"), "null");
    assert_eq!(i18n.t("arr"), "[1,2]");
    assert_eq!(i18n.t("nested"), "{\"x\":\"y\"}");
}

#[test]
fn resolve_finds_empty_key_segment() {
    let i18n = make_i18n(&["en"], &[("en", r#"{"": "blank"}"#)]);
    assert_eq!(i18n.t(""), "blank");
}

#[test]
fn set_language_rejects_unsupported_language() {
    let mut i18n = make_i18n(
        &["en", "fr"],
        &[("en", r#"{"a": "b"}"#), ("fr", r#"{"a": "c"}"#)],
    );
    let mut sink = MemSink::new();
    let err = i18n.set_translation_language("de", &mut sink, "i18nrs").unwrap_err();
    assert_eq!(err, StateError::UnsupportedLanguage("de".to_string()));
    assert_eq!(err.message(), "Language 'de' is not supported");
    assert_eq!(i18n.get_current_language(), "en");
    assert!(sink.log.is_empty());
}

#[test]
fn set_language_keeps_state_when_persistence_fails() {
    let mut i18n = make_i18n(
        &["en", "fr"],
        &[("en", r#"{"a": "b"}"#), ("fr", r#"{"a": "c"}"#)],
    );
    let mut sink = FailSink;
    let err = i18n.set_translation_language("fr", &mut sink, "i18nrs").unwrap_err();
    assert_eq!(err, StateError::PersistenceFailure("write refused".to_string()));
    assert_eq!(err.message(), "Failed to write to storage: write refused");
    assert_eq!(i18n.get_current_language(), "en");
}

#[test]
fn set_language_writes_under_the_storage_key() {
    let mut i18n = make_i18n(
        &["en", "fr"],
        &[("en", r#"{"a": "b"}"#), ("fr", r#"{"a": "c"}"#)],
    );
    let mut sink = MemSink::new();
    i18n.set_translation_language("fr", &mut sink, "chosen_language").unwrap();
    assert_eq!(i18n.get_current_language(), "fr");
    assert_eq!(sink.log, vec![("chosen_language".to_string(), "fr".to_string())]);
    assert_eq!(sink.get("chosen_language"), Some("fr".to_string()));
}

#[test]
fn set_language_twice_is_idempotent_and_repersists() {
    let mut i18n = make_i18n(&["en"], &[("en", r#"{"a": "b"}"#)]);
    let mut sink = MemSink::new();
    i18n.set_translation_language("en", &mut sink, "i18nrs").unwrap();
    i18n.set_translation_language("en", &mut sink, "i18nrs").unwrap();
    assert_eq!(i18n.get_current_language(), "en");
    assert_eq!(i18n.t("a"), "b");
    assert_eq!(
        sink.log,
        vec![
            ("i18nrs".to_string(), "en".to_string()),
            ("i18nrs".to_string(), "en".to_string()),
        ]
    );
}

#[test]
fn init_language_prefers_a_stored_supported_language() {
    let mut i18n = make_i18n(
        &["en", "fr"],
        &[("en", r#"{"a": "b"}"#), ("fr", r#"{"a": "c"}"#)],
    );
    i18n.init_language(Some("fr".to_string()), "en");
    assert_eq!(i18n.get_current_language(), "fr");
}

#[test]
fn init_language_falls_back_to_the_default() {
    let mut i18n = make_i18n(
        &["en", "fr"],
        &[("en", r#"{"a": "b"}"#), ("fr", r#"{"a": "c"}"#)],
    );
    i18n.init_language(Some("de".to_string()), "fr");
    assert_eq!(i18n.get_current_language(), "fr");

    let mut other = make_i18n(
        &["en", "fr"],
        &[("en", r#"{"a": "b"}"#), ("fr", r#"{"a": "c"}"#)],
    );
    other.init_language(None, "fr");
    assert_eq!(other.get_current_language(), "fr");
}

#[test]
fn init_language_keeps_current_when_nothing_is_supported() {
    let mut i18n = make_i18n(
        &["en", "fr"],
        &[("en", r#"{"a": "b"}"#), ("fr", r#"{"a": "c"}"#)],
    );
    i18n.init_language(Some("de".to_string()), "es");
    assert_eq!(i18n.get_current_language(), "en");
}

#[test]
fn storage_type_defaults_to_local_storage() {
    assert_eq!(StorageType::default(), StorageType::LocalStorage);
}

#[test]
fn example_scenario_round_trip() {
    let mut i18n = make_i18n(
        &["en", "fr"],
        &[("en", r#"{"greeting": "Hello"}"#), ("fr", r#"{"greeting": "Bonjour"}"#)],
    );
    assert_eq!(i18n.get_current_language(), "en");
    assert_eq!(i18n.t("greeting"), "Hello");
    let mut sink = MemSink::new();
    i18n.set_translation_language("fr", &mut sink, "i18nrs").unwrap();
    assert_eq!(i18n.t("greeting"), "Bonjour");
    let placeholder = i18n.t("farewell");
    assert!(placeholder.contains("farewell"));
    assert!(placeholder.contains("fr"));
    assert_eq!(placeholder, "Key 'farewell' not found for language 'fr'");
}

#[test]
fn commit_language_moves_state_only_on_successful_write() {
    let mut i18n = make_i18n(
        &["en", "fr"],
        &[("en", r#"{"a": "b"}"#), ("fr", r#"{"a": "c"}"#)],
    );
    let err = i18n.commit_language("fr", Err("storage gone".to_string())).unwrap_err();
    assert_eq!(err, StateError::PersistenceFailure("storage gone".to_string()));
    assert_eq!(i18n.get_current_language(), "en");
    i18n.commit_language("fr", Ok(())).unwrap();
    assert_eq!(i18n.get_current_language(), "fr");
}
