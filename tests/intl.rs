use libui::intl::{choose_language, parse_translation_file, pick_language, validate_translation_set};
use libui::{Dictionary, IntlError, TranslationCache, TranslationEntry};

const MENUS_JSON: &str = r#"{
    "menu.file": { "en": "File", "fr": "Fichier" },
    "menu.ok": { "en": "OK", "fr": "D'accord" },
    "menu.quit": { "en": "Quit", "fr": "Quitter" }
}"#;

fn entry(key: &str, langs: &[(&str, &str)]) -> TranslationEntry {
    TranslationEntry {
        key: key.to_string(),
        translations: langs.iter().map(|(l, t)| (l.to_string(), t.to_string())).collect(),
    }
}

#[test]
fn test_translation() {
    //  Initialize the dictionary
    let dictionary = Dictionary::from_json(&vec![MENUS_JSON.to_string()], "fr").unwrap();
    let mut cache = TranslationCache::new();
    let mut log = Vec::new();
    //  Demonstrate that it only does the lookup once
    for _ in 1..5 {
        println!("{} => {}", "menu.file", cache.t(1, "menu.file", &dictionary, &mut log));
    }
    assert_eq!("Fichier", cache.t(1, "menu.file", &dictionary, &mut log));
    assert!(log.is_empty());
}

#[test]
fn missing_key_falls_back_to_key_and_logs_once() {
    let d = Dictionary::from_json(&vec![MENUS_JSON.to_string()], "en").unwrap();
    let mut cache = TranslationCache::new();
    let mut log = Vec::new();
    let first = cache.t(7, "menu.absent", &d, &mut log);
    assert_eq!(first, "menu.absent");
    assert_eq!(log.len(), 1);
    let second = cache.t(7, "menu.absent", &d, &mut log);
    assert_eq!(second, first);
    assert_eq!(log.len(), 1);
    let mut lines = Vec::new();
    assert_eq!(d.translate("menu.absent", &mut lines), "menu.absent");
    assert_eq!(lines.len(), 1);
    assert_eq!(d.translate("menu.quit", &mut lines), "Quit");
    assert_eq!(lines.len(), 1);
}

#[test]
fn cached_text_stays_for_its_call_site() {
    let en = Dictionary::from_json(&vec![MENUS_JSON.to_string()], "en").unwrap();
    let fr = Dictionary::from_json(&vec![MENUS_JSON.to_string()], "fr").unwrap();
    let mut cache = TranslationCache::new();
    let mut log = Vec::new();
    assert_eq!(cache.t(3, "menu.ok", &en, &mut log), "OK");
    assert_eq!(cache.t(3, "menu.ok", &fr, &mut log), "OK");
    assert_eq!(cache.t(4, "menu.ok", &fr, &mut log), "D'accord");
}

#[test]
fn dictionary_names_key_and_missing_language() {
    let entries = vec![entry("a", &[("en", "A"), ("fr", "Ah")]), entry("b", &[("en", "B")])];
    match Dictionary::new(&entries, "en") {
        Err(IntlError::MissingTranslation { key, missing }) => {
            assert_eq!(key, "b");
            assert_eq!(missing, vec!["fr".to_string()]);
        }
        other => panic!("unexpected {:?}", other.map(|_| ())),
    }
    let reversed = vec![entry("b", &[("en", "B")]), entry("a", &[("en", "A"), ("fr", "Ah")])];
    match Dictionary::new(&reversed, "en") {
        Err(IntlError::MissingTranslation { key, missing }) => {
            assert_eq!(key, "b");
            assert_eq!(missing, vec!["fr".to_string()]);
        }
        other => panic!("unexpected {:?}", other.map(|_| ())),
    }
}

#[test]
fn dictionary_without_chosen_language_fails() {
    let entries = vec![entry("a", &[("en", "A")]), entry("b", &[("en", "B")])];
    match Dictionary::new(&entries, "de") {
        Err(IntlError::NoTranslation { key, lang }) => {
            assert_eq!(key, "a");
            assert_eq!(lang, "de");
        }
        other => panic!("unexpected {:?}", other.map(|_| ())),
    }
    assert!(Dictionary::new(&Vec::new(), "de").is_ok());
}

#[test]
fn later_entry_overrides_earlier_key() {
    let entries = vec![entry("a", &[("en", "one")]), entry("a", &[("en", "two")])];
    let d = Dictionary::new(&entries, "en").unwrap();
    assert_eq!(d.translate("a", &mut Vec::new()), "two");
}

#[test]
fn validate_set_reports_extra_language() {
    let languages = vec!["en".to_string()];
    assert!(validate_translation_set(&entry("k", &[("en", "x")]), &languages).is_ok());
    match validate_translation_set(&entry("k", &[("en", "x"), ("fr", "y")]), &languages) {
        Err(IntlError::MissingTranslation { key, missing }) => {
            assert_eq!(key, "k");
            assert!(missing.is_empty());
        }
        other => panic!("unexpected {:?}", other),
    }
}

#[test]
fn language_list_is_every_observed_language() {
    let entries = vec![entry("a", &[("en", "A"), ("fr", "Ah")]), entry("b", &[("ru", "B")])];
    let langs = Dictionary::get_language_list(&entries);
    assert_eq!(langs, vec!["en".to_string(), "fr".to_string(), "ru".to_string()]);
}

#[test]
fn malformed_file_is_rejected() {
    assert!(matches!(parse_translation_file("not json"), Err(IntlError::BadFile(_))));
    assert!(matches!(Dictionary::from_json(&vec!["[1, 2]".to_string()], "en"), Err(IntlError::BadFile(_))));
    let f = parse_translation_file(MENUS_JSON).unwrap();
    assert_eq!(f.len(), 3);
    assert_eq!(f[0].key, "menu.file");
    assert_eq!(f[0].translations, vec![("en".to_string(), "File".to_string()), ("fr".to_string(), "Fichier".to_string())]);
}

#[test]
fn locale_language_is_picked_when_available() {
    let available = vec!["en".to_string(), "fr".to_string()];
    let mut log = Vec::new();
    assert_eq!(pick_language(Some("fr_CA"), &available, &mut log).unwrap(), "fr");
    assert_eq!(pick_language(Some("en-US"), &available, &mut log).unwrap(), "en");
    assert_eq!(pick_language(Some("de-DE"), &available, &mut log).unwrap(), "en");
    assert!(log.is_empty());
    assert_eq!(pick_language(None, &available, &mut log).unwrap(), "en");
    assert_eq!(log.len(), 1);
}

#[test]
fn fallback_languages_in_order() {
    let available = vec!["ru".to_string(), "cn".to_string()];
    let mut log = Vec::new();
    assert_eq!(choose_language(None, &available, &mut log).unwrap(), "cn");
    assert!(log.is_empty());
    let odd = vec!["xx".to_string()];
    assert_eq!(choose_language(Some("de"), &odd, &mut log).unwrap(), "xx");
    assert_eq!(log.len(), 1);
    assert!(matches!(choose_language(None, &Vec::new(), &mut log), Err(IntlError::NoLanguages)));
    assert!(matches!(pick_language(Some("!!"), &odd, &mut log), Err(IntlError::BadLocale(_))));
    assert_eq!(log.len(), 1);
}

#[test]
fn translation_for_system_locale() {
    let texts = vec![MENUS_JSON.to_string()];
    let mut log = Vec::new();
    let d = Dictionary::get_translation(&texts, Some("fr_FR"), &mut log).unwrap();
    assert_eq!(d.translate("menu.quit", &mut log), "Quitter");
    assert!(log.is_empty());
    let d = Dictionary::get_translation(&texts, None, &mut log).unwrap();
    assert_eq!(d.translate("menu.quit", &mut log), "Quit");
    assert_eq!(log.len(), 1);
    assert!(matches!(Dictionary::get_translation(&texts, Some("!!"), &mut log), Err(IntlError::BadLocale(_))));
    assert!(matches!(Dictionary::get_translation(&Vec::new(), Some("fr"), &mut log), Err(IntlError::NoLanguages)));
    assert!(matches!(Dictionary::get_translation(&vec!["{".to_string()], None, &mut log), Err(IntlError::BadFile(_))));
}
