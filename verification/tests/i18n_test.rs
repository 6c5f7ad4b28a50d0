use hymnal_core::i18n::{Language, Strings};

#[test]
fn from_locale_maps_known_languages() {
    assert_eq!(Language::from_locale("it_IT.UTF-8"), Language::It);
    assert_eq!(Language::from_locale("it"), Language::It);
    assert_eq!(Language::from_locale("ro_RO"), Language::Ro);
    assert_eq!(Language::from_locale("en_US"), Language::En);
}

#[test]
fn from_locale_unknown_falls_back_to_english() {
    assert_eq!(Language::from_locale("de_DE"), Language::En);
    assert_eq!(Language::from_locale(""), Language::En);
}

#[test]
fn code_round_trips() {
    for lang in Language::all() {
        assert_eq!(Language::from_code(lang.code()), lang);
    }
    assert_eq!(Language::from_code("xx"), Language::En);
}

#[test]
fn every_language_has_no_empty_strings() {
    for lang in Language::all() {
        let s = Strings::for_language(lang);
        for (i, field) in s.as_fields().iter().enumerate() {
            assert!(
                !field.trim().is_empty(),
                "language {:?} has an empty string at field index {}",
                lang,
                i
            );
        }
    }
}

#[test]
fn format_strings_keep_their_placeholders() {
    for lang in Language::all() {
        let s = Strings::for_language(lang);
        assert!(s.status_synced_fmt.contains("{}"), "{:?} synced fmt", lang);
        assert!(s.update_staged_fmt.contains("{}"), "{:?} staged fmt", lang);
        assert_eq!(
            s.slide_counter_fmt.matches("{}").count(),
            3,
            "{:?} slide counter needs 3 placeholders",
            lang
        );
    }
}

#[test]
fn codes_and_labels() {
    assert_eq!(Language::En.code(), "en");
    assert_eq!(Language::It.code(), "it");
    assert_eq!(Language::Ro.code(), "ro");
    assert_eq!(Language::from_locale(Language::Ro.code()), Language::Ro);
    assert!(!Language::It.label().is_empty());
}

#[test]
fn every_format_keeps_englishs_placeholder_count() {
    let en = Strings::for_language(Language::En);
    let counts = |s: &Strings| {
        [
            s.status_synced_fmt.matches("{}").count(),
            s.status_sync_failed_fmt.matches("{}").count(),
            s.update_staged_fmt.matches("{}").count(),
            s.slide_counter_fmt.matches("{}").count(),
            s.slide_zero_fmt.matches("{}").count(),
            s.status_indexed_fmt.matches("{}").count(),
            s.status_indexing_failed_fmt.matches("{}").count(),
        ]
    };
    assert_eq!(counts(&en), [1, 1, 1, 3, 1, 1, 1]);
    for lang in Language::all() {
        assert_eq!(counts(&Strings::for_language(lang)), counts(&en), "{:?}", lang);
    }
    assert_eq!(Strings::for_language(Language::It).slide_counter_fmt, "{} — diapositiva {}/{}");
}
