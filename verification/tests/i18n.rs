use ropy::i18n::{I18n, I18nError, Language, Translations};

#[test]
fn test_language_code() {
    assert_eq!(Language::English.code(), "en");
    assert_eq!(Language::ChineseSimplified.code(), "zh-CN");
}

#[test]
fn test_language_display_name() {
    assert_eq!(Language::English.display_name(), "English");
    assert_eq!(Language::ChineseSimplified.display_name(), "简体中文");
}

#[test]
fn test_translations_from_toml() {
    let content = "
            app_name = \"Ropy\"
            show = \"Show\"
            quit = \"Quit\"
        ";
    let translations = Translations::from_toml(content).unwrap();
    assert_eq!(translations.get("app_name"), "Ropy");
    assert_eq!(translations.get("show"), "Show");
    assert_eq!(translations.get("quit"), "Quit");
}

#[test]
fn test_missing_translation() {
    let content = "
            app_name = \"Ropy\"
        ";
    let translations = Translations::from_toml(content).unwrap();
    assert_eq!(translations.get("missing_key"), "[Missing: missing_key]");
}

#[test]
fn test_i18n_initialization() {
    let i18n = I18n::new(Language::English);
    assert!(i18n.is_ok());
    let i18n = i18n.unwrap();
    assert_eq!(i18n.current_language(), Language::English);
    assert_eq!(i18n.t("app_name"), "Ropy");
}

#[test]
fn test_i18n_language_switch() {
    let mut i18n = I18n::new(Language::English).unwrap();
    assert_eq!(i18n.t("tray_show"), "Show");

    // Switch to Chinese
    let result = i18n.set_language(Language::ChineseSimplified);
    assert!(result.is_ok());
    assert_eq!(i18n.current_language(), Language::ChineseSimplified);
    assert_eq!(i18n.t("tray_show"), "显示");
}

#[test]
fn test_language_all() {
    let languages = Language::all();
    assert_eq!(languages.len(), 2);
    assert!(languages.contains(&Language::English));
    assert!(languages.contains(&Language::ChineseSimplified));
}

#[test]
fn a_table_that_is_no_table_of_texts_is_refused() {
    for bad in ["app_name = ", "app_name = 3", "[section]\nkey = \"x\"", "a = \"1\"\na = \"2\""] {
        match Translations::from_toml(bad) {
            Err(I18nError::ParseError(words)) => assert!(!words.is_empty()),
            Ok(_) => panic!("read {:?} as a table of texts", bad),
        }
    }
    let error = I18nError::ParseError("bad line".to_string());
    assert_eq!(error.message(), "Failed to parse translation file: bad line");
}

#[test]
fn every_language_has_every_text() {
    let keys = [
        "app_name", "search_placeholder", "clear_all", "pin", "unpin", "tray_show", "tray_quit",
        "settings_title", "settings_back", "settings_save", "settings_cancel", "settings_hotkey",
        "settings_activation_key", "settings_hotkey_hint", "settings_hotkey_invalid",
        "settings_storage", "settings_max_history", "settings_theme", "settings_theme_light",
        "settings_theme_dark", "settings_theme_system", "settings_language", "settings_system",
        "settings_autostart", "settings_autostart_on", "settings_autostart_off", "about_title",
        "about_back", "about_version", "about_description", "about_github",
    ];
    for language in Language::all() {
        let i18n = I18n::new(language).expect("the texts of a language must read");
        for key in keys {
            assert!(!i18n.t(key).starts_with("[Missing"), "{} lacks {}", language.code(), key);
        }
        assert_eq!(i18n.t("no_such_key"), "[Missing: no_such_key]");
        assert_eq!(i18n.t(""), "[Missing: ]");
    }
}

#[test]
fn the_default_language_is_english() {
    assert_eq!(Language::default(), Language::English);
    let i18n = I18n::default();
    assert_eq!(i18n.current_language(), Language::English);
    assert_eq!(i18n.t("tray_quit"), "Quit");
    let empty = Translations::empty();
    assert_eq!(empty.get("tray_quit"), "[Missing: tray_quit]");
    let loaded = I18n::load_language(Language::ChineseSimplified).expect("the texts must read");
    assert_eq!(loaded.get("tray_quit"), "退出");
}

#[test]
fn the_first_text_of_a_key_counts() {
    let translations = Translations::from_pairs(vec![
        ("a".to_string(), "first".to_string()),
        ("b".to_string(), "other".to_string()),
        ("a".to_string(), "second".to_string()),
    ]);
    assert_eq!(translations.get("a"), "first");
    assert_eq!(translations.get("b"), "other");
    assert_eq!(translations.get("c"), "[Missing: c]");
    assert_eq!(translations.get("A"), "[Missing: A]");
}

#[test]
fn a_copy_gives_the_same_texts() {
    let mut i18n = I18n::new(Language::ChineseSimplified).expect("the texts must read");
    let copy = i18n.clone();
    i18n.set_language(Language::English).expect("the texts must read");
    assert_eq!(copy.current_language(), Language::ChineseSimplified);
    assert_eq!(copy.t("tray_show"), "显示");
    assert_eq!(i18n.t("tray_show"), "Show");
}
