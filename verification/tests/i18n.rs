use dgrlauncher::i18n::{code_for_display, display_name, language_of_locale, sanitize_language, startup_language};

#[test]
fn sanitize_rejects_unknown() {
    assert_eq!(sanitize_language("ru"), "ru");
    assert_eq!(sanitize_language("en"), "en");
    assert_eq!(sanitize_language(""), "en");
    assert_eq!(sanitize_language("de"), "en");
}

#[test]
fn display_roundtrip() {
    assert_eq!(code_for_display(&display_name("ru")), "ru");
    assert_eq!(code_for_display(&display_name("en")), "en");
    assert_eq!(code_for_display("???"), "en");
}

#[test]
fn locale_picks_language() {
    assert_eq!(language_of_locale(Some("ru-RU".to_string())), "ru");
    assert_eq!(language_of_locale(Some("RU".to_string())), "ru");
    assert_eq!(language_of_locale(Some("en-US".to_string())), "en");
    assert_eq!(language_of_locale(None), "en");
    assert_eq!(display_name("ru"), "Русский");
    assert_eq!(display_name("xx"), "English");
}

#[test]
fn stored_language_wins() {
    assert_eq!(startup_language(Some("ru")), "ru");
    assert_eq!(startup_language(Some("de")), "en");
    assert_eq!(startup_language(Some("")), "en");
    let detected = startup_language(None);
    assert!(detected == "ru" || detected == "en");
}
