use tpsbar::i18n::{language_family, LanguageFamily, Localizer};

#[test]
fn chooses_chinese_from_minecraft_locale() {
    let localizer = Localizer::load();
    assert!(localizer.is_ok());
    if let Ok(localizer) = localizer {
        assert_eq!(
            localizer.message("zh_cn", "en_us", "command.enabled", &[]),
            "TPSBar 已开启。"
        );
    }
}

#[test]
fn falls_back_and_replaces_values() {
    let localizer = Localizer::load();
    assert!(localizer.is_ok());
    if let Ok(localizer) = localizer {
        assert_eq!(
            localizer.message(
                "unknown",
                "en_us",
                "error.state_save",
                &[("error", "disk full")],
            ),
            "Unable to save TPSBar state: disk full"
        );
    }
}

#[test]
fn locale_is_trimmed_lowered_and_dash_normalized() {
    assert_eq!(language_family("  ZH-TW "), Some(LanguageFamily::Chinese));
    assert_eq!(language_family("zh"), Some(LanguageFamily::Chinese));
    assert_eq!(language_family("En-GB"), Some(LanguageFamily::English));
    assert_eq!(language_family("en"), Some(LanguageFamily::English));
    assert_eq!(language_family("\u{3000}en_us\t"), Some(LanguageFamily::English));
    assert_eq!(language_family("zhx"), None);
    assert_eq!(language_family("fr_fr"), None);
    assert_eq!(language_family(""), None);
}

#[test]
fn unknown_player_locale_uses_fallback_family() {
    let localizer = Localizer::load().unwrap();
    assert_eq!(
        localizer.message("de_de", "zh_cn", "command.disabled", &[]),
        localizer.message("zh_cn", "en_us", "command.disabled", &[])
    );
    assert_eq!(
        localizer.message("de_de", "fr_fr", "command.disabled", &[]),
        "TPSBar disabled."
    );
}

#[test]
fn missing_key_is_shown_as_itself() {
    let localizer = Localizer::load().unwrap();
    assert_eq!(localizer.message("zh_cn", "en_us", "no.such.key", &[]), "no.such.key");
    let empty = Localizer::default();
    assert_eq!(empty.message("zh_cn", "en_us", "command.enabled", &[]), "command.enabled");
}

#[test]
fn every_placeholder_occurrence_is_replaced_in_turn() {
    let localizer = Localizer::default();
    assert_eq!(
        localizer.message("en_us", "en_us", "{a}-{a}-{b}", &[("a", "x{b}"), ("b", "y")]),
        "xy-xy-y"
    );
    assert_eq!(localizer.message("en_us", "en_us", "{a}", &[("c", "z")]), "{a}");
}

#[test]
fn metric_message_names_the_metric() {
    let localizer = Localizer::load().unwrap();
    assert_eq!(
        localizer.message("en_us", "en_us", "command.metric_set", &[("metric", "Ping")]),
        "TPSBar progress now follows Ping."
    );
}

#[test]
fn catalogs_are_combined_or_first_failure_reported() {
    let en = vec![("greet".to_string(), "Hello {who}".to_string())];
    let zh = vec![("greet".to_string(), "你好 {who}".to_string())];
    let localizer = Localizer::from_catalogs(Ok(en.clone()), Ok(zh)).unwrap();
    assert_eq!(localizer.message("zh_CN", "en_us", "greet", &[("who", "A")]), "你好 A");
    assert_eq!(localizer.message("en-US", "zh_cn", "greet", &[("who", "B")]), "Hello B");
    match Localizer::from_catalogs(Err("eof".to_string()), Err("x".to_string())) {
        Err(text) => assert_eq!(text, "内置 en_us 语言文件无效：eof"),
        Ok(_) => panic!("expected an error"),
    }
    match Localizer::from_catalogs(Ok(en), Err("trailing comma".to_string())) {
        Err(text) => assert_eq!(text, "内置 zh_cn 语言文件无效：trailing comma"),
        Ok(_) => panic!("expected an error"),
    }
}

#[test]
fn chinese_catalog_falls_back_to_english_per_key() {
    let en = vec![
        ("only.en".to_string(), "english only".to_string()),
        ("both".to_string(), "both en".to_string()),
    ];
    let zh = vec![("both".to_string(), "两者".to_string())];
    let localizer = Localizer::from_catalogs(Ok(en), Ok(zh)).unwrap();
    assert_eq!(localizer.message("zh", "en", "only.en", &[]), "english only");
    assert_eq!(localizer.message("zh", "en", "both", &[]), "两者");
}
