use realconsole::i18n::{locale_sources, parse_locale_table, I18n, Language};

#[test]
fn test_language_from_str() {
    assert_eq!("zh-CN".parse::<Language>(), Ok(Language::ZhCn));
    assert_eq!("zh".parse::<Language>(), Ok(Language::ZhCn));
    assert_eq!("中文".parse::<Language>(), Ok(Language::ZhCn));
    assert_eq!("en-US".parse::<Language>(), Ok(Language::EnUs));
    assert_eq!("en".parse::<Language>(), Ok(Language::EnUs));
    assert_eq!("english".parse::<Language>(), Ok(Language::EnUs));
    assert!("unknown".parse::<Language>().is_err());
}

#[test]
fn test_language_code() {
    assert_eq!(Language::ZhCn.code(), "zh-CN");
    assert_eq!(Language::EnUs.code(), "en-US");
}

#[test]
fn test_i18n_translation() {
    let i18n = I18n::new(Language::ZhCn);
    let welcome = i18n.t("welcome.hint");
    assert!(welcome.contains("输入") || welcome == "welcome.hint");
}

#[test]
fn test_i18n_fallback() {
    let i18n = I18n::new(Language::EnUs);
    let result = i18n.t("nonexistent.key");
    assert_eq!(result, "nonexistent.key");
}

#[test]
fn test_i18n_with_args() {
    let i18n = I18n::new(Language::ZhCn);
    let result = i18n.t_with_args("welcome.version", &[("version", "1.0.0")]);
    assert!(result.contains("1.0.0"));
}

#[test]
fn i18n_installed_table_overrides_in_order() {
    let mut i18n = I18n::new(Language::EnUs);
    let base = vec![("greet".to_string(), "hello".to_string()), ("bye".to_string(), "bye".to_string())];
    let extra = vec![("greet".to_string(), "hi".to_string())];
    i18n.install_language(Language::EnUs, vec![base, extra]);
    assert_eq!(i18n.t("greet"), "hi");
    assert_eq!(i18n.t("bye"), "bye");
}

#[test]
fn i18n_falls_back_to_chinese_table() {
    let mut i18n = I18n::new(Language::EnUs);
    i18n.install_language(Language::EnUs, vec![vec![("only.en".to_string(), "E".to_string())]]);
    let zh = I18n::new(Language::ZhCn);
    let hint = zh.t("welcome.hint");
    assert_eq!(i18n.t("welcome.hint"), hint);
    assert_eq!(i18n.t("only.en"), "E");
}

#[test]
fn i18n_set_language() {
    let mut i18n = I18n::new(Language::ZhCn);
    i18n.set_language(Language::EnUs);
    assert_eq!(i18n.current_language(), Language::EnUs);
}

#[test]
fn i18n_args_replace_every_placeholder() {
    let mut i18n = I18n::new(Language::EnUs);
    i18n.install_language(Language::EnUs, vec![vec![("k".to_string(), "{a}-{a}-{b}".to_string())]]);
    assert_eq!(i18n.t_with_args("k", &[("a", "1"), ("b", "2")]), "1-1-2");
}

#[test]
fn language_names() {
    assert_eq!(Language::ZhCn.native_name(), "简体中文");
    assert_eq!(Language::EnUs.native_name(), "English");
    assert_eq!(Language::default(), Language::ZhCn);
}

#[test]
fn locale_table_parses_pairs() {
    let mut table = parse_locale_table("hello: Hi\nbye: Bye\n").unwrap();
    table.sort();
    assert_eq!(
        table,
        vec![("bye".to_string(), "Bye".to_string()), ("hello".to_string(), "Hi".to_string())]
    );
    assert!(parse_locale_table("- one\n- two\n").is_none());
}

#[test]
fn locale_sources_skip_missing_and_broken_files() {
    let sources = locale_sources(Some("a: x\n"), None, Some("- not a map\n"));
    assert_eq!(sources, vec![vec![("a".to_string(), "x".to_string())]]);
    assert!(locale_sources(None, None, None).is_empty());
}

#[test]
fn later_locale_file_overrides_earlier() {
    let mut i18n = I18n::new(Language::EnUs);
    i18n.load_language(Language::EnUs, Some("hello: Hi\nbye: Bye\n"), Some("hello: Hey\n"), None);
    assert_eq!(i18n.t("hello"), "Hey");
    assert_eq!(i18n.t("bye"), "Bye");
}

#[test]
fn no_locale_file_keeps_builtin_table() {
    let mut i18n = I18n::new(Language::EnUs);
    let before = i18n.t("welcome.version");
    i18n.load_language(Language::EnUs, None, Some("[broken"), None);
    assert_eq!(i18n.t("welcome.version"), before);
}

#[test]
fn builtin_tables_share_placeholders() {
    let zh = I18n::new(Language::ZhCn);
    let en = I18n::new(Language::EnUs);
    for key in ["welcome.version", "llm.init_failed", "llm.client_failed", "llm.need_api_key"] {
        let a = zh.t(key);
        let b = en.t(key);
        for p in ["{version}", "{type}", "{provider}"] {
            assert_eq!(a.contains(p), b.contains(p), "{} {}", key, p);
        }
    }
    assert!(zh.t("welcome.hint").contains("输入"));
    assert_eq!(en.t("llm.need_api_key"), "{provider} requires api_key");
}
