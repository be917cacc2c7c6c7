use jrnl::error::JrnlErrorKind;
use jrnl::settings::{
    bootstrap_settings, choose_journal, ColorConfig, CommonConfig, DisplayConfig, JournalConfig,
    JournalConfigs, JournalMap, LineWrapConfig, Settings, TemplateConfig, TextColor,
};

fn sample_settings() -> Settings {
    let sub_config = JournalConfig::Override(
        CommonConfig::default()
            .default_hour(4)
            .default_minute(20)
            .encrypt(true)
            .journal_config(JournalConfigs::Journal("/path/to/other.txt".to_owned())),
    );
    let mut journal_configs = JournalMap::new();
    journal_configs.insert(
        "default".to_owned(),
        JournalConfig::Standard("/path/to/default.txt".to_owned()),
    );
    journal_configs.insert("other".to_owned(), sub_config);
    let journal_config = JournalConfigs::Journals(journal_configs);
    let config = CommonConfig::default().journal_config(journal_config);
    Settings {
        config,
        ..Default::default()
    }
}

#[test]
fn test_toplevel_defaults() {
    let settings = sample_settings();
    assert_eq!(settings.default_hour("default").unwrap(), 9);
    assert_eq!(settings.default_hour("other").unwrap(), 4);
    assert_eq!(settings.default_minute("default").unwrap(), 0);
    assert_eq!(settings.default_minute("other").unwrap(), 20);
    assert!(!settings.encrypt("default").unwrap());
    assert!(settings.encrypt("other").unwrap());
    assert!(settings.highlight("default").unwrap());
    assert!(settings.highlight("other").unwrap());
}

#[test]
fn test_config_errors() {
    let settings = sample_settings();
    let expected_missing = JrnlErrorKind::MissingJournalConfig;
    let actual_missing = settings.journal_settings("foobar");
    if let Err(e) = actual_missing {
        assert_eq!(JrnlErrorKind::MissingJournalConfig, e.kind());
    } else {
        let kind = actual_missing.err().unwrap().kind();
        panic!("expected {}, got {}", expected_missing.message(), kind.message());
    }

    // make standalone config from subconfig
    let (config, _) = settings.journal_settings("other").unwrap();
    let invalid_settings = Settings {
        config: config.clone(),
        ..Default::default()
    };
    let expected_toplevel = JrnlErrorKind::TopLevelJournalConfig;
    let actual_toplevel = invalid_settings.journal_settings("other");
    if let Err(e) = actual_toplevel {
        assert_eq!(expected_toplevel, e.kind());
    } else {
        let kind = actual_toplevel.err().unwrap().kind();
        panic!("expected {}, got {}", expected_toplevel.message(), kind.message());
    }
}

#[test]
fn journal_file_gives_stored_paths() {
    let settings = sample_settings();
    assert_eq!(settings.journal_file("default").unwrap(), "/path/to/default.txt");
    assert_eq!(settings.journal_file("other").unwrap(), "/path/to/other.txt");
    assert_eq!(
        settings.journal_file("nope").unwrap_err().kind(),
        JrnlErrorKind::MissingJournalConfig
    );
}

#[test]
fn no_journals_at_all_is_missing() {
    let settings = Settings::default();
    assert_eq!(
        settings.journal_file("default").unwrap_err().kind(),
        JrnlErrorKind::MissingJournalConfig
    );
}

#[test]
fn override_without_path_is_invalid() {
    let mut map = JournalMap::new();
    map.insert(
        "broken".to_owned(),
        JournalConfig::Override(CommonConfig::default().encrypt(true)),
    );
    let settings = Settings {
        config: CommonConfig::default().journal_config(JournalConfigs::Journals(map)),
        ..Default::default()
    };
    assert_eq!(
        settings.journal_file("broken").unwrap_err().kind(),
        JrnlErrorKind::InvalidJrnlOverrideConfig
    );
    assert_eq!(
        settings.encrypt("broken").unwrap_err().kind(),
        JrnlErrorKind::InvalidJrnlOverrideConfig
    );
}

#[test]
fn override_encrypt_wins_standard_takes_root() {
    let settings = sample_settings();
    assert_eq!(settings.config.encrypt, Some(false));
    assert!(settings.encrypt("other").unwrap());
    assert!(!settings.encrypt("default").unwrap());
}

#[test]
fn toplevel_journal_fails_every_query() {
    let settings = Settings {
        config: CommonConfig::default()
            .journal_config(JournalConfigs::Journal("/some/path.txt".to_owned())),
        ..Default::default()
    };
    let top = JrnlErrorKind::TopLevelJournalConfig;
    assert_eq!(settings.journal_file("default").unwrap_err().kind(), top);
    assert_eq!(settings.default_hour("default").unwrap_err().kind(), top);
    assert_eq!(settings.default_minute("x").unwrap_err().kind(), top);
    assert_eq!(settings.colors("x").unwrap_err().kind(), top);
    assert_eq!(settings.display_format("x").unwrap_err().kind(), top);
    assert_eq!(settings.editor("x").unwrap_err().kind(), top);
    assert_eq!(settings.encrypt("x").unwrap_err().kind(), top);
    assert_eq!(settings.highlight("x").unwrap_err().kind(), top);
    assert_eq!(settings.indent_character("x").unwrap_err().kind(), top);
    assert_eq!(settings.linewrap("x").unwrap_err().kind(), top);
    assert_eq!(settings.tagsymbols("x").unwrap_err().kind(), top);
    assert_eq!(settings.template("x").unwrap_err().kind(), top);
    assert_eq!(settings.timeformat("x").unwrap_err().kind(), top);
}

fn bare_settings() -> Settings {
    // Root and journal hold no settings at all: every query falls back to
    // the compiled-in defaults.
    let mut map = JournalMap::new();
    map.insert("j".to_owned(), JournalConfig::Standard("/j.txt".to_owned()));
    let config = CommonConfig {
        colors: None,
        default_hour: None,
        default_minute: None,
        display_format: None,
        editor: None,
        encrypt: None,
        highlight: None,
        indent_character: None,
        journal_config: Some(JournalConfigs::Journals(map)),
        linewrap: None,
        tagsymbols: None,
        template: None,
        timeformat: None,
    };
    Settings {
        config,
        version: "v1".to_owned(),
    }
}

#[test]
fn compiled_in_defaults_apply_when_nothing_is_set() {
    let s = bare_settings();
    assert_eq!(s.default_hour("j").unwrap(), 9);
    assert_eq!(s.default_minute("j").unwrap(), 0);
    assert_eq!(s.colors("j").unwrap(), ColorConfig::default());
    assert_eq!(s.display_format("j").unwrap(), DisplayConfig::Text);
    assert!(!s.encrypt("j").unwrap());
    assert!(s.highlight("j").unwrap());
    assert_eq!(s.indent_character("j").unwrap(), '|');
    assert_eq!(s.linewrap("j").unwrap(), LineWrapConfig::Columns(79));
    assert_eq!(s.tagsymbols("j").unwrap(), "#@");
    assert!(matches!(s.template("j").unwrap(), TemplateConfig::Empty(false)));
    assert_eq!(s.timeformat("j").unwrap(), "%F %r");
    assert_eq!(
        s.editor("j").unwrap_err().kind(),
        JrnlErrorKind::InvalidJrnlOverrideConfig
    );
}

#[test]
fn scope_then_root_for_text_fields() {
    let sub = JournalConfig::Override(
        CommonConfig::default()
            .editor("nano".to_owned())
            .tagsymbols("%".to_owned())
            .colors(ColorConfig {
                body: TextColor::Red,
                date: TextColor::Green,
                tags: TextColor::Blue,
                title: TextColor::White,
            })
            .journal_config(JournalConfigs::Journal("/w.txt".to_owned())),
    );
    let mut map = JournalMap::new();
    map.insert("work".to_owned(), sub);
    map.insert("home".to_owned(), JournalConfig::Standard("/h.txt".to_owned()));
    let settings = Settings {
        config: CommonConfig::default()
            .editor("vim".to_owned())
            .template(TemplateConfig::Path("/t.txt".to_owned()))
            .journal_config(JournalConfigs::Journals(map)),
        ..Default::default()
    };
    assert_eq!(settings.editor("work").unwrap(), "nano");
    assert_eq!(settings.editor("home").unwrap(), "vim");
    assert_eq!(settings.tagsymbols("work").unwrap(), "%");
    assert_eq!(settings.tagsymbols("home").unwrap(), "#@");
    assert_eq!(settings.colors("work").unwrap().title, TextColor::White);
    assert_eq!(settings.colors("home").unwrap(), ColorConfig::default());
    match settings.template("home").unwrap() {
        TemplateConfig::Path(p) => assert_eq!(p, "/t.txt"),
        TemplateConfig::Empty(_) => panic!("expected a path"),
    }
    // the override block of "work" sets its own (empty) template
    assert!(matches!(settings.template("work").unwrap(), TemplateConfig::Empty(false)));
}

#[test]
fn bootstrap_has_one_default_journal() {
    let s = bootstrap_settings("/data/jrnl/journal.txt");
    assert_eq!(s.journal_file("default").unwrap(), "/data/jrnl/journal.txt");
    match &s.config.journal_config {
        Some(JournalConfigs::Journals(m)) => assert_eq!(m.names(), vec!["default".to_owned()]),
        _ => panic!("expected a journal map"),
    }
    assert_eq!(s.default_hour("default").unwrap(), 9);
    assert_eq!(s.timeformat("default").unwrap(), "%F %r");
    assert!(!s.encrypt("default").unwrap());
}

#[test]
fn with_journal_replaces_journals() {
    let s = sample_settings().with_journal("solo", "/solo.txt");
    assert_eq!(s.journal_file("solo").unwrap(), "/solo.txt");
    assert_eq!(
        s.journal_file("default").unwrap_err().kind(),
        JrnlErrorKind::MissingJournalConfig
    );
}

#[test]
fn journal_map_keeps_insertion_order() {
    let mut m = JournalMap::new();
    m.insert("b".to_owned(), JournalConfig::Standard("1".to_owned()));
    m.insert("a".to_owned(), JournalConfig::Standard("2".to_owned()));
    m.insert("b".to_owned(), JournalConfig::Standard("3".to_owned()));
    assert_eq!(m.names(), vec!["b".to_owned(), "a".to_owned()]);
    assert_eq!(m.get("b").unwrap().journal_file().unwrap(), "3");
    assert!(m.get("c").is_none());
    let copy = m.clone();
    assert_eq!(copy.names(), vec!["b".to_owned(), "a".to_owned()]);
}

#[test]
fn unknown_journal_word_becomes_entry_text() {
    let settings = sample_settings();
    let t = choose_journal(&settings, Some("hello".to_owned()), vec!["world".to_owned()]).unwrap();
    assert_eq!(t.name, "default");
    assert_eq!(t.entry, vec!["hello".to_owned(), "world".to_owned()]);
    assert_eq!(t.file, "/path/to/default.txt");
    let t = choose_journal(&settings, Some("other".to_owned()), vec![]).unwrap();
    assert_eq!(t.name, "other");
    assert_eq!(t.file, "/path/to/other.txt");
    let t = choose_journal(&settings, None, vec!["x".to_owned()]).unwrap();
    assert_eq!(t.name, "default");
    assert_eq!(t.entry, vec!["x".to_owned()]);
    let empty = Settings::default();
    assert_eq!(
        choose_journal(&empty, Some("a".to_owned()), vec![]).err().unwrap().kind(),
        JrnlErrorKind::MissingJournalConfig
    );
}

#[test]
fn error_messages_name_the_kind() {
    assert_eq!(
        JrnlErrorKind::MissingJournalConfig.message(),
        "no such journal configured"
    );
    assert_eq!(
        JrnlErrorKind::TopLevelJournalConfig.message(),
        "illegal 'journal' key found at top level"
    );
    assert_eq!(
        jrnl::error::JrnlError(JrnlErrorKind::EmptyEntry).message(),
        "entry is empty"
    );
}
