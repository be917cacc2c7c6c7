use jrnl::cli::{apply_overrides, bool_from_lowered, collect_overrides, parse_i64, table_get};
use jrnl::error::JrnlErrorKind;
use jrnl::settings::{
    ColorConfig, CommonConfig, DisplayConfig, JournalConfig, JournalConfigs, JournalMap,
    LineWrapConfig, Settings, TemplateConfig, TextColor,
};

fn words(v: &[&str]) -> Vec<String> {
    v.iter().map(|s| s.to_string()).collect()
}

fn file_settings() -> Settings {
    let mut map = JournalMap::new();
    map.insert("default".to_owned(), JournalConfig::Standard("/d.txt".to_owned()));
    map.insert(
        "work".to_owned(),
        JournalConfig::Override(
            CommonConfig::default()
                .encrypt(true)
                .journal_config(JournalConfigs::Journal("/w.txt".to_owned())),
        ),
    );
    Settings {
        config: CommonConfig::default()
            .encrypt(false)
            .journal_config(JournalConfigs::Journals(map)),
        ..Default::default()
    }
}

#[test]
fn encrypt_override_beats_file() {
    let patch = collect_overrides(&words(&["encrypt", "true"])).unwrap();
    assert_eq!(patch.encrypt, Some(true));
    let merged = apply_overrides(file_settings(), &patch).unwrap();
    assert!(merged.encrypt("default").unwrap());
    assert_eq!(merged.config.encrypt, Some(true));
}

#[test]
fn color_overrides_merge_into_one_table() {
    let patch = collect_overrides(&words(&["color.title", "green", "color.body", "blue"])).unwrap();
    assert_eq!(patch.color.len(), 2);
    assert_eq!(table_get(&patch.color, "title").unwrap(), "green");
    assert_eq!(table_get(&patch.color, "body").unwrap(), "blue");
    let merged = apply_overrides(file_settings(), &patch).unwrap();
    assert_eq!(
        merged.colors("default").unwrap(),
        ColorConfig {
            body: TextColor::Blue,
            date: TextColor::Black,
            tags: TextColor::Yellow,
            title: TextColor::Green,
        }
    );
}

#[test]
fn single_color_keeps_other_parts() {
    let patch = collect_overrides(&words(&["color.title", "red"])).unwrap();
    let merged = apply_overrides(file_settings(), &patch).unwrap();
    let colors = merged.colors("default").unwrap();
    assert_eq!(colors.title, TextColor::Red);
    assert_eq!(colors.body, TextColor::NoColor);
}

#[test]
fn odd_override_list_is_malformed() {
    let err = collect_overrides(&words(&["encrypt", "true", "editor"])).err().unwrap();
    assert_eq!(err.kind(), JrnlErrorKind::MalformedOverride);
    let err = collect_overrides(&words(&["editor"])).err().unwrap();
    assert_eq!(err.kind(), JrnlErrorKind::MalformedOverride);
}

#[test]
fn boolean_coercion_any_case() {
    let patch = collect_overrides(&words(&["highlight", "FALSE", "encrypt", "1"])).unwrap();
    assert_eq!(patch.highlight, Some(false));
    assert_eq!(patch.encrypt, Some(true));
    let patch = collect_overrides(&words(&["encrypt", "TrUe"])).unwrap();
    assert_eq!(patch.encrypt, Some(true));
    let patch = collect_overrides(&words(&["encrypt", "0"])).unwrap();
    assert_eq!(patch.encrypt, Some(false));
    let err = collect_overrides(&words(&["encrypt", "yes"])).err().unwrap();
    assert_eq!(err.kind(), JrnlErrorKind::InvalidCoercion);
}

#[test]
fn integer_coercion() {
    let patch = collect_overrides(&words(&["default_hour", "7", "default_minute", "-3", "linewrap", "120"]))
        .unwrap();
    assert_eq!(patch.default_hour, Some(7));
    assert_eq!(patch.default_minute, Some(-3));
    assert_eq!(patch.linewrap, Some(120));
    let err = collect_overrides(&words(&["linewrap", "wide"])).err().unwrap();
    assert_eq!(err.kind(), JrnlErrorKind::InvalidCoercion);
    let merged = apply_overrides(file_settings(), &patch).unwrap();
    assert_eq!(merged.default_hour("default").unwrap(), 7);
    assert_eq!(merged.default_minute("default").unwrap(), -3);
    // the override block of "work" sets its own minute, which wins
    assert_eq!(merged.default_minute("work").unwrap(), 0);
    assert_eq!(merged.linewrap("default").unwrap(), LineWrapConfig::Columns(120));
}

#[test]
fn out_of_range_hour_is_refused_on_merge() {
    let patch = collect_overrides(&words(&["default_hour", "300"])).unwrap();
    let err = apply_overrides(file_settings(), &patch).err().unwrap();
    assert_eq!(err.kind(), JrnlErrorKind::InvalidCoercion);
}

#[test]
fn parse_i64_edges() {
    assert_eq!(parse_i64("42"), Some(42));
    assert_eq!(parse_i64("+42"), Some(42));
    assert_eq!(parse_i64("-42"), Some(-42));
    assert_eq!(parse_i64("9223372036854775807"), Some(i64::MAX));
    assert_eq!(parse_i64("-9223372036854775808"), Some(i64::MIN));
    assert_eq!(parse_i64("9223372036854775808"), None);
    assert_eq!(parse_i64(""), None);
    assert_eq!(parse_i64("-"), None);
    assert_eq!(parse_i64("+-1"), None);
    assert_eq!(parse_i64("1 "), None);
    assert_eq!(parse_i64("007"), Some(7));
}

#[test]
fn raw_keys_and_journals_tables() {
    let patch = collect_overrides(&words(&[
        "editor",
        "nano",
        "journals.new",
        "/n.txt",
        "journals.work",
        "/w2.txt",
        "display_format",
        "md",
        "editor",
        "emacs",
    ]))
    .unwrap();
    assert_eq!(table_get(&patch.other, "editor").unwrap(), "emacs");
    assert_eq!(table_get(&patch.journals, "new").unwrap(), "/n.txt");
    let merged = apply_overrides(file_settings(), &patch).unwrap();
    assert_eq!(merged.editor("default").unwrap(), "emacs");
    assert_eq!(merged.journal_file("new").unwrap(), "/n.txt");
    assert_eq!(merged.journal_file("work").unwrap(), "/w2.txt");
    assert_eq!(merged.journal_file("default").unwrap(), "/d.txt");
    assert!(!merged.encrypt("work").unwrap());
    assert_eq!(merged.display_format("default").unwrap(), DisplayConfig::Markdown);
}

#[test]
fn unknown_display_format_is_refused() {
    let patch = collect_overrides(&words(&["display_format", "fancy"])).unwrap();
    let err = apply_overrides(file_settings(), &patch).err().unwrap();
    assert_eq!(err.kind(), JrnlErrorKind::InvalidCoercion);
}

#[test]
fn journals_over_toplevel_path_clash() {
    let settings = Settings {
        config: CommonConfig::default().journal_config(JournalConfigs::Journal("/x".to_owned())),
        ..Default::default()
    };
    let patch = collect_overrides(&words(&["journals.a", "/a.txt"])).unwrap();
    let err = apply_overrides(settings, &patch).err().unwrap();
    assert_eq!(err.kind(), JrnlErrorKind::TopLevelJournalConfig);
}

#[test]
fn template_and_indent_overrides() {
    let patch = collect_overrides(&words(&["template", "/tpl.txt", "indent_character", ">"])).unwrap();
    let merged = apply_overrides(file_settings(), &patch).unwrap();
    assert_eq!(merged.indent_character("default").unwrap(), '>');
    match merged.template("default").unwrap() {
        TemplateConfig::Path(p) => assert_eq!(p, "/tpl.txt"),
        TemplateConfig::Empty(_) => panic!("expected a path"),
    }
    let patch = collect_overrides(&words(&["indent_character", ">>"])).unwrap();
    let err = apply_overrides(file_settings(), &patch).err().unwrap();
    assert_eq!(err.kind(), JrnlErrorKind::InvalidCoercion);
}

#[test]
fn template_false_means_no_template() {
    let settings = Settings {
        config: CommonConfig::default()
            .template(TemplateConfig::Path("/old.txt".to_owned()))
            .journal_config(JournalConfigs::Journals({
                let mut m = JournalMap::new();
                m.insert("d".to_owned(), JournalConfig::Standard("/d.txt".to_owned()));
                m
            })),
        ..Default::default()
    };
    let patch = collect_overrides(&words(&["template", "false"])).unwrap();
    let merged = apply_overrides(settings, &patch).unwrap();
    assert!(matches!(merged.template("d").unwrap(), TemplateConfig::Empty(false)));
}

#[test]
fn lowered_boolean_values() {
    assert_eq!(bool_from_lowered("true"), Some(true));
    assert_eq!(bool_from_lowered("1"), Some(true));
    assert_eq!(bool_from_lowered("false"), Some(false));
    assert_eq!(bool_from_lowered("0"), Some(false));
    assert_eq!(bool_from_lowered("TRUE"), None);
    assert_eq!(bool_from_lowered("yes"), None);
    assert_eq!(bool_from_lowered(""), None);
}
