use jrnl::entry::{entries, entries_with, Entry, EntryTime};
use jrnl::error::JrnlErrorKind;
use jrnl::journal::Journal;
use jrnl::list::list_plain_lines;
use jrnl::settings::{CommonConfig, JournalConfig, JournalConfigs, JournalMap, Settings};

fn lines(v: &[&str]) -> Vec<String> {
    v.iter().map(|s| s.to_string()).collect()
}

#[test]
fn test_parse() {
    let lines = [
        "[2023-01-12 08:51:57 AM] Test entry.",
        "This is a test entry",
    ];
    let expected_time = EntryTime {
        year: 2023,
        month: 01,
        day: 12,
        hour: 8,
        minute: 51,
        second: 57,
    };
    let entry = Entry::parse(&lines).unwrap();
    assert_eq!(entry.time, expected_time);
    assert_eq!(entry.title, "Test entry.".to_owned());
    assert_eq!(entry.text, "This is a test entry".to_owned());
    assert_eq!(entry.tags, Vec::<String>::new());
    assert!(!entry.starred);
}

#[test]
fn pm_time_and_tags_and_star() {
    let raw = [
        "  [2023-01-12 08:51:57 PM]   Big day *",
        "",
        "  Worked on #work with @ann and #work again ",
        "",
    ];
    let e = Entry::parse(&raw).unwrap();
    assert_eq!(e.time.hour, 20);
    assert_eq!(e.title, "Big day *");
    assert!(e.starred);
    assert_eq!(e.text, "Worked on #work with @ann and #work again");
    assert_eq!(e.tags, vec!["#work".to_owned(), "@ann".to_owned(), "#work".to_owned()]);
}

#[test]
fn body_token_becomes_tag() {
    let e = Entry::parse(&["[2023-01-12 08:51:57 AM] t", "#work"]).unwrap();
    assert_eq!(e.tags, vec!["#work".to_owned()]);
}

#[test]
fn parse_errors() {
    let empty: [&str; 0] = [];
    assert_eq!(Entry::parse(&empty).unwrap_err().kind(), JrnlErrorKind::EmptyEntry);
    assert_eq!(
        Entry::parse(&["no header here"]).unwrap_err().kind(),
        JrnlErrorKind::InvalidTitleLine
    );
    assert_eq!(
        Entry::parse(&["[] empty time"]).unwrap_err().kind(),
        JrnlErrorKind::InvalidTitleLine
    );
    assert_eq!(
        Entry::parse(&["[not a time] title"]).unwrap_err().kind(),
        JrnlErrorKind::InvalidTitleLine
    );
}

#[test]
fn custom_format_and_symbols() {
    let e = Entry::parse_with(&["[2020-02-03 04:05] hi", "%x #y"], "%Y-%m-%d %H:%M", "%").unwrap();
    assert_eq!(
        e.time,
        EntryTime { year: 2020, month: 2, day: 3, hour: 4, minute: 5, second: 0 }
    );
    assert_eq!(e.tags, vec!["%x".to_owned()]);
}

#[test]
fn headless_first_line_yields_nothing() {
    let mut it = entries(lines(&["just text", "more text"]));
    assert!(it.next().is_none());
}

#[test]
fn failed_record_is_skipped() {
    let mut it = entries(lines(&[
        "[garbage] one",
        "body one",
        "[2023-01-12 08:51:57 AM] two",
        "body two",
    ]));
    let e = it.next().unwrap();
    assert_eq!(e.title, "two");
    assert_eq!(e.text, "body two");
    assert!(it.next().is_none());
}

#[test]
fn journal_sorts_by_time() {
    let j = Journal::from_lines(
        "default",
        lines(&[
            "[2023-01-12 08:51:57 AM] later",
            "[2021-05-01 01:00:00 PM] earliest",
            "[2023-01-12 08:51:56 AM] middle",
        ]),
    );
    assert_eq!(j.name, "default");
    let titles: Vec<&str> = j.entries.iter().map(|e| e.title.as_str()).collect();
    assert_eq!(titles, vec!["earliest", "middle", "later"]);
}

#[test]
fn plain_listing_lines() {
    let mut map = JournalMap::new();
    map.insert("default".to_owned(), JournalConfig::Standard("/d.txt".to_owned()));
    map.insert(
        "work".to_owned(),
        JournalConfig::Override(
            CommonConfig::default().journal_config(JournalConfigs::Journal("/w.txt".to_owned())),
        ),
    );
    let settings = Settings {
        config: CommonConfig::default().journal_config(JournalConfigs::Journals(map)),
        ..Default::default()
    };
    let out = list_plain_lines(&settings, "/c.yaml").unwrap();
    assert_eq!(
        out,
        vec![
            "Journals defined in config (/c.yaml)".to_owned(),
            " * default -> /d.txt".to_owned(),
            " * work -> /w.txt".to_owned(),
        ]
    );
}

#[test]
fn bracket_line_that_is_no_header_stays_in_the_body() {
    let mut it = entries(lines(&["[2023-01-12 08:51:57 AM] a", "[b"]));
    let e = it.next().unwrap();
    assert_eq!(e.title, "a");
    assert_eq!(e.text, "[b");
    assert!(it.next().is_none());
}

#[test]
fn indented_header_starts_a_new_record() {
    let mut it = entries(lines(&[
        "[2023-01-12 08:51:57 AM] first",
        "body",
        "  [2023-01-13 09:00:00 AM] second",
        "more",
    ]));
    let a = it.next().unwrap();
    assert_eq!(a.title, "first");
    assert_eq!(a.text, "body");
    let b = it.next().unwrap();
    assert_eq!(b.title, "second");
    assert_eq!(b.text, "more");
    assert!(it.next().is_none());
}

#[test]
fn entries_with_configured_format_and_symbols() {
    let mut it = entries_with(lines(&["[2020-02-03 04:05] hi", "%x #y"]), "%Y-%m-%d %H:%M", "%");
    let e = it.next().unwrap();
    assert_eq!(e.time.minute, 5);
    assert_eq!(e.tags, vec!["%x".to_owned()]);
    assert!(it.next().is_none());
}

#[test]
fn equal_times_keep_their_order() {
    let j = Journal::from_lines(
        "default",
        lines(&[
            "[2023-01-12 08:51:57 AM] second-time first",
            "[2023-01-12 08:51:57 AM] second-time second",
            "[2021-01-01 01:00:00 AM] first-time",
            "[2023-01-12 08:51:57 AM] second-time third",
        ]),
    );
    let titles: Vec<&str> = j.entries.iter().map(|e| e.title.as_str()).collect();
    assert_eq!(
        titles,
        vec!["first-time", "second-time first", "second-time second", "second-time third"]
    );
}

#[test]
fn journal_with_configured_format() {
    let j = Journal::from_lines_with(
        "work",
        lines(&["[2020-02-03 04:05] late", "[2020-02-03 04:01] early"]),
        "%Y-%m-%d %H:%M",
        "#@",
    );
    let titles: Vec<&str> = j.entries.iter().map(|e| e.title.as_str()).collect();
    assert_eq!(titles, vec!["early", "late"]);
}
