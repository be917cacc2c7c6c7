use vstd::prelude::*;

use crate::error::{JrnlError, JrnlErrorKind};
use crate::settings::{
    entry_file, journal_entries, journal_names, JournalConfigs, JournalMap, Settings,
};

verus! {

/// The first line of a plain listing.
pub open spec fn listing_header(config_file: Seq<char>) -> Seq<char> {
    "Journals defined in config ("@ + config_file + ")"@
}

/// The line of a plain listing for one journal.
pub open spec fn listing_line(name: Seq<char>, file: Seq<char>) -> Seq<char> {
    " * "@ + name + " -> "@ + file
}

/// Whether `line` lists the `i`-th journal of `m` with its file.
pub open spec fn lists_journal(m: JournalMap, i: int, line: Seq<char>) -> bool {
    match entry_file(journal_entries(m)[journal_names(m)[i]]) {
        Some(f) => line == listing_line(journal_names(m)[i], f),
        None => false,
    }
}

/// Whether some root journal of `s` names no file.
pub open spec fn has_fileless_journal(s: Settings) -> bool {
    match s.config.journal_config {
        Some(JournalConfigs::Journals(m)) => exists|i: int|
            0 <= i < journal_names(m).len() && entry_file(
                journal_entries(m)[#[trigger] journal_names(m)[i]],
            ) is None,
        _ => false,
    }
}

/// Whether `lines` list the root journals of `s` in plain text: a header,
/// then one line per journal, in the map's order.
pub open spec fn is_listing(s: Settings, config_file: Seq<char>, lines: Seq<Seq<char>>) -> bool {
    &&& lines.len() > 0
    &&& lines[0] == listing_header(config_file)
    &&& match s.config.journal_config {
        Some(JournalConfigs::Journals(m)) => {
            &&& lines.len() == journal_names(m).len() + 1
            &&& forall|i: int|
                0 <= i < journal_names(m).len() ==> lists_journal(m, i, #[trigger] lines[i + 1])
        },
        _ => lines.len() == 1,
    }
}

/// Lists the root journals of `settings` with their files, for reading; fails
/// where a journal names no file.
pub fn list_plain_lines(settings: &Settings, config_file: &str) -> (r: Result<Vec<String>, JrnlError>)
    ensures
        match r {
            Ok(lines) => is_listing(*settings, config_file@, lines@.map_values(|l: String| l@)),
            Err(e) => e.0 == JrnlErrorKind::InvalidJrnlOverrideConfig && has_fileless_journal(*settings),
        },
{
    let mut header = String::from_str("Journals defined in config (");
    header.append(config_file);
    header.append(")");
    let mut out: Vec<String> = Vec::new();
    out.push(header);
    match &settings.config.journal_config {
        Some(JournalConfigs::Journals(map)) => {
            let names = map.names();
            let mut i: usize = 0;
            while i < names.len()
                invariant
                    settings.config.journal_config == Some(JournalConfigs::Journals(*map)),
                    names@.map_values(|s: String| s@) == journal_names(*map),
                    forall|j: int| 0 <= j < names@.len() ==> journal_entries(*map).contains_key(#[trigger] names@[j]@),
                    i <= names@.len(),
                    out@.len() == i + 1,
                    out@[0]@ == listing_header(config_file@),
                    forall|j: int|
                        0 <= j < i ==> lists_journal(*map, j, #[trigger] out@[j + 1]@),
                decreases names@.len() - i,
            {
                assert(names@.map_values(|s: String| s@)[i as int] == names@[i as int]@);
                let cfg = map.get(names[i].as_str());
                let cfg = match cfg {
                    Some(c) => c,
                    None => {
                        return Err(JrnlError(JrnlErrorKind::InvalidJrnlOverrideConfig));
                    },
                };
                let file = match cfg.journal_file() {
                    Ok(f) => f,
                    Err(e) => {
                        assert(journal_names(*map)[i as int] == names@[i as int]@);
                        assert(entry_file(journal_entries(*map)[journal_names(*map)[i as int]]) is None);
                        return Err(e);
                    },
                };
                let mut line = String::from_str(" * ");
                line.append(names[i].as_str());
                line.append(" -> ");
                line.append(file);
                out.push(line);
                i = i + 1;
            }
        },
        _ => {},
    }
    proof {
        let v = out@.map_values(|l: String| l@);
        assert(v[0] == listing_header(config_file@));
    }
    Ok(out)
}

} // verus!
