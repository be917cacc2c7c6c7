use vstd::prelude::*;
use chrono::{Datelike, NaiveDateTime, Timelike};

use crate::error::{JrnlError, JrnlErrorKind};
use crate::text::{chars_of, contains_char, is_space, is_space_char};

verus! {

/// A moment on the calendar, to the second.
#[derive(Debug, Copy, Clone, PartialEq, Eq, Structural)]
pub struct EntryTime {
    pub year: i32,
    pub month: u32,
    pub day: u32,
    pub hour: u32,
    pub minute: u32,
    pub second: u32,
}

/// Whether `a` comes no later than `b`.
pub open spec fn time_le(a: EntryTime, b: EntryTime) -> bool {
    if a.year != b.year {
        a.year < b.year
    } else if a.month != b.month {
        a.month < b.month
    } else if a.day != b.day {
        a.day < b.day
    } else if a.hour != b.hour {
        a.hour < b.hour
    } else if a.minute != b.minute {
        a.minute < b.minute
    } else {
        a.second <= b.second
    }
}

pub fn time_le_exec(a: &EntryTime, b: &EntryTime) -> (r: bool)
    ensures
        r == time_le(*a, *b),
{
    if a.year != b.year {
        a.year < b.year
    } else if a.month != b.month {
        a.month < b.month
    } else if a.day != b.day {
        a.day < b.day
    } else if a.hour != b.hour {
        a.hour < b.hour
    } else if a.minute != b.minute {
        a.minute < b.minute
    } else {
        a.second <= b.second
    }
}

/// The moment that text `s` writes in strftime format `fmt`, as chrono reads
/// it, if it writes one.
pub uninterp spec fn parsed_time(s: Seq<char>, fmt: Seq<char>) -> Option<EntryTime>;

/// Relies on chrono's `NaiveDateTime::parse_from_str`: the moment read, or
/// none where the text does not fit the format; it depends on the two
/// strings alone.
#[verifier::external_body]
fn parse_time(s: &str, fmt: &str) -> (r: Option<EntryTime>)
    ensures
        r == parsed_time(s@, fmt@),
{
    match NaiveDateTime::parse_from_str(s, fmt) {
        Ok(t) => Some(
            EntryTime {
                year: t.year(),
                month: t.month(),
                day: t.day(),
                hour: t.hour(),
                minute: t.minute(),
                second: t.second(),
            },
        ),
        Err(_) => None,
    }
}

pub open spec fn is_blank(c: char) -> bool {
    c == ' ' || c == '\t'
}

/// The end of the run of blanks that starts at `i`.
pub open spec fn blanks_end(s: Seq<char>, i: int) -> int
    decreases s.len() - i,
{
    if 0 <= i < s.len() && is_blank(s[i]) {
        blanks_end(s, i + 1)
    } else {
        i
    }
}

/// The end of the run of whitespace that starts at `i`.
pub open spec fn spaces_end(s: Seq<char>, i: int) -> int
    decreases s.len() - i,
{
    if 0 <= i < s.len() && is_space(s[i]) {
        spaces_end(s, i + 1)
    } else {
        i
    }
}

/// The end of the run of non-whitespace that starts at `i`.
pub open spec fn word_end(s: Seq<char>, i: int) -> int
    decreases s.len() - i,
{
    if 0 <= i < s.len() && !is_space(s[i]) {
        word_end(s, i + 1)
    } else {
        i
    }
}

/// The index of the first `]` at or after `i`, or the length.
pub open spec fn close_at(s: Seq<char>, i: int) -> int
    decreases s.len() - i,
{
    if 0 <= i < s.len() && s[i] != ']' {
        close_at(s, i + 1)
    } else {
        i
    }
}

/// The start of the run of whitespace that ends at `j`.
pub open spec fn spaces_start(s: Seq<char>, j: int) -> int
    decreases j,
{
    if 0 < j <= s.len() && is_space(s[j - 1]) {
        spaces_start(s, j - 1)
    } else {
        j
    }
}

/// A record's first line: blanks, then `[`, a non-empty time without `]`,
/// `]`, whitespace, and the title, which runs to the end without a line
/// break. Gives the time and the title.
pub open spec fn title_line(s: Seq<char>) -> Option<(Seq<char>, Seq<char>)> {
    let b = blanks_end(s, 0);
    if b < s.len() && s[b] == '[' {
        let c = close_at(s, b + 1);
        if c < s.len() && c > b + 1 {
            let t = spaces_end(s, c + 1);
            if s.subrange(t, s.len() as int).contains('\n') {
                None
            } else {
                Some((s.subrange(b + 1, c), s.subrange(t, s.len() as int)))
            }
        } else {
            None
        }
    } else {
        None
    }
}

/// Text without its leading and trailing whitespace.
pub open spec fn trimmed(s: Seq<char>) -> Seq<char> {
    let a = spaces_end(s, 0);
    if a >= s.len() {
        Seq::empty()
    } else {
        s.subrange(a, spaces_start(s, s.len() as int))
    }
}

/// The words of `s` from index `i` on that begin with one of `syms`, in order,
/// repeats kept; a word is a maximal run of non-whitespace.
pub open spec fn tags_from(s: Seq<char>, syms: Seq<char>, i: int) -> Seq<Seq<char>>
    decreases s.len() - i,
{
    let a = spaces_end(s, i);
    if i < 0 || a >= s.len() {
        Seq::empty()
    } else {
        let b = word_end(s, a);
        if b <= i || b > s.len() {
            Seq::empty()
        } else if syms.contains(s[a]) {
            seq![s.subrange(a, b)] + tags_from(s, syms, b)
        } else {
            tags_from(s, syms, b)
        }
    }
}

/// The body lines of a record, each followed by a line break.
pub open spec fn body_of(lines: Seq<Seq<char>>) -> Seq<char>
    decreases lines.len(),
{
    if lines.len() == 0 {
        Seq::empty()
    } else {
        body_of(lines.drop_last()) + lines.last() + "\n"@
    }
}

fn blanks_end_exec(cs: &Vec<char>, i: usize) -> (r: usize)
    requires
        i <= cs@.len(),
    ensures
        r as int == blanks_end(cs@, i as int),
        i <= r <= cs@.len(),
        r < cs@.len() ==> !is_blank(cs@[r as int]),
{
    let mut j = i;
    while j < cs.len() && (cs[j] == ' ' || cs[j] == '\t')
        invariant
            i <= j <= cs@.len(),
            blanks_end(cs@, j as int) == blanks_end(cs@, i as int),
        decreases cs@.len() - j,
    {
        j = j + 1;
    }
    j
}

fn spaces_end_exec(cs: &Vec<char>, i: usize) -> (r: usize)
    requires
        i <= cs@.len(),
    ensures
        r as int == spaces_end(cs@, i as int),
        i <= r <= cs@.len(),
        r < cs@.len() ==> !is_space(cs@[r as int]),
{
    let mut j = i;
    while j < cs.len() && is_space_char(cs[j])
        invariant
            i <= j <= cs@.len(),
            spaces_end(cs@, j as int) == spaces_end(cs@, i as int),
        decreases cs@.len() - j,
    {
        j = j + 1;
    }
    j
}

fn word_end_exec(cs: &Vec<char>, i: usize) -> (r: usize)
    requires
        i <= cs@.len(),
    ensures
        r as int == word_end(cs@, i as int),
        i <= r <= cs@.len(),
        r < cs@.len() ==> is_space(cs@[r as int]),
{
    let mut j = i;
    while j < cs.len() && !is_space_char(cs[j])
        invariant
            i <= j <= cs@.len(),
            word_end(cs@, j as int) == word_end(cs@, i as int),
        decreases cs@.len() - j,
    {
        j = j + 1;
    }
    j
}

fn close_at_exec(cs: &Vec<char>, i: usize) -> (r: usize)
    requires
        i <= cs@.len(),
    ensures
        r as int == close_at(cs@, i as int),
        i <= r <= cs@.len(),
        r < cs@.len() ==> cs@[r as int] == ']',
{
    let mut j = i;
    while j < cs.len() && cs[j] != ']'
        invariant
            i <= j <= cs@.len(),
            close_at(cs@, j as int) == close_at(cs@, i as int),
        decreases cs@.len() - j,
    {
        j = j + 1;
    }
    j
}

fn spaces_start_exec(cs: &Vec<char>, j: usize) -> (r: usize)
    requires
        j <= cs@.len(),
    ensures
        r as int == spaces_start(cs@, j as int),
        r <= j,
{
    let mut k = j;
    while k > 0 && is_space_char(cs[k - 1])
        invariant
            k <= j <= cs@.len(),
            spaces_start(cs@, k as int) == spaces_start(cs@, j as int),
        decreases k,
    {
        k = k - 1;
    }
    k
}

/// Splits a record's first line into its time and its title.
pub fn split_title_line(line: &str) -> (r: Option<(String, String)>)
    ensures
        match r {
            Some((t, title)) => title_line(line@) == Some((t@, title@)),
            None => title_line(line@) is None,
        },
{
    let cs = chars_of(line);
    let n = cs.len();
    let b = blanks_end_exec(&cs, 0);
    if b >= n || cs[b] != '[' {
        return None;
    }
    let c = close_at_exec(&cs, b + 1);
    if c >= n || c <= b + 1 {
        return None;
    }
    let t = spaces_end_exec(&cs, c + 1);
    let mut k = t;
    while k < n
        invariant
            t <= k <= n,
            n == cs@.len(),
            cs@ == line@,
            b as int == blanks_end(line@, 0),
            b < n && cs@[b as int] == '[',
            c as int == close_at(line@, b + 1),
            b + 1 < c < n,
            t as int == spaces_end(line@, c + 1),
            forall|j: int| t <= j < k ==> cs@[j] != '\n',
        decreases n - k,
    {
        if cs[k] == '\n' {
            assert(cs@.subrange(t as int, n as int)[k - t] == '\n');
            return None;
        }
        k = k + 1;
    }
    assert(!cs@.subrange(t as int, n as int).contains('\n')) by {
        if cs@.subrange(t as int, n as int).contains('\n') {
            let j = choose|j: int| 0 <= j < n - t && cs@.subrange(t as int, n as int)[j] == '\n';
            assert(cs@[t + j] == '\n');
        }
    }
    let time = String::from_str(line.substring_char(b + 1, c));
    let title = String::from_str(line.substring_char(t, n));
    Some((time, title))
}

/// `s` without its leading and trailing whitespace.
pub fn trim_text(s: &str) -> (r: String)
    ensures
        r@ == trimmed(s@),
{
    let cs = chars_of(s);
    let n = cs.len();
    let a = spaces_end_exec(&cs, 0);
    if a >= n {
        return String::new();
    }
    let e = spaces_start_exec(&cs, n);
    proof {
        lemma_spaces_start_after(cs@, a as int, n as int);
    }
    String::from_str(s.substring_char(a, e))
}

/// Where the first non-whitespace character stands before `j`, the run of
/// whitespace that ends at `j` starts after it.
proof fn lemma_spaces_start_after(s: Seq<char>, a: int, j: int)
    requires
        0 <= a < j <= s.len(),
        !is_space(s[a]),
    ensures
        a < spaces_start(s, j) <= j,
    decreases j,
{
    if is_space(s[j - 1]) {
        lemma_spaces_start_after(s, a, j - 1);
    }
}

/// The words of `s` that begin with one of `syms`, in order, repeats kept.
pub fn collect_tags(s: &str, syms: &str) -> (r: Vec<String>)
    ensures
        r@.map_values(|w: String| w@) == tags_from(s@, syms@, 0),
{
    let cs = chars_of(s);
    let n = cs.len();
    let mut out: Vec<String> = Vec::new();
    let mut i: usize = 0;
    while i < n
        invariant
            cs@ == s@,
            n == cs@.len(),
            i <= n,
            out@.map_values(|w: String| w@) + tags_from(s@, syms@, i as int) == tags_from(s@, syms@, 0),
        ensures
            out@.map_values(|w: String| w@) + tags_from(s@, syms@, i as int) == tags_from(s@, syms@, 0),
            tags_from(s@, syms@, i as int) =~= Seq::<Seq<char>>::empty(),
        decreases n - i,
    {
        let a = spaces_end_exec(&cs, i);
        if a >= n {
            assert(tags_from(s@, syms@, i as int) =~= Seq::<Seq<char>>::empty());
            assert(out@.map_values(|w: String| w@) =~= out@.map_values(|w: String| w@) + Seq::<Seq<char>>::empty());
            break;
        }
        let b = word_end_exec(&cs, a);
        assert(b > a) by {
            assert(!is_space(cs@[a as int]));
        }
        let ghost before = out@.map_values(|w: String| w@);
        if contains_char(syms, cs[a]) {
            let w = String::from_str(s.substring_char(a, b));
            out.push(w);
            assert(out@.map_values(|w: String| w@) =~= before + seq![s@.subrange(a as int, b as int)]);
            assert(tags_from(s@, syms@, i as int) == seq![s@.subrange(a as int, b as int)] + tags_from(s@, syms@, b as int));
            assert(before + tags_from(s@, syms@, i as int) =~= out@.map_values(|w: String| w@) + tags_from(s@, syms@, b as int));
        } else {
            assert(tags_from(s@, syms@, i as int) == tags_from(s@, syms@, b as int));
        }
        i = b;
    }
    assert(out@.map_values(|w: String| w@) =~= out@.map_values(|w: String| w@) + tags_from(s@, syms@, i as int));
    out
}

/// One record of a journal.
#[derive(Debug)]
pub struct Entry {
    pub time: EntryTime,
    pub title: String,
    pub text: String,
    pub tags: Vec<String>,
    pub starred: bool,
}

/// The mathematical form of a record.
pub struct EntryView {
    pub time: EntryTime,
    pub title: Seq<char>,
    pub text: Seq<char>,
    pub tags: Seq<Seq<char>>,
    pub starred: bool,
}

impl View for Entry {
    type V = EntryView;

    open spec fn view(&self) -> EntryView {
        EntryView {
            time: self.time,
            title: self.title@,
            text: self.text@,
            tags: self.tags@.map_values(|w: String| w@),
            starred: self.starred,
        }
    }
}

/// The record that `lines` make, with times read in format `fmt` and tags
/// marked by `syms`: the first line gives time and title, the rest, trimmed,
/// the text.
pub open spec fn parse_spec(lines: Seq<Seq<char>>, fmt: Seq<char>, syms: Seq<char>) -> Result<EntryView, JrnlErrorKind> {
    if lines.len() == 0 {
        Err(JrnlErrorKind::EmptyEntry)
    } else {
        match title_line(lines[0]) {
            None => Err(JrnlErrorKind::InvalidTitleLine),
            Some((ts, title)) => match parsed_time(ts, fmt) {
                None => Err(JrnlErrorKind::InvalidTitleLine),
                Some(time) => {
                    let text = trimmed(body_of(lines.skip(1)));
                    Ok(
                        EntryView {
                            time,
                            title,
                            text,
                            tags: tags_from(text, syms, 0),
                            starred: title.contains('*'),
                        },
                    )
                },
            },
        }
    }
}

pub open spec fn lines_view(lines: Seq<&str>) -> Seq<Seq<char>> {
    lines.map_values(|l: &str| l@)
}

fn body_text(raw_text: &[&str]) -> (r: String)
    requires
        raw_text@.len() > 0,
    ensures
        r@ == body_of(lines_view(raw_text@).skip(1)),
{
    let ghost ls = lines_view(raw_text@);
    let mut body = String::new();
    let mut i: usize = 1;
    proof {
        assert(ls.subrange(1, 1) =~= Seq::<Seq<char>>::empty());
        reveal_strlit("\n");
    }
    while i < raw_text.len()
        invariant
            ls == lines_view(raw_text@),
            1 <= i <= raw_text@.len(),
            body@ == body_of(ls.subrange(1, i as int)),
        decreases raw_text@.len() - i,
    {
        body.append(raw_text[i]);
        body.append("\n");
        proof {
            assert(ls.subrange(1, i + 1).drop_last() =~= ls.subrange(1, i as int));
            assert(ls.subrange(1, i + 1).last() == raw_text@[i as int]@);
        }
        i = i + 1;
    }
    assert(ls.subrange(1, i as int) =~= ls.skip(1));
    body
}

impl Entry {
    /// Reads one record, with times in format `timeformat` and tags marked by
    /// the characters of `tagsymbols`.
    pub fn parse_with(raw_text: &[&str], timeformat: &str, tagsymbols: &str) -> (r: Result<Entry, JrnlError>)
        ensures
            match r {
                Ok(e) => parse_spec(lines_view(raw_text@), timeformat@, tagsymbols@) == Ok::<EntryView, JrnlErrorKind>(e@),
                Err(k) => parse_spec(lines_view(raw_text@), timeformat@, tagsymbols@) == Err::<EntryView, JrnlErrorKind>(k.0),
            },
    {
        if raw_text.len() == 0 {
            return Err(JrnlError(JrnlErrorKind::EmptyEntry));
        }
        let (time_str, title) = match split_title_line(raw_text[0]) {
            Some(x) => x,
            None => return Err(JrnlError(JrnlErrorKind::InvalidTitleLine)),
        };
        let starred = contains_char(title.as_str(), '*');
        let body = body_text(raw_text);
        let text = trim_text(body.as_str());
        let tags = collect_tags(text.as_str(), tagsymbols);
        let time = match parse_time(time_str.as_str(), timeformat) {
            Some(t) => t,
            None => return Err(JrnlError(JrnlErrorKind::InvalidTitleLine)),
        };
        Ok(Entry { time, title, text, tags, starred })
    }

    /// Reads one record with the compiled-in time format `%F %r` and tag
    /// symbols `#@`.
    pub fn parse(raw_text: &[&str]) -> (r: Result<Entry, JrnlError>)
        ensures
            match r {
                Ok(e) => parse_spec(lines_view(raw_text@), "%F %r"@, "#@"@) == Ok::<EntryView, JrnlErrorKind>(e@),
                Err(k) => parse_spec(lines_view(raw_text@), "%F %r"@, "#@"@) == Err::<EntryView, JrnlErrorKind>(k.0),
            },
    {
        Entry::parse_with(raw_text, "%F %r", "#@")
    }
}

/// The end of the record whose first line is just before `j`: the lines
/// from `j` on up to the next record header belong to it.
pub open spec fn group_end(lines: Seq<Seq<char>>, j: int) -> int
    decreases lines.len() - j,
{
    if 0 <= j < lines.len() && title_line(lines[j]) is None {
        group_end(lines, j + 1)
    } else {
        j
    }
}

/// The next record that reads from line `pos` on, and the line after it;
/// records that do not read are skipped.
pub open spec fn next_record(lines: Seq<Seq<char>>, pos: int, fmt: Seq<char>, syms: Seq<char>) -> (Option<EntryView>, int)
    decreases lines.len() - pos,
{
    if pos < 0 || pos >= lines.len() {
        (None, pos)
    } else {
        let e = group_end(lines, pos + 1);
        if e <= pos || e > lines.len() {
            (None, pos)
        } else {
            match parse_spec(lines.subrange(pos, e), fmt, syms) {
                Ok(v) => (Some(v), e),
                Err(_) => next_record(lines, e, fmt, syms),
            }
        }
    }
}

/// Every record that reads from line `pos` on, in the order of the lines.
pub open spec fn records_from(lines: Seq<Seq<char>>, pos: int, fmt: Seq<char>, syms: Seq<char>) -> Seq<EntryView>
    decreases lines.len() - pos,
{
    let (v, e) = next_record(lines, pos, fmt, syms);
    if v is Some && pos < e <= lines.len() {
        seq![v->Some_0] + records_from(lines, e, fmt, syms)
    } else {
        Seq::empty()
    }
}

proof fn lemma_group_end_bounds(lines: Seq<Seq<char>>, j: int)
    requires
        0 <= j <= lines.len(),
    ensures
        j <= group_end(lines, j) <= lines.len(),
    decreases lines.len() - j,
{
    if j < lines.len() && title_line(lines[j]) is None {
        lemma_group_end_bounds(lines, j + 1);
    }
}

pub(crate) proof fn lemma_next_record_bounds(lines: Seq<Seq<char>>, pos: int, fmt: Seq<char>, syms: Seq<char>)
    requires
        0 <= pos <= lines.len(),
    ensures
        next_record(lines, pos, fmt, syms).0 is Some ==> pos < next_record(lines, pos, fmt, syms).1 <= lines.len(),
        next_record(lines, pos, fmt, syms).0 is None ==> next_record(lines, pos, fmt, syms).1 <= lines.len(),
    decreases lines.len() - pos,
{
    if pos < lines.len() {
        lemma_group_end_bounds(lines, pos + 1);
        let e = group_end(lines, pos + 1);
        if parse_spec(lines.subrange(pos, e), fmt, syms) is Err {
            lemma_next_record_bounds(lines, e, fmt, syms);
        }
    }
}

/// The records of a journal's lines, read one at a time.
pub struct Entries {
    pub lines: Vec<String>,
    pub pos: usize,
    pub timeformat: String,
    pub tagsymbols: String,
}

pub open spec fn strings_view(v: Seq<String>) -> Seq<Seq<char>> {
    v.map_values(|s: String| s@)
}

/// The records of `lines`, with times in format `timeformat` and tags
/// marked by the characters of `tagsymbols`.
pub fn entries_with(lines: Vec<String>, timeformat: &str, tagsymbols: &str) -> (r: Entries)
    ensures
        r.lines@ == lines@,
        r.pos == 0,
        r.timeformat@ == timeformat@,
        r.tagsymbols@ == tagsymbols@,
{
    Entries { lines, pos: 0, timeformat: String::from_str(timeformat), tagsymbols: String::from_str(tagsymbols) }
}

/// The records of `lines`, with the compiled-in time format `%F %r` and tag
/// symbols `#@`.
pub fn entries(lines: Vec<String>) -> (r: Entries)
    ensures
        r.lines@ == lines@,
        r.pos == 0,
        r.timeformat@ == "%F %r"@,
        r.tagsymbols@ == "#@"@,
{
    entries_with(lines, "%F %r", "#@")
}

impl Entries {
    /// The next record that reads; records that do not are skipped.
    pub fn next(&mut self) -> (r: Option<Entry>)
        ensures
            final(self).lines == old(self).lines,
            final(self).timeformat == old(self).timeformat,
            final(self).tagsymbols == old(self).tagsymbols,
            (match r {
                Some(e) => Some(e@),
                None => None,
            }, final(self).pos as int) == next_record(
                strings_view(old(self).lines@),
                old(self).pos as int,
                old(self).timeformat@,
                old(self).tagsymbols@,
            ),
    {
        let ghost ls = strings_view(self.lines@);
        let ghost start_pos = self.pos as int;
        let n = self.lines.len();
        if self.pos >= n {
            return None;
        }
        while self.pos < n
            invariant
                ls == strings_view(self.lines@),
                n == self.lines@.len(),
                self.pos <= n,
                self.lines == old(self).lines,
                self.timeformat == old(self).timeformat,
                self.tagsymbols == old(self).tagsymbols,
                start_pos == old(self).pos,
                next_record(ls, self.pos as int, self.timeformat@, self.tagsymbols@)
                    == next_record(ls, start_pos, self.timeformat@, self.tagsymbols@),
            decreases n - self.pos,
        {
            let start = self.pos;
            let mut j = start + 1;
            while j < n && split_title_line(self.lines[j].as_str()).is_none()
                invariant
                    ls == strings_view(self.lines@),
                    n == self.lines@.len(),
                    start < j <= n,
                    group_end(ls, j as int) == group_end(ls, start + 1),
                decreases n - j,
            {
                j = j + 1;
            }
            let mut group: Vec<&str> = Vec::new();
            let mut k = start;
            while k < j
                invariant
                    ls == strings_view(self.lines@),
                    n == self.lines@.len(),
                    start <= k <= j <= n,
                    group@.len() == k - start,
                    forall|i: int| 0 <= i < group@.len() ==> (#[trigger] group@[i])@ == ls[start + i],
                decreases j - k,
            {
                group.push(self.lines[k].as_str());
                k = k + 1;
            }
            assert(lines_view(group@) =~= ls.subrange(start as int, j as int));
            let parsed = Entry::parse_with(group.as_slice(), self.timeformat.as_str(), self.tagsymbols.as_str());
            self.pos = j;
            match parsed {
                Ok(e) => {
                    return Some(e);
                },
                Err(_) => {},
            }
        }
        None
    }
}

/// Lines whose first line is no record header, and where no later line is
/// one either, yield no record at all.
pub proof fn lemma_headless_lines_yield_nothing(lines: Seq<Seq<char>>, fmt: Seq<char>, syms: Seq<char>)
    requires
        lines.len() > 0,
        title_line(lines[0]) is None,
        forall|i: int| 1 <= i < lines.len() ==> title_line(#[trigger] lines[i]) is None,
    ensures
        parse_spec(lines, fmt, syms) == Err::<EntryView, JrnlErrorKind>(JrnlErrorKind::InvalidTitleLine),
        records_from(lines, 0, fmt, syms) =~= Seq::<EntryView>::empty(),
{
    assert forall|j: int| 1 <= j <= lines.len() implies group_end(lines, j) == lines.len() by {
        lemma_group_end_to_last(lines, j);
    }
    assert(lines.subrange(0, lines.len() as int) =~= lines);
    assert(next_record(lines, lines.len() as int, fmt, syms).0 is None);
}

proof fn lemma_group_end_to_last(lines: Seq<Seq<char>>, j: int)
    requires
        1 <= j <= lines.len(),
        forall|i: int| 1 <= i < lines.len() ==> title_line(#[trigger] lines[i]) is None,
    ensures
        group_end(lines, j) == lines.len(),
    decreases lines.len() - j,
{
    if j < lines.len() {
        lemma_group_end_to_last(lines, j + 1);
    }
}

/// A record is starred exactly when its title holds `*`, and its tags are
/// the words of its text that begin with a tag symbol.
pub proof fn lemma_star_and_tags(lines: Seq<Seq<char>>, fmt: Seq<char>, syms: Seq<char>)
    requires
        parse_spec(lines, fmt, syms) is Ok,
    ensures
        parse_spec(lines, fmt, syms)->Ok_0.starred == parse_spec(lines, fmt, syms)->Ok_0.title.contains('*'),
        parse_spec(lines, fmt, syms)->Ok_0.tags == tags_from(parse_spec(lines, fmt, syms)->Ok_0.text, syms, 0),
{
}

} // verus!
