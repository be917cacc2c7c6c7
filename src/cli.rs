use vstd::prelude::*;

use crate::error::{JrnlError, JrnlErrorKind};
use crate::settings::{
    journal_entries, ColorConfig, CommonConfig, DisplayConfig, JournalConfig, JournalConfigs,
    JournalMap, LineWrapConfig, Settings, TemplateConfig, TextColor,
};
use crate::text::{chars_of, has_prefix, starts_with, str_eq, tail_from};

verus! {

/// What the command line asked for: a subcommand, the journal, the words of a
/// new entry, search and display options, key-value overrides of the
/// configuration (a flat list, key then value) and the configuration file.
pub struct Cli {
    pub command: Option<Commands>,
    pub journal: Option<String>,
    pub entry: Vec<String>,
    pub search: SearchOptions,
    pub config_override: Vec<String>,
    pub config_file: Option<String>,
}

/// Filters and actions on the selected entries.
pub struct SearchOptions {
    pub on: Option<String>,
    pub today_in_history: Option<bool>,
    pub month: Option<String>,
    pub day: Option<String>,
    pub year: Option<String>,
    pub from: Option<String>,
    pub to: Option<String>,
    pub contains: Option<String>,
    pub and: Option<bool>,
    pub starred: Option<bool>,
    pub tagged: Option<bool>,
    pub n: Option<u32>,
    pub not: Option<String>,
    pub edit: Option<bool>,
    pub delete: Option<bool>,
    pub change_time: Option<String>,
    pub format: Option<DisplayConfig>,
    pub file: Option<String>,
    pub tags: Option<bool>,
    pub short: Option<bool>,
}

/// A display format with the file to write it to.
pub struct FormatArgs {
    pub format: DisplayConfig,
    pub file: String,
}

/// The subcommands.
pub enum Commands {
    List(ListArgs),
    Encrypt,
    Decrypt,
    Import(ImportArgs),
}

pub struct ListArgs {
    pub format: Option<ListFormat>,
}

#[derive(Debug, Copy, Clone, PartialEq, Eq, Structural)]
pub enum ListFormat {
    Json,
    Yaml,
}

pub struct ImportArgs {
    pub file: String,
    pub format: ImportFormat,
}

#[derive(Debug, Copy, Clone, PartialEq, Eq, Structural)]
pub enum ImportFormat {
    Jrnl,
}

/// The lowercase form of a string, as `str::to_lowercase` gives it.
pub uninterp spec fn lower_of(s: Seq<char>) -> Seq<char>;

/// Relies on `str::to_lowercase`: the lowercase form depends on the
/// characters alone.
#[verifier::external_body]
fn lowercase(s: &str) -> (r: String)
    ensures
        r@ == lower_of(s@),
{
    s.to_lowercase()
}

/// The boolean that lowercase text writes: `true` or `1`, `false` or `0`.
pub open spec fn lowered_bool(l: Seq<char>) -> Option<bool> {
    if l == "false"@ || l == "0"@ {
        Some(false)
    } else if l == "true"@ || l == "1"@ {
        Some(true)
    } else {
        None
    }
}

/// A boolean written `true`/`1` or `false`/`0`, in any case.
pub open spec fn bool_of(v: Seq<char>) -> Option<bool> {
    lowered_bool(lower_of(v))
}

/// Reads the boolean that already-lowercased text writes.
pub fn bool_from_lowered(l: &str) -> (r: Option<bool>)
    ensures
        r == lowered_bool(l@),
{
    if str_eq(l, "false") || str_eq(l, "0") {
        Some(false)
    } else if str_eq(l, "true") || str_eq(l, "1") {
        Some(true)
    } else {
        None
    }
}

pub open spec fn is_digit(c: char) -> bool {
    '0' <= c && c <= '9'
}

pub open spec fn digit_value(c: char) -> int {
    (c as u32) as int - 48
}

/// A non-empty run of decimal digits.
pub open spec fn all_digits(s: Seq<char>) -> bool {
    s.len() > 0 && forall|i: int| 0 <= i < s.len() ==> is_digit(#[trigger] s[i])
}

/// The number that a run of decimal digits writes.
pub open spec fn digits_value(s: Seq<char>) -> int
    decreases s.len(),
{
    if s.len() == 0 {
        0
    } else {
        10 * digits_value(s.drop_last()) + digit_value(s.last())
    }
}

/// A 64-bit signed integer in decimal: an optional sign and at least one
/// digit, in range.
pub open spec fn int_of(s: Seq<char>) -> Option<int> {
    if s.len() > 0 && s[0] == '-' {
        if all_digits(s.skip(1)) && digits_value(s.skip(1)) <= 9223372036854775808 {
            Some(-digits_value(s.skip(1)))
        } else {
            None
        }
    } else {
        let d = if s.len() > 0 && s[0] == '+' {
            s.skip(1)
        } else {
            s
        };
        if all_digits(d) && digits_value(d) <= 9223372036854775807 {
            Some(digits_value(d))
        } else {
            None
        }
    }
}

/// Reads a 64-bit signed integer written in decimal.
pub fn parse_i64(s: &str) -> (r: Option<i64>)
    ensures
        match r {
            Some(v) => int_of(s@) == Some(v as int),
            None => int_of(s@) is None,
        },
{
    let cs = chars_of(s);
    let n = cs.len();
    let mut start: usize = 0;
    let mut neg = false;
    if n > 0 && cs[0] == '-' {
        neg = true;
        start = 1;
    } else if n > 0 && cs[0] == '+' {
        start = 1;
    }
    let ghost d = cs@.skip(start as int);
    proof {
        if start == 0 {
            assert(d =~= cs@);
        }
    }
    if start >= n {
        assert(d.len() == 0 && !all_digits(d));
        return None;
    }
    let bound: u128 = if neg {
        9223372036854775808
    } else {
        9223372036854775807
    };
    assert(all_digits(d) && digits_value(d) <= bound ==> int_of(s@) == Some(
        if neg {
            -digits_value(d)
        } else {
            digits_value(d)
        },
    ));
    assert(!(all_digits(d) && digits_value(d) <= bound) ==> int_of(s@) is None);
    let mut acc: u128 = 0;
    let mut over = false;
    let mut i: usize = start;
    while i < n
        invariant
            cs@ == s@,
            n == cs@.len(),
            start <= i <= n,
            d == cs@.skip(start as int),
            bound <= 9223372036854775808,
            neg ==> bound == 9223372036854775808,
            !neg ==> bound == 9223372036854775807,
            all_digits(d) && digits_value(d) <= bound ==> int_of(s@) == Some(
                if neg {
                    -digits_value(d)
                } else {
                    digits_value(d)
                },
            ),
            !(all_digits(d) && digits_value(d) <= bound) ==> int_of(s@) is None,
            forall|j: int| start <= j < i ==> is_digit(#[trigger] cs@[j]),
            !over ==> acc == digits_value(cs@.subrange(start as int, i as int)) && acc <= bound,
            over ==> digits_value(cs@.subrange(start as int, i as int)) > bound,
        decreases n - i,
    {
        let c = cs[i];
        if !('0' <= c && c <= '9') {
            assert(d[i - start] == c);
            assert(!all_digits(d));
            return None;
        }
        let dv = (c as u32 - '0' as u32) as u128;
        proof {
            assert(cs@.subrange(start as int, i + 1).drop_last() =~= cs@.subrange(start as int, i as int));
            assert(cs@.subrange(start as int, i + 1).last() == c);
        }
        if !over {
            let next = acc * 10 + dv;
            if next > bound {
                over = true;
            } else {
                acc = next;
            }
        }
        i = i + 1;
    }
    proof {
        assert(cs@.subrange(start as int, n as int) =~= d);
        assert forall|j: int| 0 <= j < d.len() implies is_digit(#[trigger] d[j]) by {
            assert(d[j] == cs@[start + j]);
        }
    }
    if over {
        assert(!(digits_value(d) <= bound));
        return None;
    }
    assert(all_digits(d));
    if neg {
        Some((0i128 - acc as i128) as i64)
    } else {
        Some(acc as i64)
    }
}

/// The configuration patch that command-line overrides make: typed values
/// for the typed keys, and three tables of text (`color.<name>`,
/// `journals.<name>`, any other key). In a table a later entry for a name
/// replaces an earlier one.
pub struct ConfigPatch {
    pub encrypt: Option<bool>,
    pub highlight: Option<bool>,
    pub default_hour: Option<i64>,
    pub default_minute: Option<i64>,
    pub linewrap: Option<i64>,
    pub color: Vec<(String, String)>,
    pub journals: Vec<(String, String)>,
    pub other: Vec<(String, String)>,
}

/// The mathematical form of a patch.
pub struct PatchModel {
    pub encrypt: Option<bool>,
    pub highlight: Option<bool>,
    pub default_hour: Option<int>,
    pub default_minute: Option<int>,
    pub linewrap: Option<int>,
    pub color: Map<Seq<char>, Seq<char>>,
    pub journals: Map<Seq<char>, Seq<char>>,
    pub other: Map<Seq<char>, Seq<char>>,
}

/// A table of name-value entries as a map; a later entry wins.
pub open spec fn table_view(t: Seq<(String, String)>) -> Map<Seq<char>, Seq<char>>
    decreases t.len(),
{
    if t.len() == 0 {
        Map::empty()
    } else {
        table_view(t.drop_last()).insert(t.last().0@, t.last().1@)
    }
}

pub open spec fn int_view(o: Option<i64>) -> Option<int> {
    match o {
        Some(v) => Some(v as int),
        None => None,
    }
}

impl View for ConfigPatch {
    type V = PatchModel;

    open spec fn view(&self) -> PatchModel {
        PatchModel {
            encrypt: self.encrypt,
            highlight: self.highlight,
            default_hour: int_view(self.default_hour),
            default_minute: int_view(self.default_minute),
            linewrap: int_view(self.linewrap),
            color: table_view(self.color@),
            journals: table_view(self.journals@),
            other: table_view(self.other@),
        }
    }
}

pub open spec fn empty_patch() -> PatchModel {
    PatchModel {
        encrypt: None,
        highlight: None,
        default_hour: None,
        default_minute: None,
        linewrap: None,
        color: Map::empty(),
        journals: Map::empty(),
        other: Map::empty(),
    }
}

/// One override, key `k` and value `v`, laid over patch `m`; none where the
/// value does not have the type that the key asks for.
pub open spec fn patch_step(m: PatchModel, k: Seq<char>, v: Seq<char>) -> Option<PatchModel> {
    if has_prefix(k, "color."@) {
        Some(PatchModel { color: m.color.insert(k.skip(6), v), ..m })
    } else if has_prefix(k, "journals."@) {
        Some(PatchModel { journals: m.journals.insert(k.skip(9), v), ..m })
    } else if k == "encrypt"@ {
        match bool_of(v) {
            Some(b) => Some(PatchModel { encrypt: Some(b), ..m }),
            None => None,
        }
    } else if k == "highlight"@ {
        match bool_of(v) {
            Some(b) => Some(PatchModel { highlight: Some(b), ..m }),
            None => None,
        }
    } else if k == "default_minute"@ {
        match int_of(v) {
            Some(i) => Some(PatchModel { default_minute: Some(i), ..m }),
            None => None,
        }
    } else if k == "default_hour"@ {
        match int_of(v) {
            Some(i) => Some(PatchModel { default_hour: Some(i), ..m }),
            None => None,
        }
    } else if k == "linewrap"@ {
        match int_of(v) {
            Some(i) => Some(PatchModel { linewrap: Some(i), ..m }),
            None => None,
        }
    } else {
        Some(PatchModel { other: m.other.insert(k, v), ..m })
    }
}

/// The patch that the first `n` key-value pairs of `pairs` make.
pub open spec fn fold_pairs(pairs: Seq<Seq<char>>, n: nat) -> Option<PatchModel>
    decreases n,
{
    if n == 0 {
        Some(empty_patch())
    } else {
        match fold_pairs(pairs, (n - 1) as nat) {
            Some(m) => patch_step(m, pairs[2 * (n - 1)], pairs[2 * (n - 1) + 1]),
            None => None,
        }
    }
}

/// The patch that a flat list of overrides makes: an odd count is
/// malformed, a value of the wrong type for its key is refused.
pub open spec fn patch_of(pairs: Seq<Seq<char>>) -> Result<PatchModel, JrnlErrorKind> {
    if pairs.len() % 2 != 0 {
        Err(JrnlErrorKind::MalformedOverride)
    } else {
        match fold_pairs(pairs, pairs.len() / 2) {
            Some(m) => Ok(m),
            None => Err(JrnlErrorKind::InvalidCoercion),
        }
    }
}

proof fn lemma_fold_stays_none(pairs: Seq<Seq<char>>, i: nat, n: nat)
    requires
        i <= n,
        fold_pairs(pairs, i) is None,
    ensures
        fold_pairs(pairs, n) is None,
    decreases n - i,
{
    if i < n {
        lemma_fold_stays_none(pairs, i, (n - 1) as nat);
    }
}

fn push_entry(t: &mut Vec<(String, String)>, k: String, v: String)
    ensures
        table_view(final(t)@) == table_view(old(t)@).insert(k@, v@),
{
    let ghost before = t@;
    t.push((k, v));
    assert(t@.drop_last() =~= before);
}

/// Turns command-line overrides, a flat list of keys each followed by its
/// value, into a configuration patch.
pub fn collect_overrides(pairs: &Vec<String>) -> (r: Result<ConfigPatch, JrnlError>)
    ensures
        match r {
            Ok(p) => patch_of(pairs@.map_values(|s: String| s@)) == Ok::<PatchModel, JrnlErrorKind>(p@),
            Err(e) => patch_of(pairs@.map_values(|s: String| s@)) == Err::<PatchModel, JrnlErrorKind>(e.0),
        },
{
    let ghost ps = pairs@.map_values(|s: String| s@);
    if pairs.len() % 2 != 0 {
        return Err(JrnlError(JrnlErrorKind::MalformedOverride));
    }
    let mut patch = ConfigPatch {
        encrypt: None,
        highlight: None,
        default_hour: None,
        default_minute: None,
        linewrap: None,
        color: Vec::new(),
        journals: Vec::new(),
        other: Vec::new(),
    };
    proof {
        reveal_strlit("color.");
        reveal_strlit("journals.");
        assert(patch@.color =~= Map::empty());
        assert(patch@.journals =~= Map::empty());
        assert(patch@.other =~= Map::empty());
    }
    let plen = pairs.len();
    let count = plen / 2;
    let mut i: usize = 0;
    while i < count
        invariant
            ps == pairs@.map_values(|s: String| s@),
            pairs@.len() % 2 == 0,
            count == pairs@.len() / 2,
            2 * count == pairs@.len(),
            plen == pairs@.len(),
            i <= count,
            fold_pairs(ps, i as nat) == Some(patch@),
        decreases count - i,
    {
        let k = &pairs[2 * i];
        let v = &pairs[2 * i + 1];
        assert(ps[2 * i as int] == k@ && ps[2 * i + 1] == v@);
        let ghost m = patch@;
        proof {
            reveal_strlit("color.");
            reveal_strlit("journals.");
        }
        if starts_with(k.as_str(), "color.") {
            let name = tail_from(k.as_str(), 6);
            push_entry(&mut patch.color, name, v.clone());
        } else if starts_with(k.as_str(), "journals.") {
            let name = tail_from(k.as_str(), 9);
            push_entry(&mut patch.journals, name, v.clone());
        } else if str_eq(k.as_str(), "encrypt") || str_eq(k.as_str(), "highlight") {
            let lowered = lowercase(v.as_str());
            let b = match bool_from_lowered(lowered.as_str()) {
                Some(b) => b,
                None => {
                    proof {
                        lemma_fold_stays_none(ps, (i + 1) as nat, count as nat);
                    }
                    return Err(JrnlError(JrnlErrorKind::InvalidCoercion));
                },
            };
            if str_eq(k.as_str(), "encrypt") {
                patch.encrypt = Some(b);
            } else {
                patch.highlight = Some(b);
            }
        } else if str_eq(k.as_str(), "default_minute") || str_eq(k.as_str(), "default_hour")
            || str_eq(k.as_str(), "linewrap") {
            match parse_i64(v.as_str()) {
                Some(n) => {
                    if str_eq(k.as_str(), "default_minute") {
                        patch.default_minute = Some(n);
                    } else if str_eq(k.as_str(), "default_hour") {
                        patch.default_hour = Some(n);
                    } else {
                        patch.linewrap = Some(n);
                    }
                },
                None => {
                    proof {
                        lemma_fold_stays_none(ps, (i + 1) as nat, count as nat);
                    }
                    return Err(JrnlError(JrnlErrorKind::InvalidCoercion));
                },
            }
        } else {
            push_entry(&mut patch.other, k.clone(), v.clone());
        }
        assert(fold_pairs(ps, (i + 1) as nat) == patch_step(m, k@, v@));
        i = i + 1;
    }
    Ok(patch)
}

impl Cli {
    /// The configuration patch that this invocation's overrides make.
    pub fn collect(&self) -> (r: Result<ConfigPatch, JrnlError>)
        ensures
            match r {
                Ok(p) => patch_of(self.config_override@.map_values(|s: String| s@)) == Ok::<PatchModel, JrnlErrorKind>(p@),
                Err(e) => patch_of(self.config_override@.map_values(|s: String| s@)) == Err::<PatchModel, JrnlErrorKind>(e.0),
            },
    {
        collect_overrides(&self.config_override)
    }
}

/// The entry of table `t` for name `k`, which is the last one that names it.
proof fn lemma_table_skip(t: Seq<(String, String)>, j: int, k: Seq<char>)
    requires
        0 <= j <= t.len(),
        forall|i: int| j <= i < t.len() ==> (#[trigger] t[i]).0@ != k,
    ensures
        table_view(t).contains_key(k) == table_view(t.subrange(0, j)).contains_key(k),
        table_view(t).contains_key(k) ==> table_view(t)[k] == table_view(t.subrange(0, j))[k],
    decreases t.len() - j,
{
    if j < t.len() {
        let u = t.drop_last();
        assert(u.subrange(0, j) =~= t.subrange(0, j));
        assert forall|i: int| j <= i < u.len() implies (#[trigger] u[i]).0@ != k by {
            assert(u[i] == t[i]);
        }
        lemma_table_skip(u, j, k);
    } else {
        assert(t.subrange(0, j) =~= t);
    }
}

/// The value that table `t` holds for name `k`.
pub fn table_get<'a>(t: &'a Vec<(String, String)>, k: &str) -> (r: Option<&'a String>)
    ensures
        r is Some <==> table_view(t@).contains_key(k@),
        r matches Some(v) ==> table_view(t@)[k@] == v@,
{
    let mut j: usize = t.len();
    while j > 0
        invariant
            j <= t@.len(),
            forall|i: int| j <= i < t@.len() ==> (#[trigger] t@[i]).0@ != k@,
        decreases j,
    {
        if str_eq(t[j - 1].0.as_str(), k) {
            proof {
                lemma_table_skip(t@, j as int, k@);
                let u = t@.subrange(0, j as int);
                assert(u.drop_last() =~= t@.subrange(0, j - 1));
            }
            return Some(&t[j - 1].1);
        }
        j = j - 1;
    }
    proof {
        lemma_table_skip(t@, 0, k@);
    }
    None
}

/// The color that a name in a configuration file writes.
pub open spec fn color_named(v: Seq<char>) -> Option<TextColor> {
    if v == "none"@ {
        Some(TextColor::NoColor)
    } else if v == "black"@ {
        Some(TextColor::Black)
    } else if v == "red"@ {
        Some(TextColor::Red)
    } else if v == "green"@ {
        Some(TextColor::Green)
    } else if v == "yellow"@ {
        Some(TextColor::Yellow)
    } else if v == "blue"@ {
        Some(TextColor::Blue)
    } else if v == "magenta"@ {
        Some(TextColor::Magenta)
    } else if v == "cyan"@ {
        Some(TextColor::Cyan)
    } else if v == "white"@ {
        Some(TextColor::White)
    } else {
        None
    }
}

pub fn parse_color(v: &str) -> (r: Option<TextColor>)
    ensures
        r == color_named(v@),
{
    if str_eq(v, "none") {
        Some(TextColor::NoColor)
    } else if str_eq(v, "black") {
        Some(TextColor::Black)
    } else if str_eq(v, "red") {
        Some(TextColor::Red)
    } else if str_eq(v, "green") {
        Some(TextColor::Green)
    } else if str_eq(v, "yellow") {
        Some(TextColor::Yellow)
    } else if str_eq(v, "blue") {
        Some(TextColor::Blue)
    } else if str_eq(v, "magenta") {
        Some(TextColor::Magenta)
    } else if str_eq(v, "cyan") {
        Some(TextColor::Cyan)
    } else if str_eq(v, "white") {
        Some(TextColor::White)
    } else {
        None
    }
}

/// The display format that a name in a configuration file writes, short
/// aliases included.
pub open spec fn display_named(v: Seq<char>) -> Option<DisplayConfig> {
    if v == "boxed"@ {
        Some(DisplayConfig::Boxed)
    } else if v == "dates"@ {
        Some(DisplayConfig::Dates)
    } else if v == "json"@ {
        Some(DisplayConfig::Json)
    } else if v == "markdown"@ || v == "md"@ {
        Some(DisplayConfig::Markdown)
    } else if v == "pretty"@ {
        Some(DisplayConfig::Pretty)
    } else if v == "short"@ {
        Some(DisplayConfig::Short)
    } else if v == "tags"@ {
        Some(DisplayConfig::Tags)
    } else if v == "text"@ || v == "txt"@ {
        Some(DisplayConfig::Text)
    } else if v == "xml"@ {
        Some(DisplayConfig::Xml)
    } else if v == "yaml"@ || v == "yml"@ {
        Some(DisplayConfig::Yaml)
    } else {
        None
    }
}

pub fn parse_display(v: &str) -> (r: Option<DisplayConfig>)
    ensures
        r == display_named(v@),
{
    if str_eq(v, "boxed") {
        Some(DisplayConfig::Boxed)
    } else if str_eq(v, "dates") {
        Some(DisplayConfig::Dates)
    } else if str_eq(v, "json") {
        Some(DisplayConfig::Json)
    } else if str_eq(v, "markdown") || str_eq(v, "md") {
        Some(DisplayConfig::Markdown)
    } else if str_eq(v, "pretty") {
        Some(DisplayConfig::Pretty)
    } else if str_eq(v, "short") {
        Some(DisplayConfig::Short)
    } else if str_eq(v, "tags") {
        Some(DisplayConfig::Tags)
    } else if str_eq(v, "text") || str_eq(v, "txt") {
        Some(DisplayConfig::Text)
    } else if str_eq(v, "xml") {
        Some(DisplayConfig::Xml)
    } else if str_eq(v, "yaml") || str_eq(v, "yml") {
        Some(DisplayConfig::Yaml)
    } else {
        None
    }
}

pub open spec fn fits(o: Option<int>, lo: int, hi: int) -> bool {
    o matches Some(v) ==> lo <= v <= hi
}

/// The color of one part after the override table `t`: the table's entry
/// for that part where there is one, else `base`.
pub open spec fn color_after(t: Map<Seq<char>, Seq<char>>, part: Seq<char>, base: TextColor) -> TextColor {
    if t.contains_key(part) {
        color_named(t[part]).unwrap()
    } else {
        base
    }
}

pub open spec fn color_ok(t: Map<Seq<char>, Seq<char>>, part: Seq<char>) -> bool {
    t.contains_key(part) ==> color_named(t[part]) is Some
}

/// Whether every value of a patch can stand in the settings: hours and
/// minutes fit a byte, the line width fits 16 bits, colors and display
/// formats are known names, and an indentation is one character.
pub open spec fn patch_fits(p: PatchModel) -> bool {
    &&& fits(p.default_hour, -128, 127)
    &&& fits(p.default_minute, -128, 127)
    &&& fits(p.linewrap, -32768, 32767)
    &&& color_ok(p.color, "body"@)
    &&& color_ok(p.color, "date"@)
    &&& color_ok(p.color, "tags"@)
    &&& color_ok(p.color, "title"@)
    &&& p.other.contains_key("display_format"@) ==> display_named(p.other["display_format"@]) is Some
    &&& p.other.contains_key("indent_character"@) ==> p.other["indent_character"@].len() == 1
}

/// A text setting after the patch: the patch's value where it has one.
pub open spec fn text_after(p: PatchModel, key: Seq<char>, base: Option<String>) -> Option<Seq<char>> {
    if p.other.contains_key(key) {
        Some(p.other[key])
    } else {
        crate::settings::opt_view(base)
    }
}

pub open spec fn int_after(v: Option<int>, base: Option<i8>) -> Option<i8> {
    match v {
        Some(i) => Some(i as i8),
        None => base,
    }
}

/// The template that override value `v` sets: none for `false`, else a path.
pub open spec fn template_from(t: Option<TemplateConfig>, v: Seq<char>) -> bool {
    if v == "false"@ {
        t == Some(TemplateConfig::Empty(false))
    } else {
        t matches Some(TemplateConfig::Path(p)) && p@ == v
    }
}

/// What settings `s` become under patch `p`, field by field: a value in the
/// patch replaces the file's, tables are merged name by name, and journals
/// named in the patch become bare paths. Keys that name no setting are
/// ignored.
pub open spec fn patched(s: Settings, p: PatchModel, r: Settings) -> bool {
    let c = s.config;
    let n = r.config;
    let base_colors = match c.colors {
        Some(cc) => cc,
        None => crate::settings::default_colors(),
    };
    &&& n.encrypt == (if p.encrypt is Some { p.encrypt } else { c.encrypt })
    &&& n.highlight == (if p.highlight is Some { p.highlight } else { c.highlight })
    &&& n.default_hour == int_after(p.default_hour, c.default_hour)
    &&& n.default_minute == int_after(p.default_minute, c.default_minute)
    &&& n.linewrap == (match p.linewrap {
        Some(i) => Some(LineWrapConfig::Columns(i as i16)),
        None => c.linewrap,
    })
    &&& n.colors == (if p.color.contains_key("body"@) || p.color.contains_key("date"@)
        || p.color.contains_key("tags"@) || p.color.contains_key("title"@) {
        Some(ColorConfig {
            body: color_after(p.color, "body"@, base_colors.body),
            date: color_after(p.color, "date"@, base_colors.date),
            tags: color_after(p.color, "tags"@, base_colors.tags),
            title: color_after(p.color, "title"@, base_colors.title),
        })
    } else {
        c.colors
    })
    &&& crate::settings::opt_view(n.editor) == text_after(p, "editor"@, c.editor)
    &&& crate::settings::opt_view(n.timeformat) == text_after(p, "timeformat"@, c.timeformat)
    &&& crate::settings::opt_view(n.tagsymbols) == text_after(p, "tagsymbols"@, c.tagsymbols)
    &&& r.version@ == (if p.other.contains_key("version"@) { p.other["version"@] } else { s.version@ })
    &&& n.display_format == (if p.other.contains_key("display_format"@) {
        display_named(p.other["display_format"@])
    } else {
        c.display_format
    })
    &&& n.indent_character == (if p.other.contains_key("indent_character"@) {
        Some(p.other["indent_character"@][0])
    } else {
        c.indent_character
    })
    &&& (if p.other.contains_key("template"@) {
        template_from(n.template, p.other["template"@])
    } else {
        n.template == c.template
    })
    &&& (if p.journals == Map::<Seq<char>, Seq<char>>::empty() {
        n.journal_config == c.journal_config
    } else {
        n.journal_config matches Some(JournalConfigs::Journals(m)) && journals_patched(
            c.journal_config,
            p.journals,
            journal_entries(m),
        )
    })
}

pub open spec fn is_bare_path(c: JournalConfig, path: Seq<char>) -> bool {
    match c {
        JournalConfig::Standard(p) => p@ == path,
        JournalConfig::Override(_) => false,
    }
}

/// The root journals after the patch's journal table `t`: each name in the
/// table is a bare path, every other name keeps its configuration.
pub open spec fn journals_patched(
    before: Option<JournalConfigs>,
    t: Map<Seq<char>, Seq<char>>,
    after: Map<Seq<char>, JournalConfig>,
) -> bool {
    let base = match before {
        Some(JournalConfigs::Journals(m)) => journal_entries(m),
        _ => Map::empty(),
    };
    forall|name: Seq<char>|
        if t.contains_key(name) {
            #[trigger] after.contains_key(name) && is_bare_path(after[name], t[name])
        } else {
            after.contains_key(name) == base.contains_key(name) && (base.contains_key(name)
                ==> after[name] == base[name])
        }
}

proof fn lemma_table_empty(t: Seq<(String, String)>)
    ensures
        (t.len() == 0) == (table_view(t) == Map::<Seq<char>, Seq<char>>::empty()),
{
    if t.len() == 0 {
        assert(table_view(t) =~= Map::<Seq<char>, Seq<char>>::empty());
    } else {
        assert(table_view(t).contains_key(t.last().0@));
    }
}

fn color_part(t: &Vec<(String, String)>, part: &str, base: TextColor) -> (r: Result<(TextColor, bool), JrnlError>)
    ensures
        match r {
            Ok((c, touched)) => color_ok(table_view(t@), part@) && touched == table_view(t@).contains_key(part@)
                && c == color_after(table_view(t@), part@, base),
            Err(e) => !color_ok(table_view(t@), part@) && e.0 == JrnlErrorKind::InvalidCoercion,
        },
{
    match table_get(t, part) {
        Some(v) => match parse_color(v.as_str()) {
            Some(c) => Ok((c, true)),
            None => Err(JrnlError(JrnlErrorKind::InvalidCoercion)),
        },
        None => Ok((base, false)),
    }
}

fn text_part(t: &Vec<(String, String)>, key: &str, base: Option<String>) -> (r: Option<String>)
    ensures
        crate::settings::opt_view(r) == (if table_view(t@).contains_key(key@) {
            Some(table_view(t@)[key@])
        } else {
            crate::settings::opt_view(base)
        }),
{
    match table_get(t, key) {
        Some(v) => Some(v.clone()),
        None => base,
    }
}

/// Whether a patch names journals while the root holds a bare path.
pub open spec fn journals_clash(s: Settings, p: PatchModel) -> bool {
    p.journals != Map::<Seq<char>, Seq<char>>::empty() && s.config.journal_config matches Some(
        JournalConfigs::Journal(_),
    )
}

/// Lays a command-line patch over settings loaded from a file: the patch is
/// the higher-priority layer.
pub fn apply_overrides(settings: Settings, patch: &ConfigPatch) -> (r: Result<Settings, JrnlError>)
    ensures
        match r {
            Ok(n) => patch_fits(patch@) && !journals_clash(settings, patch@) && patched(settings, patch@, n),
            Err(e) => if !patch_fits(patch@) {
                e.0 == JrnlErrorKind::InvalidCoercion
            } else {
                journals_clash(settings, patch@) && e.0 == JrnlErrorKind::TopLevelJournalConfig
            },
        },
{
    proof {
        reveal_strlit("body");
        reveal_strlit("date");
        reveal_strlit("tags");
        reveal_strlit("title");
    }
    let ghost s0 = settings;
    let Settings { config, version } = settings;
    let CommonConfig {
        colors,
        default_hour,
        default_minute,
        display_format,
        editor,
        encrypt,
        highlight,
        indent_character,
        journal_config,
        linewrap,
        tagsymbols,
        template,
        timeformat,
    } = config;
    let default_hour = match patch.default_hour {
        Some(i) => {
            if -128 <= i && i <= 127 {
                Some(i as i8)
            } else {
                return Err(JrnlError(JrnlErrorKind::InvalidCoercion));
            }
        },
        None => default_hour,
    };
    let default_minute = match patch.default_minute {
        Some(i) => {
            if -128 <= i && i <= 127 {
                Some(i as i8)
            } else {
                return Err(JrnlError(JrnlErrorKind::InvalidCoercion));
            }
        },
        None => default_minute,
    };
    let linewrap = match patch.linewrap {
        Some(i) => {
            if -32768 <= i && i <= 32767 {
                Some(LineWrapConfig::Columns(i as i16))
            } else {
                return Err(JrnlError(JrnlErrorKind::InvalidCoercion));
            }
        },
        None => linewrap,
    };
    let base = match colors {
        Some(c) => c,
        None => ColorConfig::default(),
    };
    let (body, t1) = match color_part(&patch.color, "body", base.body) {
        Ok(x) => x,
        Err(e) => return Err(e),
    };
    let (date, t2) = match color_part(&patch.color, "date", base.date) {
        Ok(x) => x,
        Err(e) => return Err(e),
    };
    let (tags, t3) = match color_part(&patch.color, "tags", base.tags) {
        Ok(x) => x,
        Err(e) => return Err(e),
    };
    let (title, t4) = match color_part(&patch.color, "title", base.title) {
        Ok(x) => x,
        Err(e) => return Err(e),
    };
    let colors = if t1 || t2 || t3 || t4 {
        Some(ColorConfig { body, date, tags, title })
    } else {
        colors
    };
    let display_format = match table_get(&patch.other, "display_format") {
        Some(v) => match parse_display(v.as_str()) {
            Some(d) => Some(d),
            None => return Err(JrnlError(JrnlErrorKind::InvalidCoercion)),
        },
        None => display_format,
    };
    let indent_character = match table_get(&patch.other, "indent_character") {
        Some(v) => {
            if v.as_str().unicode_len() == 1 {
                Some(v.as_str().get_char(0))
            } else {
                return Err(JrnlError(JrnlErrorKind::InvalidCoercion));
            }
        },
        None => indent_character,
    };
    let editor = text_part(&patch.other, "editor", editor);
    let timeformat = text_part(&patch.other, "timeformat", timeformat);
    let tagsymbols = text_part(&patch.other, "tagsymbols", tagsymbols);
    let template = match table_get(&patch.other, "template") {
        Some(v) => {
            if str_eq(v.as_str(), "false") {
                Some(TemplateConfig::Empty(false))
            } else {
                Some(TemplateConfig::Path(v.clone()))
            }
        },
        None => template,
    };
    let version = match table_get(&patch.other, "version") {
        Some(v) => v.clone(),
        None => version,
    };
    proof {
        lemma_table_empty(patch.journals@);
    }
    let journal_config = if patch.journals.len() == 0 {
        journal_config
    } else {
        let mut map = match journal_config {
            None => JournalMap::new(),
            Some(JournalConfigs::Journals(m)) => m,
            Some(JournalConfigs::Journal(_)) => {
                return Err(JrnlError(JrnlErrorKind::TopLevelJournalConfig));
            },
        };
        let ghost base_map = journal_entries(map);
        assert(base_map == match s0.config.journal_config {
            Some(JournalConfigs::Journals(m)) => journal_entries(m),
            _ => Map::empty(),
        });
        let mut i: usize = 0;
        while i < patch.journals.len()
            invariant
                i <= patch.journals@.len(),
                forall|name: Seq<char>|
                    if table_view(patch.journals@.subrange(0, i as int)).contains_key(name) {
                        #[trigger] journal_entries(map).contains_key(name) && is_bare_path(
                            journal_entries(map)[name],
                            table_view(patch.journals@.subrange(0, i as int))[name],
                        )
                    } else {
                        journal_entries(map).contains_key(name) == base_map.contains_key(name) && (
                        base_map.contains_key(name) ==> journal_entries(map)[name]
                            == base_map[name])
                    },
            decreases patch.journals@.len() - i,
        {
            let name = patch.journals[i].0.clone();
            let path = patch.journals[i].1.clone();
            let ghost before = journal_entries(map);
            let ghost k = name@;
            let ghost v = path@;
            map.insert(name, JournalConfig::Standard(path));
            proof {
                let t0 = patch.journals@.subrange(0, i as int);
                let t1 = patch.journals@.subrange(0, i + 1);
                assert(t1.drop_last() =~= t0);
                assert(table_view(t1) == table_view(t0).insert(k, v));
                assert forall|nm: Seq<char>|
                    if table_view(t1).contains_key(nm) {
                        #[trigger] journal_entries(map).contains_key(nm) && is_bare_path(
                            journal_entries(map)[nm],
                            table_view(t1)[nm],
                        )
                    } else {
                        journal_entries(map).contains_key(nm) == base_map.contains_key(nm) && (
                        base_map.contains_key(nm) ==> journal_entries(map)[nm] == base_map[nm])
                    } by {
                    if nm != k {
                        assert(before.contains_key(nm) == journal_entries(map).contains_key(nm));
                        assert(table_view(t1).contains_key(nm) == table_view(t0).contains_key(nm));
                    }
                }
            }
            i = i + 1;
        }
        proof {
            assert(patch.journals@.subrange(0, i as int) =~= patch.journals@);
        }
        Some(JournalConfigs::Journals(map))
    };
    let config = CommonConfig {
        colors,
        default_hour,
        default_minute,
        display_format,
        editor,
        encrypt: if patch.encrypt.is_some() {
            patch.encrypt
        } else {
            encrypt
        },
        highlight: if patch.highlight.is_some() {
            patch.highlight
        } else {
            highlight
        },
        indent_character,
        journal_config,
        linewrap,
        tagsymbols,
        template,
        timeformat,
    };
    Ok(Settings { config, version })
}

/// An odd number of override tokens is malformed.
pub proof fn lemma_odd_overrides_malformed(pairs: Seq<Seq<char>>)
    requires
        pairs.len() % 2 == 1,
    ensures
        patch_of(pairs) == Err::<PatchModel, JrnlErrorKind>(JrnlErrorKind::MalformedOverride),
{
}

/// A command-line value beats the file's: the pair `encrypt`, `v`, with `v` a
/// boolean, gives a patch that every settings take; after it the root's
/// `encrypt` is that boolean, and every journal without a value of its own
/// resolves `encrypt` to it.
pub proof fn lemma_cli_encrypt_wins(s: Settings, v: Seq<char>, r: Settings, name: Seq<char>)
    requires
        bool_of(v) is Some,
        patched(s, patch_of(seq!["encrypt"@, v])->Ok_0, r),
    ensures
        patch_of(seq!["encrypt"@, v]) is Ok,
        patch_fits(patch_of(seq!["encrypt"@, v])->Ok_0),
        !journals_clash(s, patch_of(seq!["encrypt"@, v])->Ok_0),
        r.config.encrypt == bool_of(v),
        (r.scope_spec(name) matches Ok((c, _)) && c.encrypt is None) ==> r.resolve(
            name,
            |c: CommonConfig| c.encrypt,
            false,
        ) == Ok::<bool, JrnlErrorKind>(bool_of(v)->Some_0),
{
    reveal_strlit("encrypt");
    reveal_strlit("color.");
    reveal_strlit("journals.");
    let pairs = seq!["encrypt"@, v];
    assert(!has_prefix("encrypt"@, "color."@)) by {
        assert("encrypt"@[0] != "color."@[0]);
    }
    assert(!has_prefix("encrypt"@, "journals."@)) by {
        assert("encrypt"@[0] != "journals."@[0]);
    }
    assert(fold_pairs(pairs, 0) == Some(empty_patch()));
    assert(fold_pairs(pairs, 1) == patch_step(empty_patch(), "encrypt"@, v));
    let p = patch_of(pairs)->Ok_0;
    assert(p.journals =~= Map::<Seq<char>, Seq<char>>::empty());
    assert(p.color =~= Map::<Seq<char>, Seq<char>>::empty());
    assert(p.other =~= Map::<Seq<char>, Seq<char>>::empty());
}

/// Overrides of two colors make one color table that holds both, a later
/// value for the same part replacing an earlier one.
pub proof fn lemma_color_pairs_merge(a: Seq<char>, va: Seq<char>, b: Seq<char>, vb: Seq<char>)
    ensures
        patch_of(seq!["color."@ + a, va, "color."@ + b, vb]) matches Ok(p) && p.color == map![a => va].insert(b, vb),
{
    reveal_strlit("color.");
    let pairs = seq!["color."@ + a, va, "color."@ + b, vb];
    assert(has_prefix("color."@ + a, "color."@)) by {
        assert(("color."@ + a).subrange(0, 6) =~= "color."@);
    }
    assert(has_prefix("color."@ + b, "color."@)) by {
        assert(("color."@ + b).subrange(0, 6) =~= "color."@);
    }
    assert(("color."@ + a).skip(6) =~= a);
    assert(("color."@ + b).skip(6) =~= b);
    assert(fold_pairs(pairs, 0) == Some(empty_patch()));
    let m1 = fold_pairs(pairs, 1)->Some_0;
    assert(m1.color == Map::<Seq<char>, Seq<char>>::empty().insert(a, va));
    assert(map![a => va] =~= Map::<Seq<char>, Seq<char>>::empty().insert(a, va));
}

} // verus!
