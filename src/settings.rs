use vstd::prelude::*;
use indexmap::IndexMap;

use crate::error::{JrnlError, JrnlErrorKind};

verus! {

/// The version string written into a freshly built configuration.
pub const VERSION: &'static str = "v0.1.0";

/// A text color of the terminal palette, or none at all.
#[derive(Debug, Copy, Clone, PartialEq, Eq, Structural)]
pub enum TextColor {
    NoColor,
    Black,
    Red,
    Green,
    Yellow,
    Blue,
    Magenta,
    Cyan,
    White,
}

/// The color of each part of a printed entry.
#[derive(Debug, Copy, Clone, PartialEq, Eq, Structural)]
pub struct ColorConfig {
    pub body: TextColor,
    pub date: TextColor,
    pub tags: TextColor,
    pub title: TextColor,
}

pub open spec fn default_colors() -> ColorConfig {
    ColorConfig {
        body: TextColor::NoColor,
        date: TextColor::Black,
        tags: TextColor::Yellow,
        title: TextColor::Cyan,
    }
}

impl Default for ColorConfig {
    fn default() -> (r: Self)
        ensures
            r == default_colors(),
    {
        ColorConfig {
            body: TextColor::NoColor,
            date: TextColor::Black,
            tags: TextColor::Yellow,
            title: TextColor::Cyan,
        }
    }
}

/// How selected entries are displayed.
#[derive(Debug, Copy, Clone, PartialEq, Eq, Structural)]
pub enum DisplayConfig {
    Boxed,
    Dates,
    Json,
    Markdown,
    Pretty,
    Short,
    Tags,
    Text,
    Xml,
    Yaml,
}

impl Default for DisplayConfig {
    fn default() -> (r: Self)
        ensures
            r == DisplayConfig::Text,
    {
        DisplayConfig::Text
    }
}

/// The template of a new entry: none (written `false`), or a path.
#[derive(Debug, Clone)]
pub enum TemplateConfig {
    Empty(bool),
    Path(String),
}

impl Default for TemplateConfig {
    fn default() -> (r: Self)
        ensures
            r == TemplateConfig::Empty(false),
    {
        TemplateConfig::Empty(false)
    }
}

/// Line wrapping: to the terminal's width, or at a column count.
#[derive(Debug, Copy, Clone, PartialEq, Eq, Structural)]
pub enum LineWrapConfig {
    Auto,
    Columns(i16),
}

impl Default for LineWrapConfig {
    fn default() -> (r: Self)
        ensures
            r == LineWrapConfig::Columns(79),
    {
        LineWrapConfig::Columns(79)
    }
}

/// A block of settings. Every field is optional: an absent one is inherited
/// from the enclosing scope.
#[derive(Debug, Clone)]
pub struct CommonConfig {
    pub colors: Option<ColorConfig>,
    pub default_hour: Option<i8>,
    pub default_minute: Option<i8>,
    pub display_format: Option<DisplayConfig>,
    pub editor: Option<String>,
    pub encrypt: Option<bool>,
    pub highlight: Option<bool>,
    pub indent_character: Option<char>,
    pub journal_config: Option<JournalConfigs>,
    pub linewrap: Option<LineWrapConfig>,
    pub tagsymbols: Option<String>,
    pub template: Option<TemplateConfig>,
    pub timeformat: Option<String>,
}

/// The journals of a configuration: a map from names at the document root,
/// or the single path of one journal inside an override block.
#[derive(Debug, Clone)]
pub enum JournalConfigs {
    Journals(JournalMap),
    Journal(String),
}

/// One journal: a bare path that inherits every root setting, or an
/// override block that carries its own path in a nested `Journal`.
#[derive(Debug, Clone)]
pub enum JournalConfig {
    Standard(String),
    Override(CommonConfig),
}

/// The ordered map from journal names to their configurations.
#[verifier::external_body]
#[derive(Debug)]
pub struct JournalMap {
    map: IndexMap<String, JournalConfig>,
}

/// What a journal map holds: each name with its configuration.
pub uninterp spec fn journal_entries(m: JournalMap) -> Map<Seq<char>, JournalConfig>;

/// The names of a journal map, in the order in which they were first inserted.
pub uninterp spec fn journal_names(m: JournalMap) -> Seq<Seq<char>>;

impl Clone for JournalMap {
    /// Relies on `IndexMap::clone`: the copy holds the same names, in the
    /// same order, with the same configurations.
    #[verifier::external_body]
    fn clone(&self) -> (r: Self)
        ensures
            journal_entries(r) == journal_entries(*self),
            journal_names(r) == journal_names(*self),
    {
        JournalMap { map: self.map.clone() }
    }
}

impl JournalMap {
    /// Relies on `IndexMap::new`: the new map is empty.
    #[verifier::external_body]
    pub fn new() -> (r: JournalMap)
        ensures
            journal_entries(r).dom() == Set::<Seq<char>>::empty(),
            journal_names(r).len() == 0,
    {
        JournalMap { map: IndexMap::new() }
    }

    /// Relies on `IndexMap::insert`: the value under `name` is replaced or
    /// added; a new name goes last in the order, a known one keeps its place.
    #[verifier::external_body]
    pub fn insert(&mut self, name: String, config: JournalConfig)
        ensures
            journal_entries(*final(self)) == journal_entries(*old(self)).insert(name@, config),
            journal_names(*final(self)) == (if journal_names(*old(self)).contains(name@) {
                journal_names(*old(self))
            } else {
                journal_names(*old(self)).push(name@)
            }),
    {
        self.map.insert(name, config);
    }

    /// Relies on `IndexMap::get`: the value stored under `name`, if any.
    #[verifier::external_body]
    pub fn get(&self, name: &str) -> (r: Option<&JournalConfig>)
        ensures
            r is Some <==> journal_entries(*self).contains_key(name@),
            r matches Some(c) ==> *c == journal_entries(*self)[name@],
    {
        self.map.get(name)
    }

    /// Relies on `IndexMap::keys`: every name once, in the map's order.
    #[verifier::external_body]
    pub fn names(&self) -> (r: Vec<String>)
        ensures
            r@.map_values(|s: String| s@) == journal_names(*self),
            forall|i: int|
                0 <= i < r@.len() ==> journal_entries(*self).contains_key(#[trigger] r@[i]@),
    {
        self.map.keys().cloned().collect()
    }
}

/// The path that a journal entry names directly: its own for a bare path,
/// the nested `Journal` of an override block, none for anything else.
pub open spec fn entry_file(c: JournalConfig) -> Option<Seq<char>> {
    match c {
        JournalConfig::Standard(p) => Some(p@),
        JournalConfig::Override(o) => match o.journal_config {
            Some(JournalConfigs::Journal(p)) => Some(p@),
            _ => None,
        },
    }
}

impl JournalConfig {
    /// The path of this journal's file.
    pub fn journal_file(&self) -> (r: Result<&str, JrnlError>)
        ensures
            match r {
                Ok(p) => entry_file(*self) == Some(p@),
                Err(e) => entry_file(*self) is None && e.0 == JrnlErrorKind::InvalidJrnlOverrideConfig,
            },
    {
        match self {
            JournalConfig::Standard(journal_file) => Ok(journal_file.as_str()),
            JournalConfig::Override(config) => match &config.journal_config {
                Some(JournalConfigs::Journal(journal_file)) => Ok(journal_file.as_str()),
                _ => Err(JrnlError(JrnlErrorKind::InvalidJrnlOverrideConfig)),
            },
        }
    }
}

impl Default for JournalConfig {
    fn default() -> (r: Self)
        ensures
            r matches JournalConfig::Standard(p) && p@.len() == 0,
    {
        JournalConfig::Standard(String::new())
    }
}

/// A map with exactly one journal, `name`, held as an override block that
/// sets nothing but the path.
pub open spec fn is_single_journal(js: JournalConfigs, name: Seq<char>, path: Seq<char>) -> bool {
    match js {
        JournalConfigs::Journals(m) => {
            &&& journal_names(m) == seq![name]
            &&& journal_entries(m).dom() == set![name]
            &&& match journal_entries(m)[name] {
                JournalConfig::Override(c) => c.is_empty_block(),
                JournalConfig::Standard(_) => false,
            }
            &&& entry_file(journal_entries(m)[name]) == Some(path)
        },
        JournalConfigs::Journal(_) => false,
    }
}

impl JournalConfigs {
    /// A map that holds one journal, `journal_name`, as an override block
    /// that sets nothing but the journal's path.
    pub fn with_journal(journal_name: &str, path: &str) -> (r: JournalConfigs)
        ensures
            is_single_journal(r, journal_name@, path@),
    {
        let journal_config = JournalConfig::Override(CommonConfig {
            colors: None,
            default_hour: None,
            default_minute: None,
            display_format: None,
            editor: None,
            encrypt: None,
            highlight: None,
            indent_character: None,
            journal_config: Some(JournalConfigs::Journal(String::from_str(path))),
            linewrap: None,
            tagsymbols: None,
            template: None,
            timeformat: None,
        });
        let mut map = JournalMap::new();
        map.insert(String::from_str(journal_name), journal_config);
        proof {
            assert(journal_entries(map).dom() =~= set![journal_name@]);
            assert(journal_names(map) =~= seq![journal_name@]);
        }
        JournalConfigs::Journals(map)
    }
}

impl CommonConfig {
    /// Every setting but the nested journals is absent.
    pub open spec fn is_empty_block(&self) -> bool {
        &&& self.colors is None
        &&& self.default_hour is None
        &&& self.default_minute is None
        &&& self.display_format is None
        &&& self.editor is None
        &&& self.encrypt is None
        &&& self.highlight is None
        &&& self.indent_character is None
        &&& self.linewrap is None
        &&& self.tagsymbols is None
        &&& self.template is None
        &&& self.timeformat is None
    }

    /// The compiled-in defaults: hour 9, minute 0, no encryption,
    /// highlighting, `|` for indentation, 79 columns, tag symbols `#@`, no
    /// template, time format `%F %r`, the default colors; no display format,
    /// editor or journals.
    pub open spec fn is_compiled_default(&self) -> bool {
        &&& self.colors == Some(default_colors())
        &&& self.default_hour == Some(9i8)
        &&& self.default_minute == Some(0i8)
        &&& self.display_format is None
        &&& self.editor is None
        &&& self.encrypt == Some(false)
        &&& self.highlight == Some(true)
        &&& self.indent_character == Some('|')
        &&& self.journal_config is None
        &&& self.linewrap == Some(LineWrapConfig::Columns(79))
        &&& self.tagsymbols matches Some(t) && t@ == "#@"@
        &&& self.template == Some(TemplateConfig::Empty(false))
        &&& self.timeformat matches Some(t) && t@ == "%F %r"@
    }

    pub fn default_hour(self, default_hour: i8) -> (r: Self)
        ensures
            r == (CommonConfig { default_hour: Some(default_hour), ..self }),
    {
        CommonConfig { default_hour: Some(default_hour), ..self }
    }

    pub fn default_minute(self, default_minute: i8) -> (r: Self)
        ensures
            r == (CommonConfig { default_minute: Some(default_minute), ..self }),
    {
        CommonConfig { default_minute: Some(default_minute), ..self }
    }

    pub fn colors(self, colors: ColorConfig) -> (r: Self)
        ensures
            r == (CommonConfig { colors: Some(colors), ..self }),
    {
        CommonConfig { colors: Some(colors), ..self }
    }

    pub fn display_format(self, display_format: DisplayConfig) -> (r: Self)
        ensures
            r == (CommonConfig { display_format: Some(display_format), ..self }),
    {
        CommonConfig { display_format: Some(display_format), ..self }
    }

    pub fn editor(self, editor: String) -> (r: Self)
        ensures
            r == (CommonConfig { editor: Some(editor), ..self }),
    {
        CommonConfig { editor: Some(editor), ..self }
    }

    pub fn encrypt(self, encrypt: bool) -> (r: Self)
        ensures
            r == (CommonConfig { encrypt: Some(encrypt), ..self }),
    {
        CommonConfig { encrypt: Some(encrypt), ..self }
    }

    pub fn highlight(self, highlight: bool) -> (r: Self)
        ensures
            r == (CommonConfig { highlight: Some(highlight), ..self }),
    {
        CommonConfig { highlight: Some(highlight), ..self }
    }

    pub fn indent_character(self, indent_character: char) -> (r: Self)
        ensures
            r == (CommonConfig { indent_character: Some(indent_character), ..self }),
    {
        CommonConfig { indent_character: Some(indent_character), ..self }
    }

    pub fn journal_config(self, journals: JournalConfigs) -> (r: Self)
        ensures
            r == (CommonConfig { journal_config: Some(journals), ..self }),
    {
        CommonConfig { journal_config: Some(journals), ..self }
    }

    pub fn linewrap(self, linewrap: LineWrapConfig) -> (r: Self)
        ensures
            r == (CommonConfig { linewrap: Some(linewrap), ..self }),
    {
        CommonConfig { linewrap: Some(linewrap), ..self }
    }

    pub fn tagsymbols(self, tagsymbols: String) -> (r: Self)
        ensures
            r == (CommonConfig { tagsymbols: Some(tagsymbols), ..self }),
    {
        CommonConfig { tagsymbols: Some(tagsymbols), ..self }
    }

    pub fn template(self, template: TemplateConfig) -> (r: Self)
        ensures
            r == (CommonConfig { template: Some(template), ..self }),
    {
        CommonConfig { template: Some(template), ..self }
    }

    pub fn timeformat(self, timeformat: String) -> (r: Self)
        ensures
            r == (CommonConfig { timeformat: Some(timeformat), ..self }),
    {
        CommonConfig { timeformat: Some(timeformat), ..self }
    }
}

impl Default for CommonConfig {
    fn default() -> (r: Self)
        ensures
            r.is_compiled_default(),
    {
        CommonConfig {
            colors: Some(ColorConfig::default()),
            default_hour: Some(9),
            default_minute: Some(0),
            display_format: None,
            editor: None,
            encrypt: Some(false),
            highlight: Some(true),
            indent_character: Some('|'),
            journal_config: None,
            linewrap: Some(LineWrapConfig::default()),
            tagsymbols: Some(String::from_str("#@")),
            template: Some(TemplateConfig::default()),
            timeformat: Some(String::from_str("%F %r")),
        }
    }
}

/// The first value present: the journal's scope, then the root, then the
/// compiled-in fallback.
pub open spec fn first_of<T>(scope: Option<T>, root: Option<T>, fallback: T) -> T {
    match scope {
        Some(v) => v,
        None => match root {
            Some(v) => v,
            None => fallback,
        },
    }
}

/// Picks the first value present among a journal's scope, the root and a
/// compiled-in fallback.
pub fn first_present<T>(scope: Option<T>, root: Option<T>, fallback: T) -> (r: T)
    ensures
        r == first_of(scope, root, fallback),
{
    match scope {
        Some(v) => v,
        None => match root {
            Some(v) => v,
            None => fallback,
        },
    }
}

pub open spec fn opt_view(o: Option<String>) -> Option<Seq<char>> {
    match o {
        Some(s) => Some(s@),
        None => None,
    }
}

fn clone_text(o: &Option<String>) -> (r: Option<String>)
    ensures
        r == *o,
{
    match o {
        Some(s) => Some(s.clone()),
        None => None,
    }
}

fn clone_template(o: &Option<TemplateConfig>) -> (r: Option<TemplateConfig>)
    ensures
        r == *o,
{
    match o {
        Some(TemplateConfig::Empty(b)) => Some(TemplateConfig::Empty(*b)),
        Some(TemplateConfig::Path(p)) => Some(TemplateConfig::Path(p.clone())),
        None => None,
    }
}

/// The settings of one invocation: a root block of settings and the version
/// of the configuration format.
#[derive(Debug)]
pub struct Settings {
    pub config: CommonConfig,
    pub version: String,
}

impl Default for Settings {
    fn default() -> (r: Self)
        ensures
            r.config.is_compiled_default(),
            r.version@ == VERSION@,
    {
        Settings { config: CommonConfig::default(), version: String::from_str(VERSION) }
    }
}

impl Settings {
    /// The scope block and the file path of journal `name`, or the error
    /// that resolution stops at.
    pub open spec fn scope_spec(&self, name: Seq<char>) -> Result<(CommonConfig, Seq<char>), JrnlErrorKind> {
        match self.config.journal_config {
            None => Err(JrnlErrorKind::MissingJournalConfig),
            Some(JournalConfigs::Journal(_)) => Err(JrnlErrorKind::TopLevelJournalConfig),
            Some(JournalConfigs::Journals(m)) => {
                if !journal_entries(m).contains_key(name) {
                    Err(JrnlErrorKind::MissingJournalConfig)
                } else {
                    match journal_entries(m)[name] {
                        JournalConfig::Standard(p) => Ok((self.config, p@)),
                        JournalConfig::Override(c) => match c.journal_config {
                            Some(JournalConfigs::Journal(p)) => Ok((c, p@)),
                            _ => Err(JrnlErrorKind::InvalidJrnlOverrideConfig),
                        },
                    }
                }
            },
        }
    }

    /// The file path of journal `name`.
    pub open spec fn journal_file_spec(&self, name: Seq<char>) -> Result<Seq<char>, JrnlErrorKind> {
        match self.scope_spec(name) {
            Ok((_, p)) => Ok(p),
            Err(k) => Err(k),
        }
    }

    /// One setting of journal `name`: its scope's value, else the root's,
    /// else `fallback`.
    pub open spec fn resolve<T>(
        &self,
        name: Seq<char>,
        field: spec_fn(CommonConfig) -> Option<T>,
        fallback: T,
    ) -> Result<T, JrnlErrorKind> {
        match self.scope_spec(name) {
            Ok((c, _)) => Ok(first_of(field(c), field(self.config), fallback)),
            Err(k) => Err(k),
        }
    }

    /// The editor of journal `name`, which has no compiled-in fallback.
    pub open spec fn editor_spec(&self, name: Seq<char>) -> Result<Seq<char>, JrnlErrorKind> {
        match self.scope_spec(name) {
            Ok((c, _)) => match c.editor {
                Some(e) => Ok(e@),
                None => match self.config.editor {
                    Some(e) => Ok(e@),
                    None => Err(JrnlErrorKind::InvalidJrnlOverrideConfig),
                },
            },
            Err(k) => Err(k),
        }
    }

    /// These settings with the root journals replaced by one journal,
    /// `journal_name`, at `journal_path`.
    pub fn with_journal(self, journal_name: &str, journal_path: &str) -> (r: Self)
        ensures
            r.config == (CommonConfig { journal_config: r.config.journal_config, ..self.config }),
            r.version == self.version,
            r.config.journal_config matches Some(js) && is_single_journal(js, journal_name@, journal_path@),
            r.journal_file_spec(journal_name@) == Ok::<Seq<char>, JrnlErrorKind>(journal_path@),
    {
        let js = JournalConfigs::with_journal(journal_name, journal_path);
        let config = CommonConfig { journal_config: Some(js), ..self.config };
        Settings { config, version: self.version }
    }

    /// The scope block and the file path of journal `journal_name`.
    pub fn journal_settings(&self, journal_name: &str) -> (r: Result<(&CommonConfig, &str), JrnlError>)
        ensures
            match r {
                Ok((c, p)) => self.scope_spec(journal_name@) == Ok::<(CommonConfig, Seq<char>), JrnlErrorKind>((*c, p@)),
                Err(e) => self.scope_spec(journal_name@) == Err::<(CommonConfig, Seq<char>), JrnlErrorKind>(e.0),
            },
    {
        match &self.config.journal_config {
            None => Err(JrnlError(JrnlErrorKind::MissingJournalConfig)),
            Some(JournalConfigs::Journal(_)) => Err(JrnlError(JrnlErrorKind::TopLevelJournalConfig)),
            Some(JournalConfigs::Journals(journals)) => match journals.get(journal_name) {
                None => Err(JrnlError(JrnlErrorKind::MissingJournalConfig)),
                Some(journal) => {
                    let journal_file = journal.journal_file();
                    match journal {
                        JournalConfig::Override(config) => match journal_file {
                            Ok(p) => Ok((config, p)),
                            Err(e) => Err(e),
                        },
                        JournalConfig::Standard(_) => match journal_file {
                            Ok(p) => Ok((&self.config, p)),
                            Err(e) => Err(e),
                        },
                    }
                },
            },
        }
    }

    /// The file path of journal `journal_name`.
    pub fn journal_file(&self, journal_name: &str) -> (r: Result<&str, JrnlError>)
        ensures
            match r {
                Ok(p) => self.journal_file_spec(journal_name@) == Ok::<Seq<char>, JrnlErrorKind>(p@),
                Err(e) => self.journal_file_spec(journal_name@) == Err::<Seq<char>, JrnlErrorKind>(e.0),
            },
    {
        match self.journal_settings(journal_name) {
            Ok((_, p)) => Ok(p),
            Err(e) => Err(e),
        }
    }

    /// The hour given to entries written without a time. Resolved for journal `journal_name`.
    pub fn default_hour(&self, journal_name: &str) -> (r: Result<i8, JrnlError>)
        ensures
            match r {
                Ok(v) => self.resolve(journal_name@, |c: CommonConfig| c.default_hour, 9i8) == Ok::<i8, JrnlErrorKind>(v),
                Err(e) => self.resolve(journal_name@, |c: CommonConfig| c.default_hour, 9i8) == Err::<i8, JrnlErrorKind>(e.0),
            },
    {
        match self.journal_settings(journal_name) {
            Ok((config, _)) => Ok(first_present(config.default_hour, self.config.default_hour, 9)),
            Err(e) => Err(e),
        }
    }

    /// The minute given to entries written without a time. Resolved for journal `journal_name`.
    pub fn default_minute(&self, journal_name: &str) -> (r: Result<i8, JrnlError>)
        ensures
            match r {
                Ok(v) => self.resolve(journal_name@, |c: CommonConfig| c.default_minute, 0i8) == Ok::<i8, JrnlErrorKind>(v),
                Err(e) => self.resolve(journal_name@, |c: CommonConfig| c.default_minute, 0i8) == Err::<i8, JrnlErrorKind>(e.0),
            },
    {
        match self.journal_settings(journal_name) {
            Ok((config, _)) => Ok(first_present(config.default_minute, self.config.default_minute, 0)),
            Err(e) => Err(e),
        }
    }

    /// The colors of printed entries. Resolved for journal `journal_name`.
    pub fn colors(&self, journal_name: &str) -> (r: Result<ColorConfig, JrnlError>)
        ensures
            match r {
                Ok(v) => self.resolve(journal_name@, |c: CommonConfig| c.colors, default_colors()) == Ok::<ColorConfig, JrnlErrorKind>(v),
                Err(e) => self.resolve(journal_name@, |c: CommonConfig| c.colors, default_colors()) == Err::<ColorConfig, JrnlErrorKind>(e.0),
            },
    {
        match self.journal_settings(journal_name) {
            Ok((config, _)) => Ok(first_present(config.colors, self.config.colors, ColorConfig::default())),
            Err(e) => Err(e),
        }
    }

    /// How entries are displayed; plain text where nothing is set. Resolved for journal `journal_name`.
    pub fn display_format(&self, journal_name: &str) -> (r: Result<DisplayConfig, JrnlError>)
        ensures
            match r {
                Ok(v) => self.resolve(journal_name@, |c: CommonConfig| c.display_format, DisplayConfig::Text) == Ok::<DisplayConfig, JrnlErrorKind>(v),
                Err(e) => self.resolve(journal_name@, |c: CommonConfig| c.display_format, DisplayConfig::Text) == Err::<DisplayConfig, JrnlErrorKind>(e.0),
            },
    {
        match self.journal_settings(journal_name) {
            Ok((config, _)) => Ok(first_present(config.display_format, self.config.display_format, DisplayConfig::default())),
            Err(e) => Err(e),
        }
    }

    /// The editor command; an error where neither the journal nor the root sets one. Resolved for journal `journal_name`.
    pub fn editor(&self, journal_name: &str) -> (r: Result<String, JrnlError>)
        ensures
            match r {
                Ok(v) => self.editor_spec(journal_name@) == Ok::<Seq<char>, JrnlErrorKind>(v@),
                Err(e) => self.editor_spec(journal_name@) == Err::<Seq<char>, JrnlErrorKind>(e.0),
            },
    {
        match self.journal_settings(journal_name) {
            Ok((config, _)) => match clone_text(&config.editor) {
                Some(e) => Ok(e),
                None => match clone_text(&self.config.editor) {
                    Some(e) => Ok(e),
                    None => Err(JrnlError(JrnlErrorKind::InvalidJrnlOverrideConfig)),
                },
            },
            Err(e) => Err(e),
        }
    }

    /// Whether the journal is encrypted. Resolved for journal `journal_name`.
    pub fn encrypt(&self, journal_name: &str) -> (r: Result<bool, JrnlError>)
        ensures
            match r {
                Ok(v) => self.resolve(journal_name@, |c: CommonConfig| c.encrypt, false) == Ok::<bool, JrnlErrorKind>(v),
                Err(e) => self.resolve(journal_name@, |c: CommonConfig| c.encrypt, false) == Err::<bool, JrnlErrorKind>(e.0),
            },
    {
        match self.journal_settings(journal_name) {
            Ok((config, _)) => Ok(first_present(config.encrypt, self.config.encrypt, false)),
            Err(e) => Err(e),
        }
    }

    /// Whether tags and dates are highlighted. Resolved for journal `journal_name`.
    pub fn highlight(&self, journal_name: &str) -> (r: Result<bool, JrnlError>)
        ensures
            match r {
                Ok(v) => self.resolve(journal_name@, |c: CommonConfig| c.highlight, true) == Ok::<bool, JrnlErrorKind>(v),
                Err(e) => self.resolve(journal_name@, |c: CommonConfig| c.highlight, true) == Err::<bool, JrnlErrorKind>(e.0),
            },
    {
        match self.journal_settings(journal_name) {
            Ok((config, _)) => Ok(first_present(config.highlight, self.config.highlight, true)),
            Err(e) => Err(e),
        }
    }

    /// The character that indents continued lines. Resolved for journal `journal_name`.
    pub fn indent_character(&self, journal_name: &str) -> (r: Result<char, JrnlError>)
        ensures
            match r {
                Ok(v) => self.resolve(journal_name@, |c: CommonConfig| c.indent_character, '|') == Ok::<char, JrnlErrorKind>(v),
                Err(e) => self.resolve(journal_name@, |c: CommonConfig| c.indent_character, '|') == Err::<char, JrnlErrorKind>(e.0),
            },
    {
        match self.journal_settings(journal_name) {
            Ok((config, _)) => Ok(first_present(config.indent_character, self.config.indent_character, '|')),
            Err(e) => Err(e),
        }
    }

    /// Where lines wrap. Resolved for journal `journal_name`.
    pub fn linewrap(&self, journal_name: &str) -> (r: Result<LineWrapConfig, JrnlError>)
        ensures
            match r {
                Ok(v) => self.resolve(journal_name@, |c: CommonConfig| c.linewrap, LineWrapConfig::Columns(79)) == Ok::<LineWrapConfig, JrnlErrorKind>(v),
                Err(e) => self.resolve(journal_name@, |c: CommonConfig| c.linewrap, LineWrapConfig::Columns(79)) == Err::<LineWrapConfig, JrnlErrorKind>(e.0),
            },
    {
        match self.journal_settings(journal_name) {
            Ok((config, _)) => Ok(first_present(config.linewrap, self.config.linewrap, LineWrapConfig::default())),
            Err(e) => Err(e),
        }
    }

    /// The characters that mark a tag. Resolved for journal `journal_name`.
    pub fn tagsymbols(&self, journal_name: &str) -> (r: Result<String, JrnlError>)
        ensures
            match r {
                Ok(v) => self.resolve(journal_name@, |c: CommonConfig| opt_view(c.tagsymbols), "#@"@) == Ok::<Seq<char>, JrnlErrorKind>(v@),
                Err(e) => self.resolve(journal_name@, |c: CommonConfig| opt_view(c.tagsymbols), "#@"@) == Err::<Seq<char>, JrnlErrorKind>(e.0),
            },
    {
        match self.journal_settings(journal_name) {
            Ok((config, _)) => Ok(first_present(clone_text(&config.tagsymbols), clone_text(&self.config.tagsymbols), String::from_str("#@"))),
            Err(e) => Err(e),
        }
    }

    /// The template of a new entry. Resolved for journal `journal_name`.
    pub fn template(&self, journal_name: &str) -> (r: Result<TemplateConfig, JrnlError>)
        ensures
            match r {
                Ok(v) => self.resolve(journal_name@, |c: CommonConfig| c.template, TemplateConfig::Empty(false)) == Ok::<TemplateConfig, JrnlErrorKind>(v),
                Err(e) => self.resolve(journal_name@, |c: CommonConfig| c.template, TemplateConfig::Empty(false)) == Err::<TemplateConfig, JrnlErrorKind>(e.0),
            },
    {
        match self.journal_settings(journal_name) {
            Ok((config, _)) => Ok(first_present(clone_template(&config.template), clone_template(&self.config.template), TemplateConfig::default())),
            Err(e) => Err(e),
        }
    }

    /// The strftime pattern of entry times. Resolved for journal `journal_name`.
    pub fn timeformat(&self, journal_name: &str) -> (r: Result<String, JrnlError>)
        ensures
            match r {
                Ok(v) => self.resolve(journal_name@, |c: CommonConfig| opt_view(c.timeformat), "%F %r"@) == Ok::<Seq<char>, JrnlErrorKind>(v@),
                Err(e) => self.resolve(journal_name@, |c: CommonConfig| opt_view(c.timeformat), "%F %r"@) == Err::<Seq<char>, JrnlErrorKind>(e.0),
            },
    {
        match self.journal_settings(journal_name) {
            Ok((config, _)) => Ok(first_present(clone_text(&config.timeformat), clone_text(&self.config.timeformat), String::from_str("%F %r"))),
            Err(e) => Err(e),
        }
    }
}

/// The settings written on first run: the compiled-in defaults with one
/// journal, `default`, whose file is `data_path`.
pub fn bootstrap_settings(data_path: &str) -> (r: Settings)
    ensures
        r.config == (CommonConfig { journal_config: r.config.journal_config, ..r.config }),
        (CommonConfig { journal_config: None, ..r.config }).is_compiled_default(),
        r.version@ == VERSION@,
        r.config.journal_config matches Some(js) && is_single_journal(js, "default"@, data_path@),
        r.journal_file_spec("default"@) == Ok::<Seq<char>, JrnlErrorKind>(data_path@),
{
    Settings::default().with_journal("default", data_path)
}

/// A journal's file: a name in the root map resolves to the path stored for
/// it (a bare path, or the path nested in its override block), or fails with
/// `InvalidJrnlOverrideConfig` where the block has none; a name absent from
/// the map fails with `MissingJournalConfig`.
pub proof fn lemma_journal_file_lookup(s: Settings, m: JournalMap, name: Seq<char>)
    requires
        s.config.journal_config == Some(JournalConfigs::Journals(m)),
    ensures
        !journal_entries(m).contains_key(name) ==> s.journal_file_spec(name)
            == Err::<Seq<char>, JrnlErrorKind>(JrnlErrorKind::MissingJournalConfig),
        journal_entries(m).contains_key(name) ==> s.journal_file_spec(name) == match entry_file(journal_entries(m)[name]) {
            Some(p) => Ok::<Seq<char>, JrnlErrorKind>(p),
            None => Err(JrnlErrorKind::InvalidJrnlOverrideConfig),
        },
{
}

/// A field set in an override block wins over the root's value for that
/// journal, and a bare-path journal takes the root's value: with `encrypt`
/// false at the root and true in override journal `over`, `over` resolves to
/// true and bare-path journal `plain` to false.
pub proof fn lemma_override_field_wins(
    s: Settings,
    m: JournalMap,
    over: Seq<char>,
    plain: Seq<char>,
)
    requires
        s.config.journal_config == Some(JournalConfigs::Journals(m)),
        s.config.encrypt == Some(false),
        journal_entries(m).contains_key(over),
        journal_entries(m)[over] matches JournalConfig::Override(c) && c.encrypt == Some(true),
        entry_file(journal_entries(m)[over]) is Some,
        journal_entries(m).contains_key(plain),
        journal_entries(m)[plain] is Standard,
    ensures
        s.resolve(over, |c: CommonConfig| c.encrypt, false) == Ok::<bool, JrnlErrorKind>(true),
        s.resolve(plain, |c: CommonConfig| c.encrypt, false) == Ok::<bool, JrnlErrorKind>(false),
{
}

/// A bare path at the document root fails every query, whatever the journal
/// and whatever the field, with `TopLevelJournalConfig`.
pub proof fn lemma_toplevel_journal_rejected<T>(
    s: Settings,
    field: spec_fn(CommonConfig) -> Option<T>,
    fallback: T,
)
    requires
        s.config.journal_config matches Some(JournalConfigs::Journal(_)),
    ensures
        forall|name: Seq<char>|
            #[trigger] s.resolve(name, field, fallback) == Err::<T, JrnlErrorKind>(JrnlErrorKind::TopLevelJournalConfig),
        forall|name: Seq<char>|
            #[trigger] s.journal_file_spec(name) == Err::<Seq<char>, JrnlErrorKind>(JrnlErrorKind::TopLevelJournalConfig),
        forall|name: Seq<char>|
            #[trigger] s.editor_spec(name) == Err::<Seq<char>, JrnlErrorKind>(JrnlErrorKind::TopLevelJournalConfig),
{
}

/// The journal that an invocation writes to, the words of its entry, and the
/// journal's file.
pub struct JournalTarget {
    pub name: String,
    pub entry: Vec<String>,
    pub file: String,
}

/// Picks the journal of an invocation: the one named on the command line, or
/// `default`. A name that no journal has is not an error: it is taken as the
/// first word of the entry, and `default` is used.
pub fn choose_journal(settings: &Settings, journal: Option<String>, entry: Vec<String>) -> (r: Result<JournalTarget, JrnlError>)
    ensures
        ({
            let name = match journal {
                Some(j) => j@,
                None => "default"@,
            };
            match settings.journal_file_spec(name) {
                Ok(f) => r matches Ok(t) && t.name@ == name && t.entry@ == entry@ && t.file@ == f,
                Err(JrnlErrorKind::MissingJournalConfig) => match settings.journal_file_spec("default"@) {
                    Ok(f) => r matches Ok(t) && t.name@ == "default"@ && t.file@ == f
                        && t.entry@.len() == entry@.len() + 1 && t.entry@[0]@ == name
                        && t.entry@.subrange(1, t.entry@.len() as int) == entry@,
                    Err(k) => r matches Err(e) && e.0 == k,
                },
                Err(k) => r matches Err(e) && e.0 == k,
            }
        }),
{
    let name = match journal {
        Some(j) => j,
        None => String::from_str("default"),
    };
    match settings.journal_file(name.as_str()) {
        Ok(f) => Ok(JournalTarget { file: String::from_str(f), name, entry }),
        Err(e) => {
            if e.0 == JrnlErrorKind::MissingJournalConfig {
                match settings.journal_file("default") {
                    Ok(f) => {
                        let mut words = entry;
                        let ghost old_words = words@;
                        words.insert(0, name);
                        assert(words@.subrange(1, words@.len() as int) =~= old_words);
                        Ok(JournalTarget { name: String::from_str("default"), entry: words, file: String::from_str(f) })
                    },
                    Err(e2) => Err(e2),
                }
            } else {
                Err(e)
            }
        },
    }
}

} // verus!
