use vstd::prelude::*;

verus! {

/// The kinds of failure that settings resolution, the override adapter and
/// the entry parser report.
#[derive(Debug, Copy, Clone, PartialEq, Eq, Structural)]
pub enum JrnlErrorKind {
    EmptyEntry,
    InvalidTitleLine,
    MissingJournalConfig,
    TopLevelJournalConfig,
    InvalidJrnlOverrideConfig,
    MalformedOverride,
    InvalidCoercion,
}

/// The human-readable message of each error kind.
pub open spec fn kind_message(k: JrnlErrorKind) -> Seq<char> {
    match k {
        JrnlErrorKind::EmptyEntry => "entry is empty"@,
        JrnlErrorKind::InvalidTitleLine => "failed to parse entry title"@,
        JrnlErrorKind::MissingJournalConfig => "no such journal configured"@,
        JrnlErrorKind::TopLevelJournalConfig => "illegal 'journal' key found at top level"@,
        JrnlErrorKind::InvalidJrnlOverrideConfig =>
            "journal-specific config specifies multiple journals"@,
        JrnlErrorKind::MalformedOverride =>
            "config overrides must come as key-value pairs"@,
        JrnlErrorKind::InvalidCoercion =>
            "config override value has the wrong type for its key"@,
    }
}

impl JrnlErrorKind {
    /// The message that names this kind of error.
    pub fn message(&self) -> (r: String)
        ensures
            r@ == kind_message(*self),
    {
        let s = match self {
            JrnlErrorKind::EmptyEntry => "entry is empty",
            JrnlErrorKind::InvalidTitleLine => "failed to parse entry title",
            JrnlErrorKind::MissingJournalConfig => "no such journal configured",
            JrnlErrorKind::TopLevelJournalConfig => "illegal 'journal' key found at top level",
            JrnlErrorKind::InvalidJrnlOverrideConfig =>
                "journal-specific config specifies multiple journals",
            JrnlErrorKind::MalformedOverride => "config overrides must come as key-value pairs",
            JrnlErrorKind::InvalidCoercion =>
                "config override value has the wrong type for its key",
        };
        String::from_str(s)
    }
}

/// An error of this library: a kind and nothing more.
#[derive(Debug, Copy, Clone, PartialEq, Eq, Structural)]
pub struct JrnlError(pub JrnlErrorKind);

impl JrnlError {
    pub fn kind(&self) -> (r: JrnlErrorKind)
        ensures
            r == self.0,
    {
        self.0
    }

    /// The message of this error's kind.
    pub fn message(&self) -> (r: String)
        ensures
            r@ == kind_message(self.0),
    {
        self.0.message()
    }
}

} // verus!
