//! Capabilities and the errors of compilation.

use vstd::prelude::*;

verus! {

/// An optional extension of the language that a script must be granted
/// before it may use the extension's syntax.
#[derive(Clone, Copy, Debug, PartialEq, Eq, Structural, Hash)]
pub enum Capability {
    Copy,
    ExtLists,
    RedirectDeliverBy,
    RedirectDsn,
    Mime,
    Index,
    Regex,
    Relational,
    Variables,
    Convert,
    Enotify,
}

/// What the compiler expected where it found something else.
#[derive(Clone, Copy, Debug, PartialEq, Eq, Structural, Hash)]
pub enum Expectation {
    /// A string.
    Text,
    /// A string without variables.
    StaticText,
    /// A number within the allowed range.
    Number,
    /// A comma or the closing bracket of a string list.
    ListSeparator,
    /// One of the delivery modes of a redirect.
    ByMode,
    /// One of the contents that a delivery report may return.
    Ret,
    /// `NEVER` or a list of delivery events.
    NotifyItems,
    /// One of the six relations.
    Relation,
}

impl Expectation {
    /// The text that names what was expected.
    pub open spec fn text(self) -> Seq<char> {
        match self {
            Expectation::Text => "string"@,
            Expectation::StaticText => "constant string"@,
            Expectation::Number => "number"@,
            Expectation::ListSeparator => "',' or ']'"@,
            Expectation::ByMode => "\"notify\" or \"return\""@,
            Expectation::Ret => "\"FULL\" or \"HDRS\""@,
            Expectation::NotifyItems => "\"NEVER\" or \"SUCCESS, FAILURE, DELAY, ..\""@,
            Expectation::Relation => "\"gt\", \"ge\", \"lt\", \"le\", \"eq\" or \"ne\""@,
        }
    }

    /// The text that names what was expected, for a diagnostic.
    pub fn message(&self) -> (r: &'static str)
        ensures
            r@ == self.text(),
    {
        match self {
            Expectation::Text => "string",
            Expectation::StaticText => "constant string",
            Expectation::Number => "number",
            Expectation::ListSeparator => "',' or ']'",
            Expectation::ByMode => "\"notify\" or \"return\"",
            Expectation::Ret => "\"FULL\" or \"HDRS\"",
            Expectation::NotifyItems => "\"NEVER\" or \"SUCCESS, FAILURE, DELAY, ..\"",
            Expectation::Relation => "\"gt\", \"ge\", \"lt\", \"le\", \"eq\" or \"ne\"",
        }
    }
}

/// The kind of a compile error.
#[derive(Clone, Copy, Debug, PartialEq, Eq, Structural, Hash)]
pub enum ErrorType {
    /// The script ended where a token was needed.
    UnexpectedEnd,
    /// A tag was used whose extension the script was not granted; `argument`
    /// is the slot of the clause among the command's optional clauses.
    UndeclaredCapability { capability: Capability, argument: usize },
    /// Something else was expected.
    Expected(Expectation),
    /// A `:mime` tag is missing before an option that needs it.
    MissingMimeTag,
}

/// A compile error with the place of the token that caused it.
#[derive(Clone, Copy, Debug, PartialEq, Eq, Structural, Hash)]
pub struct CompileError {
    pub line_num: usize,
    pub line_pos: usize,
    pub error_type: ErrorType,
}

} // verus!
