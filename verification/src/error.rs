//! The errors of this crate.

use crate::json::json_error_text;
use crate::text::has_prefix;
use vstd::prelude::*;
use vstd::std_specs::convert::FromSpecImpl;
use vstd::string::StringExecFns;

verus! {

/// Why a validation, a lookup or a conversion failed.
#[derive(Debug)]
pub enum TypesError {
    /// A document breaks one of its rules.
    DocumentValidation { message: String },
    /// A block breaks one of its rules.
    BlockValidation { message: String },
    /// A relation breaks one of its rules.
    RelationValidation { message: String },
    /// A text is no JSON, or the JSON is no document.
    Serialization { source: serde_json::Error },
    /// What was looked for is not there.
    NotFound { item: String },
    /// An identifier or a reference is malformed.
    InvalidFormat { details: String },
}

impl From<serde_json::Error> for TypesError {
    fn from(error: serde_json::Error) -> (e: Self) {
        TypesError::Serialization { source: error }
    }
}

impl FromSpecImpl<serde_json::Error> for TypesError {
    open spec fn obeys_from_spec() -> bool {
        true
    }

    open spec fn from_spec(error: serde_json::Error) -> Self {
        TypesError::Serialization { source: error }
    }
}

impl TypesError {
    /// The words that introduce the description of an error of this kind.
    pub open spec fn heading(&self) -> Seq<char> {
        match self {
            TypesError::DocumentValidation { .. } => "Document validation failed: "@,
            TypesError::BlockValidation { .. } => "Block validation failed: "@,
            TypesError::RelationValidation { .. } => "Relation validation failed: "@,
            TypesError::Serialization { .. } => "Serialization error: "@,
            TypesError::NotFound { .. } => "Not found: "@,
            TypesError::InvalidFormat { .. } => "Invalid format: "@,
        }
    }

    /// The description of the error: the heading of its kind, then its own
    /// message. Of a JSON error only the heading is stated.
    pub open spec fn described_by(&self, text: Seq<char>) -> bool {
        match self {
            TypesError::DocumentValidation { message } => text == self.heading() + message@,
            TypesError::BlockValidation { message } => text == self.heading() + message@,
            TypesError::RelationValidation { message } => text == self.heading() + message@,
            TypesError::Serialization { .. } => has_prefix(text, self.heading()),
            TypesError::NotFound { item } => text == self.heading() + item@,
            TypesError::InvalidFormat { details } => text == self.heading() + details@,
        }
    }

    /// The description of the error, for display.
    pub fn message(&self) -> (text: String)
        ensures
            self.described_by(text@),
    {
        match self {
            TypesError::DocumentValidation { message } => String::from_str(
                "Document validation failed: ",
            ).concat(message.as_str()),
            TypesError::BlockValidation { message } => String::from_str(
                "Block validation failed: ",
            ).concat(message.as_str()),
            TypesError::RelationValidation { message } => String::from_str(
                "Relation validation failed: ",
            ).concat(message.as_str()),
            TypesError::Serialization { source } => {
                let heading = String::from_str("Serialization error: ");
                let detail = json_error_text(source);
                let text = heading.concat(detail.as_str());
                assert(text@.subrange(0, heading@.len() as int) =~= heading@);
                text
            },
            TypesError::NotFound { item } => String::from_str("Not found: ").concat(item.as_str()),
            TypesError::InvalidFormat { details } => String::from_str("Invalid format: ").concat(
                details.as_str(),
            ),
        }
    }
}

/// What is wrong with a statement of the relations language.
#[derive(Debug, Clone, Copy, PartialEq, Eq, Structural)]
pub enum SyntaxErrorKind {
    /// The statement begins with the arrow: no source endpoint stands before it.
    MissingSource,
    /// No `->` follows the source endpoint.
    MissingArrow,
    /// No target endpoint follows the arrow.
    MissingTarget,
    /// No `[` follows the target endpoint.
    MissingTypeOpen,
    /// What stands after `[` is no identifier.
    InvalidRelationType,
    /// No `]` follows the relation type.
    MissingTypeClose,
    /// No `{` follows the relation type.
    MissingAttributesOpen,
    /// An attribute does not begin with an identifier.
    InvalidAttributeKey,
    /// No `:` follows an attribute's key.
    MissingColon,
    /// An attribute's value is no string, boolean or number.
    InvalidAttributeValue,
    /// A string has no closing quote.
    UnterminatedString,
    /// The attribute block is not closed with `}`.
    MissingAttributesClose,
    /// Something other than whitespace follows the attribute block.
    TrailingCharacters,
}

impl SyntaxErrorKind {
    /// The reason, in words.
    pub open spec fn reason(&self) -> Seq<char> {
        match self {
            SyntaxErrorKind::MissingSource => "missing source endpoint before '->'"@,
            SyntaxErrorKind::MissingArrow => "expected '->' after the source endpoint"@,
            SyntaxErrorKind::MissingTarget => "missing target endpoint after '->'"@,
            SyntaxErrorKind::MissingTypeOpen => "expected '[' after the target endpoint"@,
            SyntaxErrorKind::InvalidRelationType => "expected a relation type after '['"@,
            SyntaxErrorKind::MissingTypeClose => "expected ']' after the relation type"@,
            SyntaxErrorKind::MissingAttributesOpen => "expected '{' after the relation type"@,
            SyntaxErrorKind::InvalidAttributeKey => "expected an attribute name"@,
            SyntaxErrorKind::MissingColon => "expected ':' after the attribute name"@,
            SyntaxErrorKind::InvalidAttributeValue => "malformed attribute value"@,
            SyntaxErrorKind::UnterminatedString => "unterminated string"@,
            SyntaxErrorKind::MissingAttributesClose => "expected ',' or '}' in the attribute block"@,
            SyntaxErrorKind::TrailingCharacters => "unexpected characters after '}'"@,
        }
    }

    /// The reason, in words.
    pub fn reason_text(&self) -> (text: String)
        ensures
            text@ == self.reason(),
    {
        match self {
            SyntaxErrorKind::MissingSource => String::from_str(
                "missing source endpoint before '->'",
            ),
            SyntaxErrorKind::MissingArrow => String::from_str(
                "expected '->' after the source endpoint",
            ),
            SyntaxErrorKind::MissingTarget => String::from_str("missing target endpoint after '->'"),
            SyntaxErrorKind::MissingTypeOpen => String::from_str(
                "expected '[' after the target endpoint",
            ),
            SyntaxErrorKind::InvalidRelationType => String::from_str(
                "expected a relation type after '['",
            ),
            SyntaxErrorKind::MissingTypeClose => String::from_str(
                "expected ']' after the relation type",
            ),
            SyntaxErrorKind::MissingAttributesOpen => String::from_str(
                "expected '{' after the relation type",
            ),
            SyntaxErrorKind::InvalidAttributeKey => String::from_str("expected an attribute name"),
            SyntaxErrorKind::MissingColon => String::from_str(
                "expected ':' after the attribute name",
            ),
            SyntaxErrorKind::InvalidAttributeValue => String::from_str("malformed attribute value"),
            SyntaxErrorKind::UnterminatedString => String::from_str("unterminated string"),
            SyntaxErrorKind::MissingAttributesClose => String::from_str(
                "expected ',' or '}' in the attribute block",
            ),
            SyntaxErrorKind::TrailingCharacters => String::from_str(
                "unexpected characters after '}'",
            ),
        }
    }
}

/// A line of the relations language that is no statement.
#[derive(Debug, Clone)]
pub struct RelationsSyntaxError {
    /// The number of the line, counted from 1.
    pub line: usize,
    /// What is wrong with the line.
    pub kind: SyntaxErrorKind,
    /// The same, in words.
    pub reason: String,
}

/// A syntax error as contracts speak of it.
pub struct SyntaxErrorModel {
    pub line: nat,
    pub kind: SyntaxErrorKind,
    pub reason: Seq<char>,
}

impl SyntaxErrorModel {
    /// The error of the given kind on the given line, with the reason that
    /// belongs to the kind.
    pub open spec fn of(line: nat, kind: SyntaxErrorKind) -> SyntaxErrorModel {
        SyntaxErrorModel { line, kind, reason: kind.reason() }
    }
}

impl View for RelationsSyntaxError {
    type V = SyntaxErrorModel;

    open spec fn view(&self) -> SyntaxErrorModel {
        SyntaxErrorModel { line: self.line as nat, kind: self.kind, reason: self.reason@ }
    }
}

impl RelationsSyntaxError {
    /// The error of the given kind on the given line.
    pub fn new(line: usize, kind: SyntaxErrorKind) -> (e: Self)
        ensures
            e.line == line,
            e.kind == kind,
            e.reason@ == kind.reason(),
            e@ == SyntaxErrorModel::of(line as nat, kind),
    {
        RelationsSyntaxError { line, kind, reason: kind.reason_text() }
    }
}

} // verus!
