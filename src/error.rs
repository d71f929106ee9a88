//! Errors raised when identifier text is rejected, with the human-readable
//! message for each.

use vstd::prelude::*;

use crate::ident::IdentProblem;

verus! {

/// What kind of text was being read.
#[derive(Debug, Clone, Copy, PartialEq, Eq, Structural)]
pub enum Subject {
    ToolName,
    ToolId,
    ToolSpec,
    ToolAlias,
}

/// The rule that rejected the text.
#[derive(Debug, Clone, Copy, PartialEq, Eq, Structural)]
pub enum ParseErrorKind {
    /// There is no `/` between a scope and a name.
    NameMissing,
    /// The scope breaks an identifier rule.
    InvalidScope(IdentProblem),
    /// The name (or the alias) breaks an identifier rule.
    InvalidName(IdentProblem),
    /// There is no `@` before a version.
    VersionMissing,
    /// The text after `@` is empty or only white space.
    VersionEmpty,
    /// The text after `@` is not a semantic version.
    InvalidVersion,
}

/// Text that could not be read as a tool name, id, spec or alias.
#[derive(Debug, Clone, PartialEq, Eq)]
pub struct ParseError {
    pub subject: Subject,
    pub input: String,
    pub kind: ParseErrorKind,
}

pub open spec fn subject_text(s: Subject) -> Seq<char> {
    match s {
        Subject::ToolName => "Invalid Tool Name \""@,
        Subject::ToolId => "Invalid Tool ID \""@,
        Subject::ToolSpec => "Invalid Tool Spec \""@,
        Subject::ToolAlias => "Invalid Tool Alias \""@,
    }
}

pub open spec fn form_text(s: Subject) -> Seq<char> {
    match s {
        Subject::ToolName => "\". It must be of the form SCOPE/NAME. "@,
        Subject::ToolId => "\". It must be of the form SCOPE/NAME@VERSION. "@,
        Subject::ToolSpec => "\". It must be of the form SCOPE/NAME or SCOPE/NAME@VERSION. "@,
        Subject::ToolAlias => "\". "@,
    }
}

pub open spec fn problem_text(p: IdentProblem) -> Seq<char> {
    match p {
        IdentProblem::Empty => " must be non-empty."@,
        IdentProblem::Blank => " must be non-empty."@,
        IdentProblem::ContainsSlash => " must not contain a slash."@,
    }
}

pub open spec fn kind_text(k: ParseErrorKind) -> Seq<char> {
    match k {
        ParseErrorKind::NameMissing => "NAME is missing."@,
        ParseErrorKind::InvalidScope(p) => "Scope"@ + problem_text(p),
        ParseErrorKind::InvalidName(p) => "Name"@ + problem_text(p),
        ParseErrorKind::VersionMissing => "VERSION is missing."@,
        ParseErrorKind::VersionEmpty => "VERSION must be non-empty."@,
        ParseErrorKind::InvalidVersion => "Invalid version."@,
    }
}

/// The message shown for a rejected text: what was read, the text itself,
/// the expected form, and the rule it broke.
pub open spec fn message_text(subject: Subject, input: Seq<char>, kind: ParseErrorKind) -> Seq<
    char,
> {
    subject_text(subject) + input + form_text(subject) + kind_text(kind)
}

pub fn problem_message(p: IdentProblem) -> (r: &'static str)
    ensures
        r@ == problem_text(p),
{
    match p {
        IdentProblem::Empty => " must be non-empty.",
        IdentProblem::Blank => " must be non-empty.",
        IdentProblem::ContainsSlash => " must not contain a slash.",
    }
}

impl ParseError {
    /// The human-readable message for this error.
    pub fn message(&self) -> (r: String)
        ensures
            r@ == message_text(self.subject, self.input@, self.kind),
    {
        let mut m = String::from_str(
            match self.subject {
                Subject::ToolName => "Invalid Tool Name \"",
                Subject::ToolId => "Invalid Tool ID \"",
                Subject::ToolSpec => "Invalid Tool Spec \"",
                Subject::ToolAlias => "Invalid Tool Alias \"",
            },
        );
        m.append(self.input.as_str());
        m.append(
            match self.subject {
                Subject::ToolName => "\". It must be of the form SCOPE/NAME. ",
                Subject::ToolId => "\". It must be of the form SCOPE/NAME@VERSION. ",
                Subject::ToolSpec => "\". It must be of the form SCOPE/NAME or SCOPE/NAME@VERSION. ",
                Subject::ToolAlias => "\". ",
            },
        );
        match self.kind {
            ParseErrorKind::NameMissing => m.append("NAME is missing."),
            ParseErrorKind::InvalidScope(p) => {
                m.append("Scope");
                m.append(problem_message(p));
            },
            ParseErrorKind::InvalidName(p) => {
                m.append("Name");
                m.append(problem_message(p));
            },
            ParseErrorKind::VersionMissing => m.append("VERSION is missing."),
            ParseErrorKind::VersionEmpty => m.append("VERSION must be non-empty."),
            ParseErrorKind::InvalidVersion => m.append("Invalid version."),
        }
        m
    }
}

} // verus!
