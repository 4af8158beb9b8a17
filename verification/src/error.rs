//! The error that the term parsers report.

use vstd::prelude::*;
use vstd::string::StringExecFns;

verus! {

/// What was wrong with the text handed to a parser.
#[derive(Clone, Copy, Debug, PartialEq, Eq, Structural)]
pub enum ErrorKind {
    /// A filter clause that holds nothing but white space.
    EmptyFilter,
    /// A sort clause that holds nothing but white space.
    EmptySort,
    /// An operator token that is not part of the vocabulary.
    UnknownOperator,
}

/// A parse failure: its kind, and the text that caused it, as it was given.
#[derive(Debug, PartialEq, Eq)]
pub struct ParseError {
    pub kind: ErrorKind,
    pub text: String,
}

/// The message for an error of kind `kind` caused by `text`.
pub open spec fn message_text(kind: ErrorKind, text: Seq<char>) -> Seq<char> {
    match kind {
        ErrorKind::EmptyFilter => "Filter is empty"@,
        ErrorKind::EmptySort => "Sort is empty"@,
        ErrorKind::UnknownOperator => "Неизвестный оператор: "@ + text,
    }
}

impl ParseError {
    /// An error of kind `kind` about `text`.
    pub fn new(kind: ErrorKind, text: &str) -> (e: ParseError)
        ensures
            e.kind == kind,
            e.text@ == text@,
    {
        ParseError { kind, text: text.to_owned() }
    }

    /// A message for the person who wrote the expression. Only an unknown
    /// operator is quoted in it.
    pub fn message(&self) -> (m: String)
        ensures
            m@ == message_text(self.kind, self.text@),
    {
        match self.kind {
            ErrorKind::EmptyFilter => "Filter is empty".to_owned(),
            ErrorKind::EmptySort => "Sort is empty".to_owned(),
            ErrorKind::UnknownOperator => "Неизвестный оператор: ".to_owned().concat(
                self.text.as_str(),
            ),
        }
    }
}

impl Clone for ParseError {
    fn clone(&self) -> (copy: ParseError)
        ensures
            copy.kind == self.kind,
            copy.text@ == self.text@,
    {
        ParseError { kind: self.kind, text: self.text.clone() }
    }
}

} // verus!
