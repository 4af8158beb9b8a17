//! The delimiter of a sort expression, and the regular-expression engine
//! that splits on it.

use crate::text::contents;
use regex::Regex;
use vstd::prelude::*;

verus! {

/// The delimiter between the clauses of a sort expression: a comma and the
/// white space that follows it.
pub const COMMA_PATTERN: &'static str = ",\\s*";

/// The pieces that `regex::Regex::split` cuts `haystack` into with the
/// expression that `regex::Regex::new` compiles from `pattern`; `None` where
/// `Regex::new` rejects the pattern.
pub uninterp spec fn regex_split(pattern: Seq<char>, haystack: Seq<char>) -> Option<
    Seq<Seq<char>>,
>;

/// The character content of the strings, where there are any.
pub open spec fn optional_contents(strings: Option<Vec<String>>) -> Option<Seq<Seq<char>>> {
    match strings {
        Some(strings) => Some(contents(strings@)),
        None => None,
    }
}

/// Compiles `pattern` with `regex::Regex::new` and cuts `haystack` with
/// `regex::Regex::split`, each piece copied into a string of its own.
/// `None` stands for the error of `Regex::new`. Nothing is claimed of the
/// outcome but that it depends on the two texts alone.
#[verifier::external_body]
pub(crate) fn split_by_pattern(pattern: &str, haystack: &str) -> (pieces: Option<Vec<String>>)
    ensures
        optional_contents(pieces) == regex_split(pattern@, haystack@),
{
    match Regex::new(pattern) {
        Ok(expression) => Some(expression.split(haystack).map(|piece| piece.to_string()).collect()),
        Err(_) => None,
    }
}

} // verus!
