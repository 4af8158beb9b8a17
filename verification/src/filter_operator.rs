//! The operator vocabulary: the closed set of comparison and match
//! operators, and the tokens that spell them.

use crate::error::{ErrorKind, ParseError};
use crate::text::{chars_of, is_token};
use vstd::prelude::*;

verus! {

/// A comparison or match operator of a filter clause.
#[derive(Clone, Copy, Debug, PartialEq, Eq, Structural)]
pub enum FilterOperator {
    /// `==`
    Equals,
    /// `!=`
    NotEquals,
    /// `>`
    GreaterThan,
    /// `<`
    LessThan,
    /// `>=`
    GreaterThanOrEqualTo,
    /// `<=`
    LessThanOrEqualTo,
    /// `@=` and `!@=`
    Contains,
    /// `_=` and `!_=`
    StartsWith,
    /// `_-=` and `!_-=`
    EndsWith,
}

/// The token ends with the case-insensitivity marker `*`.
pub open spec fn has_marker(token: Seq<char>) -> bool {
    token.len() > 0 && token.last() == '*'
}

/// The token without one trailing marker, if it has one.
pub open spec fn strip_marker(token: Seq<char>) -> Seq<char> {
    if has_marker(token) {
        token.drop_last()
    } else {
        token
    }
}

/// The operator that `symbol` spells, a token without marker. The negated
/// spellings of the three match operators name the same operator as the
/// plain ones.
pub open spec fn symbol_operator(symbol: Seq<char>) -> Option<FilterOperator> {
    if symbol == "=="@ {
        Some(FilterOperator::Equals)
    } else if symbol == "!="@ {
        Some(FilterOperator::NotEquals)
    } else if symbol == ">"@ {
        Some(FilterOperator::GreaterThan)
    } else if symbol == "<"@ {
        Some(FilterOperator::LessThan)
    } else if symbol == ">="@ {
        Some(FilterOperator::GreaterThanOrEqualTo)
    } else if symbol == "<="@ {
        Some(FilterOperator::LessThanOrEqualTo)
    } else if symbol == "@="@ || symbol == "!@="@ {
        Some(FilterOperator::Contains)
    } else if symbol == "_="@ || symbol == "!_="@ {
        Some(FilterOperator::StartsWith)
    } else if symbol == "_-="@ || symbol == "!_-="@ {
        Some(FilterOperator::EndsWith)
    } else {
        None
    }
}

/// The operator that `token` names, with or without a trailing marker.
pub open spec fn token_operator(token: Seq<char>) -> Option<FilterOperator> {
    symbol_operator(strip_marker(token))
}

/// Whether a clause written with `token` ignores case: the token carries the
/// marker, or it is `@=`, which ignores case by itself.
pub open spec fn token_ignores_case(token: Seq<char>) -> bool {
    has_marker(token) || token == "@="@
}

impl FilterOperator {
    /// Whether a clause written with `token` compares without regard to case.
    pub fn ignores_case(token: &str) -> (b: bool)
        ensures
            b == token_ignores_case(token@),
    {
        let chars = chars_of(token);
        let n = chars.len();
        assert(chars@.subrange(0, n as int) =~= chars@);
        (n > 0 && chars[n - 1] == '*') || is_token(&chars, 0, n, "@=")
    }
}

impl core::str::FromStr for FilterOperator {
    type Err = ParseError;

    /// Looks `s` up in the vocabulary, after taking one trailing marker off.
    /// A token that the vocabulary lacks is reported as it was given.
    fn from_str(s: &str) -> (r: Result<FilterOperator, ParseError>)
        ensures
            match r {
                Ok(operator) => token_operator(s@) == Some(operator),
                Err(e) => token_operator(s@) is None && e.kind == ErrorKind::UnknownOperator
                    && e.text@ == s@,
            },
    {
        let chars = chars_of(s);
        let n = chars.len();
        let end = if n > 0 && chars[n - 1] == '*' {
            n - 1
        } else {
            n
        };
        assert(chars@.subrange(0, end as int) =~= strip_marker(s@));
        if is_token(&chars, 0, end, "==") {
            Ok(FilterOperator::Equals)
        } else if is_token(&chars, 0, end, "!=") {
            Ok(FilterOperator::NotEquals)
        } else if is_token(&chars, 0, end, ">") {
            Ok(FilterOperator::GreaterThan)
        } else if is_token(&chars, 0, end, "<") {
            Ok(FilterOperator::LessThan)
        } else if is_token(&chars, 0, end, ">=") {
            Ok(FilterOperator::GreaterThanOrEqualTo)
        } else if is_token(&chars, 0, end, "<=") {
            Ok(FilterOperator::LessThanOrEqualTo)
        } else if is_token(&chars, 0, end, "@=") || is_token(&chars, 0, end, "!@=") {
            Ok(FilterOperator::Contains)
        } else if is_token(&chars, 0, end, "_=") || is_token(&chars, 0, end, "!_=") {
            Ok(FilterOperator::StartsWith)
        } else if is_token(&chars, 0, end, "_-=") || is_token(&chars, 0, end, "!_-=") {
            Ok(FilterOperator::EndsWith)
        } else {
            Err(ParseError::new(ErrorKind::UnknownOperator, s))
        }
    }
}

/// The vocabulary, token by token: each spelling names one operator.
pub proof fn lemma_vocabulary()
    ensures
        token_operator("=="@) == Some(FilterOperator::Equals),
        token_operator("!="@) == Some(FilterOperator::NotEquals),
        token_operator(">"@) == Some(FilterOperator::GreaterThan),
        token_operator("<"@) == Some(FilterOperator::LessThan),
        token_operator(">="@) == Some(FilterOperator::GreaterThanOrEqualTo),
        token_operator("<="@) == Some(FilterOperator::LessThanOrEqualTo),
        token_operator("@="@) == Some(FilterOperator::Contains),
        token_operator("!@="@) == Some(FilterOperator::Contains),
        token_operator("_="@) == Some(FilterOperator::StartsWith),
        token_operator("!_="@) == Some(FilterOperator::StartsWith),
        token_operator("_-="@) == Some(FilterOperator::EndsWith),
        token_operator("!_-="@) == Some(FilterOperator::EndsWith),
{
    reveal_strlit("==");
    reveal_strlit("!=");
    reveal_strlit(">");
    reveal_strlit("<");
    reveal_strlit(">=");
    reveal_strlit("<=");
    reveal_strlit("@=");
    reveal_strlit("!@=");
    reveal_strlit("_=");
    reveal_strlit("!_=");
    reveal_strlit("_-=");
    reveal_strlit("!_-=");
    // Naming the first two characters of each spelling lets the solver tell
    // the spellings of equal length apart.
    assert("=="@[0] == '=' && "=="@[1] == '=');
    assert("!="@[0] == '!' && "!="@[1] == '=');
    assert(">"@[0] == '>');
    assert("<"@[0] == '<');
    assert(">="@[0] == '>' && ">="@[1] == '=');
    assert("<="@[0] == '<' && "<="@[1] == '=');
    assert("@="@[0] == '@' && "@="@[1] == '=');
    assert("_="@[0] == '_' && "_="@[1] == '=');
    assert("!@="@[0] == '!' && "!@="@[1] == '@');
    assert("!_="@[0] == '!' && "!_="@[1] == '_');
    assert("_-="@[0] == '_' && "_-="@[1] == '-');
    assert("!_-="@[0] == '!' && "!_-="@[1] == '_');
}

/// A trailing marker does not change which operator a token names, and it
/// makes the clause ignore case; `@=` ignores case without it.
pub proof fn lemma_marker(token: Seq<char>)
    requires
        !has_marker(token),
    ensures
        token_operator(token.push('*')) == token_operator(token),
        token_ignores_case(token.push('*')),
        token_ignores_case("@="@),
{
    assert(token.push('*').drop_last() =~= token);
}

} // verus!
