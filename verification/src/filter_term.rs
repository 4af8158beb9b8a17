//! One filter clause, parsed: the fields it names, the operator, the values
//! it compares with, and whether it ignores case.

use crate::error::{ErrorKind, ParseError};
use crate::filter_operator::{
    lemma_vocabulary, token_ignores_case, token_operator, FilterOperator,
};
use crate::text::{
    chars_of, contents, find_char, first_in, has_prefix, is_blank, is_trimmed,
    lemma_first_in_bounds, lemma_first_in_is, lemma_split_nonempty,
    lemma_split_without_separator, lemma_trim_empty_iff_blank, split, split_trimmed, trim,
    trim_each, trim_range, trimmed,
};
use vstd::prelude::*;
use vstd::string::StrSliceExecFns;

verus! {

/// A filtering condition. It is built by parsing one clause and never
/// changes afterwards.
#[derive(Debug)]
pub struct FilterTerm {
    names: Vec<String>,
    values: Vec<String>,
    operator: FilterOperator,
    case_insensitive: bool,
}

/// What a `FilterTerm` holds, as plain values.
pub struct FilterTermView {
    /// The field names, in the order written; more than one for `(a|b)`.
    pub names: Seq<Seq<char>>,
    /// The values, in the order written; more than one for `x|y`.
    pub values: Seq<Seq<char>>,
    pub operator: FilterOperator,
    pub case_insensitive: bool,
}

impl FilterTermView {
    /// A term names at least one field and one value, and a `Contains` term
    /// ignores case.
    pub open spec fn well_formed(self) -> bool {
        &&& self.names.len() > 0
        &&& self.values.len() > 0
        &&& self.operator == FilterOperator::Contains ==> self.case_insensitive
    }
}

impl View for FilterTerm {
    type V = FilterTermView;

    closed spec fn view(&self) -> FilterTermView {
        FilterTermView {
            names: contents(self.names@),
            values: contents(self.values@),
            operator: self.operator,
            case_insensitive: self.case_insensitive,
        }
    }
}

/// The view of each term, in the same order.
pub open spec fn filter_views(terms: Seq<FilterTerm>) -> Seq<FilterTermView> {
    terms.map_values(|term: FilterTerm| term@)
}

/// The characters at which a field name ends and an operator may begin.
pub open spec fn operator_chars() -> Set<char> {
    set!['=', '!', '<', '>', '@', '_', '-']
}

/// A trimmed clause that opens with `(` and holds a `)` lists its fields
/// between the two.
pub open spec fn is_grouped(t: Seq<char>) -> bool {
    t.len() > 0 && t.first() == '(' && first_in(t, set![')']) < t.len()
}

/// Where the field segment of the trimmed clause `t` ends and the remainder
/// begins: behind the first `)` of a grouped clause, else at the first
/// operator character, or at the end when there is none.
pub open spec fn remainder_start(t: Seq<char>) -> int {
    if is_grouped(t) {
        first_in(t, set![')']) + 1
    } else {
        first_in(t, operator_chars())
    }
}

/// The field names of the trimmed clause `t`, each trimmed.
pub open spec fn field_names(t: Seq<char>) -> Seq<Seq<char>> {
    if is_grouped(t) {
        trim_each(split(t.subrange(1, first_in(t, set![')'])), '|'))
    } else {
        seq![trim(t.take(first_in(t, operator_chars())))]
    }
}

/// The operator token that opens `rest`: the first, in this order, of the
/// nine tokens that is a prefix of it. `None` when none is.
pub open spec fn matched_token(rest: Seq<char>) -> Option<Seq<char>> {
    if "=="@.is_prefix_of(rest) {
        Some("=="@)
    } else if "!="@.is_prefix_of(rest) {
        Some("!="@)
    } else if ">="@.is_prefix_of(rest) {
        Some(">="@)
    } else if "<="@.is_prefix_of(rest) {
        Some("<="@)
    } else if ">"@.is_prefix_of(rest) {
        Some(">"@)
    } else if "<"@.is_prefix_of(rest) {
        Some("<"@)
    } else if "@="@.is_prefix_of(rest) {
        Some("@="@)
    } else if "_="@.is_prefix_of(rest) {
        Some("_="@)
    } else if "_-="@.is_prefix_of(rest) {
        Some("_-="@)
    } else {
        None
    }
}

/// The token that the clause is read with: the matched one, or `==` when
/// none matched.
pub open spec fn operator_token(rest: Seq<char>) -> Seq<char> {
    match matched_token(rest) {
        Some(token) => token,
        None => "=="@,
    }
}

/// What follows the operator token in `rest`. A token that was assumed
/// rather than matched still takes its length off the front, or all of
/// `rest` where that is shorter.
pub open spec fn value_segment(rest: Seq<char>) -> Seq<char> {
    let width = operator_token(rest).len();
    if width <= rest.len() {
        rest.skip(width as int)
    } else {
        Seq::empty()
    }
}

/// The term that `clause` describes; `None` for a clause that holds nothing
/// but white space, the only one that is rejected.
pub open spec fn parsed_term(clause: Seq<char>) -> Option<FilterTermView> {
    let t = trim(clause);
    if t.len() == 0 {
        None
    } else {
        let rest = t.skip(remainder_start(t));
        let token = operator_token(rest);
        Some(
            FilterTermView {
                names: field_names(t),
                values: trim_each(split(value_segment(rest), '|')),
                operator: match token_operator(token) {
                    Some(operator) => operator,
                    None => FilterOperator::Equals,
                },
                case_insensitive: token_ignores_case(token),
            },
        )
    }
}

/// A field name as one writes it in a plain clause: not empty, no white
/// space at its ends, no operator character in it, and no `(` in front.
pub open spec fn is_plain_field(field: Seq<char>) -> bool {
    &&& field.len() > 0
    &&& is_trimmed(field)
    &&& field.first() != '('
    &&& forall|i: int| 0 <= i < field.len() ==> !operator_chars().contains(#[trigger] field[i])
}

/// A single value: not empty, no white space at its ends, no `|` in it.
pub open spec fn is_plain_value(value: Seq<char>) -> bool {
    &&& value.len() > 0
    &&& is_trimmed(value)
    &&& forall|i: int| 0 <= i < value.len() ==> #[trigger] value[i] != '|'
}

/// One of the nine tokens that a clause is searched for.
pub open spec fn is_clause_token(token: Seq<char>) -> bool {
    ||| token == "=="@
    ||| token == "!="@
    ||| token == ">="@
    ||| token == "<="@
    ||| token == ">"@
    ||| token == "<"@
    ||| token == "@="@
    ||| token == "_="@
    ||| token == "_-="@
}

proof fn reveal_clause_tokens()
    ensures
        "=="@ == seq!['=', '='],
        "!="@ == seq!['!', '='],
        ">="@ == seq!['>', '='],
        "<="@ == seq!['<', '='],
        ">"@ == seq!['>'],
        "<"@ == seq!['<'],
        "@="@ == seq!['@', '='],
        "_="@ == seq!['_', '='],
        "_-="@ == seq!['_', '-', '='],
{
    reveal_strlit("==");
    reveal_strlit("!=");
    reveal_strlit(">=");
    reveal_strlit("<=");
    reveal_strlit(">");
    reveal_strlit("<");
    reveal_strlit("@=");
    reveal_strlit("_=");
    reveal_strlit("_-=");
    assert("=="@ =~= seq!['=', '=']);
    assert("!="@ =~= seq!['!', '=']);
    assert(">="@ =~= seq!['>', '=']);
    assert("<="@ =~= seq!['<', '=']);
    assert(">"@ =~= seq!['>']);
    assert("<"@ =~= seq!['<']);
    assert("@="@ =~= seq!['@', '=']);
    assert("_="@ =~= seq!['_', '=']);
    assert("_-="@ =~= seq!['_', '-', '=']);
}

/// A prefix of `s` agrees with `s` at its first two positions, as far as it
/// has them: enough to tell the nine tokens apart.
proof fn lemma_prefix_agrees(prefix: Seq<char>, s: Seq<char>)
    ensures
        prefix.is_prefix_of(s) && prefix.len() >= 1 ==> prefix[0] == s[0],
        prefix.is_prefix_of(s) && prefix.len() >= 2 ==> prefix[1] == s[1],
{
    if prefix.is_prefix_of(s) {
        let head = s.subrange(0, prefix.len() as int);
        if prefix.len() >= 1 {
            assert(prefix[0] == head[0]);
        }
        if prefix.len() >= 2 {
            assert(prefix[1] == head[1]);
        }
    }
}

/// The token a clause is read with is always one of the nine.
pub proof fn lemma_operator_token_listed(rest: Seq<char>)
    ensures
        is_clause_token(operator_token(rest)),
{
}

/// Every term that parsing yields is well formed.
pub proof fn lemma_parsed_term_well_formed(clause: Seq<char>)
    ensures
        parsed_term(clause) matches Some(term) ==> term.well_formed(),
{
    let t = trim(clause);
    if t.len() > 0 {
        let rest = t.skip(remainder_start(t));
        lemma_split_nonempty(t.subrange(1, first_in(t, set![')'])), '|');
        lemma_split_nonempty(value_segment(rest), '|');
        lemma_operator_token_listed(rest);
        lemma_vocabulary();
    }
}

/// A clause is rejected exactly when it holds nothing but white space.
pub proof fn lemma_rejected_iff_blank(clause: Seq<char>)
    ensures
        parsed_term(clause) is None <==> is_blank(clause),
{
    lemma_trim_empty_iff_blank(clause);
}

/// A clause in which no operator token follows the field is not rejected:
/// it is read as an `Equals` clause.
pub proof fn lemma_default_operator(clause: Seq<char>)
    requires
        !is_blank(clause),
        matched_token(trim(clause).skip(remainder_start(trim(clause)))) is None,
    ensures
        parsed_term(clause) matches Some(term) && term.operator == FilterOperator::Equals
            && !term.case_insensitive,
{
    lemma_trim_empty_iff_blank(clause);
    lemma_vocabulary();
    reveal_clause_tokens();
    assert("=="@.last() == '=');
    assert("@="@[0] != "=="@[0]);
}

/// A plain clause, `field`, one of the nine tokens, `value`, parses into
/// that field, that value and the operator that the token names. Only `@=`
/// makes it ignore case. A value that begins with `=` cannot follow `>` or
/// `<`, with which it would read as `>=` or `<=`.
pub proof fn lemma_plain_clause(field: Seq<char>, token: Seq<char>, value: Seq<char>)
    requires
        is_plain_field(field),
        is_clause_token(token),
        is_plain_value(value),
        token.len() == 1 ==> value.first() != '=',
    ensures
        parsed_term(field + token + value) == Some(
            FilterTermView {
                names: seq![field],
                values: seq![value],
                operator: token_operator(token)->0,
                case_insensitive: token == "@="@,
            },
        ),
        token_operator(token) is Some,
{
    let t = field + token + value;
    let rest = token + value;
    reveal_clause_tokens();
    lemma_vocabulary();
    assert(t.first() == field.first());
    assert(t.last() == value.last());
    assert(trim(t) == t);
    assert(token.len() > 0 && operator_chars().contains(token[0]));
    assert forall|j: int| 0 <= j < field.len() implies !operator_chars().contains(
        #[trigger] t[j],
    ) by {
        assert(t[j] == field[j]);
    }
    lemma_first_in_is(t, operator_chars(), field.len() as int);
    assert(!is_grouped(t));
    assert(t.take(field.len() as int) =~= field);
    assert(t.skip(field.len() as int) =~= rest);
    assert(rest.subrange(0, token.len() as int) =~= token);
    assert(rest[0] == token[0]);
    if token.len() >= 2 {
        assert(rest[1] == token[1]);
    } else {
        assert(rest[1] == value[0]);
    }
    assert(matched_token(rest) == Some(token)) by {
        lemma_prefix_agrees("=="@, rest);
        lemma_prefix_agrees("!="@, rest);
        lemma_prefix_agrees(">="@, rest);
        lemma_prefix_agrees("<="@, rest);
        lemma_prefix_agrees(">"@, rest);
        lemma_prefix_agrees("<"@, rest);
        lemma_prefix_agrees("@="@, rest);
        lemma_prefix_agrees("_="@, rest);
    }
    assert(rest.skip(token.len() as int) =~= value);
    lemma_split_without_separator(value, '|');
    assert(trim_each(seq![value]) =~= seq![trim(value)]);
}

/// Whether `c` may begin an operator.
fn is_operator_char(c: char) -> (b: bool)
    ensures
        b == operator_chars().contains(c),
{
    c == '=' || c == '!' || c == '<' || c == '>' || c == '@' || c == '_' || c == '-'
}

/// First position in `from..to` that holds an operator character, or `to`.
fn find_operator_char(chars: &Vec<char>, from: usize, to: usize) -> (at: usize)
    requires
        from <= to <= chars.len(),
    ensures
        from <= at <= to,
        at - from == first_in(chars@.subrange(from as int, to as int), operator_chars()),
{
    let ghost text = chars@.subrange(from as int, to as int);
    let mut at = from;
    while at < to && !is_operator_char(chars[at])
        invariant
            from <= at <= to <= chars.len(),
            text == chars@.subrange(from as int, to as int),
            forall|j: int| 0 <= j < at - from ==> !operator_chars().contains(#[trigger] text[j]),
        decreases to - at,
    {
        at += 1;
    }
    proof {
        lemma_first_in_is(text, operator_chars(), at - from);
    }
    at
}

/// The token that `chars[from..to]` is read with.
fn detect_operator(chars: &Vec<char>, from: usize, to: usize) -> (token: &'static str)
    requires
        from <= to <= chars.len(),
    ensures
        token@ == operator_token(chars@.subrange(from as int, to as int)),
{
    if has_prefix(chars, from, to, "==") {
        "=="
    } else if has_prefix(chars, from, to, "!=") {
        "!="
    } else if has_prefix(chars, from, to, ">=") {
        ">="
    } else if has_prefix(chars, from, to, "<=") {
        "<="
    } else if has_prefix(chars, from, to, ">") {
        ">"
    } else if has_prefix(chars, from, to, "<") {
        "<"
    } else if has_prefix(chars, from, to, "@=") {
        "@="
    } else if has_prefix(chars, from, to, "_=") {
        "_="
    } else if has_prefix(chars, from, to, "_-=") {
        "_-="
    } else {
        "=="
    }
}

/// A copy of each string, in the same order.
fn copy_strings(strings: &Vec<String>) -> (copy: Vec<String>)
    ensures
        contents(copy@) == contents(strings@),
{
    let mut copy: Vec<String> = Vec::new();
    let mut i: usize = 0;
    while i < strings.len()
        invariant
            i <= strings.len(),
            contents(copy@) == contents(strings@.take(i as int)),
        decreases strings.len() - i,
    {
        let ghost before = copy@;
        copy.push(strings[i].clone());
        proof {
            assert(contents(copy@) =~= contents(before).push(strings@[i as int]@));
            assert(contents(strings@.take(i + 1)) =~= contents(strings@.take(i as int)).push(
                strings@[i as int]@,
            ));
        }
        i += 1;
    }
    assert(strings@.take(strings.len() as int) =~= strings@);
    copy
}

impl FilterTerm {
    #[verifier::type_invariant]
    spec fn type_inv(&self) -> bool {
        self@.well_formed()
    }

    /// The names of the fields that the condition applies to. Never empty.
    pub fn names(&self) -> (names: Vec<String>)
        ensures
            contents(names@) == self@.names,
            names.len() > 0,
    {
        proof {
            use_type_invariant(self);
        }
        let names = copy_strings(&self.names);
        assert(contents(names@).len() == names@.len());
        names
    }

    /// The values that the fields are compared with. Never empty.
    pub fn values(&self) -> (values: Vec<String>)
        ensures
            contents(values@) == self@.values,
            values.len() > 0,
    {
        proof {
            use_type_invariant(self);
        }
        let values = copy_strings(&self.values);
        assert(contents(values@).len() == values@.len());
        values
    }

    /// The operator of the condition.
    pub fn operator(&self) -> (operator: FilterOperator)
        ensures
            operator == self@.operator,
    {
        self.operator
    }

    /// Whether the condition compares without regard to case. Always true
    /// of a `Contains` condition.
    pub fn case_insensitive(&self) -> (flag: bool)
        ensures
            flag == self@.case_insensitive,
            self@.operator == FilterOperator::Contains ==> flag,
    {
        proof {
            use_type_invariant(self);
        }
        self.case_insensitive
    }
}

impl Clone for FilterTerm {
    fn clone(&self) -> (copy: FilterTerm)
        ensures
            copy@ == self@,
    {
        proof {
            use_type_invariant(self);
        }
        FilterTerm {
            names: copy_strings(&self.names),
            values: copy_strings(&self.values),
            operator: self.operator,
            case_insensitive: self.case_insensitive,
        }
    }
}

/// The field names of the trimmed clause `t`, and where its remainder
/// begins. `chars` holds the characters of `t`.
fn read_fields(t: &str, chars: &Vec<char>) -> (r: (Vec<String>, usize))
    requires
        chars@ == t@,
        chars.len() > 0,
    ensures
        contents(r.0@) == field_names(t@),
        r.1 == remainder_start(t@),
        r.1 <= chars.len(),
{
    let n = chars.len();
    assert(chars@.subrange(0, n as int) =~= chars@);
    let close = find_char(chars, 0, n, ')');
    if chars[0] == '(' && close < n {
        proof {
            lemma_first_in_bounds(chars@.drop_first(), set![')']);
        }
        (split_trimmed(t, chars, 1, close, '|'), close + 1)
    } else {
        let stop = find_operator_char(chars, 0, n);
        let (a, b) = trim_range(chars, 0, stop);
        let mut names: Vec<String> = Vec::new();
        names.push(t.substring_char(a, b).to_owned());
        assert(contents(names@) =~= seq![trim(chars@.take(stop as int))]);
        (names, stop)
    }
}

/// The operator token of the remainder `chars[rest_at..]` of the trimmed
/// clause `t`, and the values that follow it. `chars` holds the characters
/// of `t`.
fn read_values(t: &str, chars: &Vec<char>, rest_at: usize) -> (r: (&'static str, Vec<String>))
    requires
        chars@ == t@,
        rest_at <= chars.len(),
    ensures
        r.0@ == operator_token(t@.skip(rest_at as int)),
        contents(r.1@) == trim_each(split(value_segment(t@.skip(rest_at as int)), '|')),
{
    let n = chars.len();
    let ghost rest = chars@.skip(rest_at as int);
    assert(chars@.subrange(rest_at as int, n as int) =~= rest);
    let token = detect_operator(chars, rest_at, n);
    let width = token.unicode_len();
    let value_at = if width <= n - rest_at {
        rest_at + width
    } else {
        n
    };
    assert(chars@.subrange(value_at as int, n as int) =~= value_segment(rest));
    (token, split_trimmed(t, chars, value_at, n, '|'))
}

impl core::str::FromStr for FilterTerm {
    type Err = ParseError;

    /// Parses one clause of a filter expression. Only a clause that holds
    /// nothing but white space is rejected; anything else yields a term,
    /// read as an `Equals` clause where no operator token is found.
    fn from_str(filter: &str) -> (r: Result<FilterTerm, ParseError>)
        ensures
            match r {
                Ok(term) => parsed_term(filter@) == Some(term@),
                Err(e) => parsed_term(filter@) is None && e.kind == ErrorKind::EmptyFilter
                    && e.text@ == filter@,
            },
            r is Err <==> is_blank(filter@),
    {
        proof {
            lemma_trim_empty_iff_blank(filter@);
        }
        let t = trimmed(filter);
        let chars = chars_of(t);
        if chars.len() == 0 {
            return Err(ParseError::new(ErrorKind::EmptyFilter, filter));
        }
        let (names, rest_at) = read_fields(t, &chars);
        let (token, values) = read_values(t, &chars, rest_at);
        let operator = match FilterOperator::from_str(token) {
            Ok(operator) => operator,
            Err(_) => FilterOperator::Equals,
        };
        let case_insensitive = FilterOperator::ignores_case(token);
        proof {
            lemma_parsed_term_well_formed(filter@);
        }
        Ok(FilterTerm { names, values, operator, case_insensitive })
    }
}

} // verus!
