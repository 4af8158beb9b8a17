use sieve::{ErrorKind, FilterOperator, FilterTerm};
use std::str::FromStr;

fn strings(items: &[&str]) -> Vec<String> {
    items.iter().map(|item| item.to_string()).collect()
}

#[test]
fn plain_clause_for_each_token() {
    let cases = [
        ("title==Rock", FilterOperator::Equals),
        ("title!=Rock", FilterOperator::NotEquals),
        ("title>=Rock", FilterOperator::GreaterThanOrEqualTo),
        ("title<=Rock", FilterOperator::LessThanOrEqualTo),
        ("title>Rock", FilterOperator::GreaterThan),
        ("title<Rock", FilterOperator::LessThan),
        ("title@=Rock", FilterOperator::Contains),
        ("title_=Rock", FilterOperator::StartsWith),
        ("title_-=Rock", FilterOperator::EndsWith),
    ];
    for (clause, operator) in cases {
        let term = FilterTerm::from_str(clause).unwrap();
        assert_eq!(term.names(), strings(&["title"]));
        assert_eq!(term.values(), strings(&["Rock"]));
        assert_eq!(term.operator(), operator);
        assert_eq!(term.case_insensitive(), operator == FilterOperator::Contains);
    }
}

#[test]
fn grouped_fields() {
    let term = FilterTerm::from_str("(title|artist)@=Rock").unwrap();
    assert_eq!(term.names(), strings(&["title", "artist"]));
    assert_eq!(term.operator(), FilterOperator::Contains);
    assert_eq!(term.values(), strings(&["Rock"]));
    assert!(term.case_insensitive());
}

#[test]
fn grouped_fields_are_trimmed_one_by_one() {
    let term = FilterTerm::from_str("( title | artist |album )==x").unwrap();
    assert_eq!(term.names(), strings(&["title", "artist", "album"]));
    assert_eq!(term.values(), strings(&["x"]));
}

#[test]
fn grouped_clause_with_empty_list() {
    let term = FilterTerm::from_str("()==x").unwrap();
    assert_eq!(term.names(), strings(&[""]));
    assert_eq!(term.values(), strings(&["x"]));
}

#[test]
fn opening_bracket_without_closing_one_is_part_of_the_field() {
    let term = FilterTerm::from_str("(title==Rock").unwrap();
    assert_eq!(term.names(), strings(&["(title"]));
    assert_eq!(term.operator(), FilterOperator::Equals);
    assert_eq!(term.values(), strings(&["Rock"]));
}

#[test]
fn closing_bracket_in_the_value_closes_the_group() {
    let term = FilterTerm::from_str("(a==b)c").unwrap();
    assert_eq!(term.names(), strings(&["a==b"]));
    assert_eq!(term.operator(), FilterOperator::Equals);
    assert_eq!(term.values(), strings(&[""]));
}

#[test]
fn multi_value() {
    let term = FilterTerm::from_str("title==Rock|Pop").unwrap();
    assert_eq!(term.names(), strings(&["title"]));
    assert_eq!(term.values(), strings(&["Rock", "Pop"]));
    assert_eq!(term.operator(), FilterOperator::Equals);
    assert!(!term.case_insensitive());
}

#[test]
fn values_are_trimmed_and_empty_ones_kept() {
    let term = FilterTerm::from_str("title== Rock | | Pop|").unwrap();
    assert_eq!(term.values(), strings(&["Rock", "", "Pop", ""]));
}

#[test]
fn clause_and_field_are_trimmed() {
    let term = FilterTerm::from_str("  title  ==  Rock  ").unwrap();
    assert_eq!(term.names(), strings(&["title"]));
    assert_eq!(term.values(), strings(&["Rock"]));
}

#[test]
fn contains_ignores_case_without_marker() {
    let term = FilterTerm::from_str("title@=Rock").unwrap();
    assert_eq!(term.operator(), FilterOperator::Contains);
    assert!(term.case_insensitive());
}

#[test]
fn marker_behind_the_token_stays_in_the_value() {
    let term = FilterTerm::from_str("title==*Rock").unwrap();
    assert_eq!(term.operator(), FilterOperator::Equals);
    assert_eq!(term.values(), strings(&["*Rock"]));
    assert!(!term.case_insensitive());
}

#[test]
fn longer_token_wins_over_its_prefix() {
    let term = FilterTerm::from_str("n>=5").unwrap();
    assert_eq!(term.operator(), FilterOperator::GreaterThanOrEqualTo);
    assert_eq!(term.values(), strings(&["5"]));
    let term = FilterTerm::from_str("n>5").unwrap();
    assert_eq!(term.operator(), FilterOperator::GreaterThan);
    assert_eq!(term.values(), strings(&["5"]));
}

#[test]
fn negated_match_token_is_not_among_the_clause_tokens() {
    let term = FilterTerm::from_str("title!@=Rock").unwrap();
    assert_eq!(term.names(), strings(&["title"]));
    assert_eq!(term.operator(), FilterOperator::Equals);
    assert_eq!(term.values(), strings(&["=Rock"]));
    assert!(!term.case_insensitive());
}

#[test]
fn field_without_operator_defaults_to_equals() {
    let term = FilterTerm::from_str("title").unwrap();
    assert_eq!(term.names(), strings(&["title"]));
    assert_eq!(term.operator(), FilterOperator::Equals);
    assert_eq!(term.values(), strings(&[""]));
    assert!(!term.case_insensitive());
}

#[test]
fn single_equals_sign_defaults_to_equals() {
    let term = FilterTerm::from_str("a=b").unwrap();
    assert_eq!(term.names(), strings(&["a"]));
    assert_eq!(term.operator(), FilterOperator::Equals);
    assert_eq!(term.values(), strings(&[""]));
    let term = FilterTerm::from_str("a=bcd").unwrap();
    assert_eq!(term.values(), strings(&["cd"]));
}

#[test]
fn remainder_of_one_character_defaults_to_equals() {
    let term = FilterTerm::from_str("a-").unwrap();
    assert_eq!(term.names(), strings(&["a"]));
    assert_eq!(term.operator(), FilterOperator::Equals);
    assert_eq!(term.values(), strings(&[""]));
}

#[test]
fn underscore_in_a_name_ends_the_field() {
    let term = FilterTerm::from_str("bad_clause_with_no_operator_chars").unwrap();
    assert_eq!(term.names(), strings(&["bad"]));
    assert_eq!(term.operator(), FilterOperator::Equals);
    assert_eq!(term.values(), strings(&["lause_with_no_operator_chars"]));
}

#[test]
fn clause_that_begins_with_a_token_has_an_empty_field() {
    let term = FilterTerm::from_str("==x").unwrap();
    assert_eq!(term.names(), strings(&[""]));
    assert_eq!(term.values(), strings(&["x"]));
}

#[test]
fn text_outside_ascii_is_read_by_character() {
    let term = FilterTerm::from_str("название@=Рок|Поп").unwrap();
    assert_eq!(term.names(), strings(&["название"]));
    assert_eq!(term.operator(), FilterOperator::Contains);
    assert_eq!(term.values(), strings(&["Рок", "Поп"]));
    let term = FilterTerm::from_str("a=é").unwrap();
    assert_eq!(term.names(), strings(&["a"]));
    assert_eq!(term.values(), strings(&[""]));
}

#[test]
fn white_space_outside_ascii_is_trimmed() {
    let term = FilterTerm::from_str("\u{a0}title\u{2003}==\u{3000}Rock\u{a0}").unwrap();
    assert_eq!(term.names(), strings(&["title"]));
    assert_eq!(term.values(), strings(&["Rock"]));
}

#[test]
fn empty_clause_is_rejected() {
    let error = FilterTerm::from_str("").unwrap_err();
    assert_eq!(error.kind, ErrorKind::EmptyFilter);
    assert_eq!(error.text, "");
    assert_eq!(error.message(), "Filter is empty");
}

#[test]
fn blank_clause_is_rejected_and_reported_as_given() {
    let error = FilterTerm::from_str(" \t\n").unwrap_err();
    assert_eq!(error.kind, ErrorKind::EmptyFilter);
    assert_eq!(error.text, " \t\n");
}

#[test]
fn names_and_values_are_never_empty() {
    for clause in ["x", "==", "()", "(", "|", "a==", "(a|b)", "-", "*"] {
        let term = FilterTerm::from_str(clause).unwrap();
        assert!(!term.names().is_empty());
        assert!(!term.values().is_empty());
    }
}

#[test]
fn clone_keeps_every_part() {
    let term = FilterTerm::from_str("(a|b)@=x|y").unwrap();
    let copy = term.clone();
    assert_eq!(copy.names(), term.names());
    assert_eq!(copy.values(), term.values());
    assert_eq!(copy.operator(), term.operator());
    assert_eq!(copy.case_insensitive(), term.case_insensitive());
}
