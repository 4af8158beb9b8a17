use sieve::{ErrorKind, FilterOperator};
use std::str::FromStr;

#[test]
fn every_spelling_names_its_operator() {
    assert_eq!(FilterOperator::from_str("=="), Ok(FilterOperator::Equals));
    assert_eq!(FilterOperator::from_str("!="), Ok(FilterOperator::NotEquals));
    assert_eq!(FilterOperator::from_str(">"), Ok(FilterOperator::GreaterThan));
    assert_eq!(FilterOperator::from_str("<"), Ok(FilterOperator::LessThan));
    assert_eq!(FilterOperator::from_str(">="), Ok(FilterOperator::GreaterThanOrEqualTo));
    assert_eq!(FilterOperator::from_str("<="), Ok(FilterOperator::LessThanOrEqualTo));
    assert_eq!(FilterOperator::from_str("@="), Ok(FilterOperator::Contains));
    assert_eq!(FilterOperator::from_str("_="), Ok(FilterOperator::StartsWith));
    assert_eq!(FilterOperator::from_str("_-="), Ok(FilterOperator::EndsWith));
}

#[test]
fn negated_spellings_name_the_same_operator() {
    assert_eq!(FilterOperator::from_str("!@="), Ok(FilterOperator::Contains));
    assert_eq!(FilterOperator::from_str("!_="), Ok(FilterOperator::StartsWith));
    assert_eq!(FilterOperator::from_str("!_-="), Ok(FilterOperator::EndsWith));
}

#[test]
fn one_trailing_marker_is_taken_off() {
    assert_eq!(FilterOperator::from_str("==*"), Ok(FilterOperator::Equals));
    assert_eq!(FilterOperator::from_str("@=*"), Ok(FilterOperator::Contains));
    assert_eq!(FilterOperator::from_str("!_-=*"), Ok(FilterOperator::EndsWith));
    assert_eq!(FilterOperator::from_str(">*"), Ok(FilterOperator::GreaterThan));
}

#[test]
fn a_second_marker_is_not_taken_off() {
    let error = FilterOperator::from_str("==**").unwrap_err();
    assert_eq!(error.kind, ErrorKind::UnknownOperator);
    assert_eq!(error.text, "==**");
}

#[test]
fn unknown_token_is_reported_as_given() {
    let error = FilterOperator::from_str("=~").unwrap_err();
    assert_eq!(error.kind, ErrorKind::UnknownOperator);
    assert_eq!(error.text, "=~");
    assert_eq!(error.message(), "Неизвестный оператор: =~");
}

#[test]
fn unknown_token_with_marker_keeps_the_marker_in_the_report() {
    let error = FilterOperator::from_str("=*").unwrap_err();
    assert_eq!(error.kind, ErrorKind::UnknownOperator);
    assert_eq!(error.text, "=*");
}

#[test]
fn empty_token_and_lone_marker_are_unknown() {
    assert_eq!(FilterOperator::from_str("").unwrap_err().kind, ErrorKind::UnknownOperator);
    assert_eq!(FilterOperator::from_str("*").unwrap_err().kind, ErrorKind::UnknownOperator);
}

#[test]
fn white_space_around_a_token_is_not_ignored() {
    assert!(FilterOperator::from_str(" ==").is_err());
    assert!(FilterOperator::from_str("== ").is_err());
}

#[test]
fn marker_or_contains_ignores_case() {
    assert!(FilterOperator::ignores_case("@="));
    assert!(FilterOperator::ignores_case("==*"));
    assert!(FilterOperator::ignores_case("@=*"));
    assert!(FilterOperator::ignores_case("*"));
    assert!(!FilterOperator::ignores_case("=="));
    assert!(!FilterOperator::ignores_case("!@="));
    assert!(!FilterOperator::ignores_case("_="));
    assert!(!FilterOperator::ignores_case(""));
}
