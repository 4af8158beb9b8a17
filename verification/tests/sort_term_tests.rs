use sieve::{ErrorKind, SortOrder, SortTerm};
use std::str::FromStr;

#[test]
fn leading_sign_means_descending() {
    let term = SortTerm::from_str("-x").unwrap();
    assert_eq!(term.order(), SortOrder::Descending);
    assert_eq!(term.name(), "x");
}

#[test]
fn no_sign_means_ascending() {
    let term = SortTerm::from_str("x").unwrap();
    assert_eq!(term.order(), SortOrder::Ascending);
    assert_eq!(term.name(), "x");
}

#[test]
fn created_time_descending() {
    let term = SortTerm::from_str("-created_time").unwrap();
    assert_eq!(term.name(), "created_time");
    assert_eq!(term.order(), SortOrder::Descending);
}

#[test]
fn only_one_sign_is_taken_off() {
    let term = SortTerm::from_str("--x").unwrap();
    assert_eq!(term.order(), SortOrder::Descending);
    assert_eq!(term.name(), "-x");
}

#[test]
fn lone_sign_gives_an_empty_name() {
    let term = SortTerm::from_str("-").unwrap();
    assert_eq!(term.order(), SortOrder::Descending);
    assert_eq!(term.name(), "");
}

#[test]
fn name_is_not_trimmed() {
    let term = SortTerm::from_str(" title ").unwrap();
    assert_eq!(term.order(), SortOrder::Ascending);
    assert_eq!(term.name(), " title ");
    let term = SortTerm::from_str("- title ").unwrap();
    assert_eq!(term.order(), SortOrder::Descending);
    assert_eq!(term.name(), " title ");
}

#[test]
fn sign_behind_white_space_is_part_of_the_name() {
    let term = SortTerm::from_str(" -x").unwrap();
    assert_eq!(term.order(), SortOrder::Ascending);
    assert_eq!(term.name(), " -x");
}

#[test]
fn name_outside_ascii() {
    let term = SortTerm::from_str("-название").unwrap();
    assert_eq!(term.order(), SortOrder::Descending);
    assert_eq!(term.name(), "название");
}

#[test]
fn empty_sort_clause_is_rejected() {
    let error = SortTerm::from_str("").unwrap_err();
    assert_eq!(error.kind, ErrorKind::EmptySort);
    assert_eq!(error.text, "");
    assert_eq!(error.message(), "Sort is empty");
}

#[test]
fn blank_sort_clause_is_rejected() {
    let error = SortTerm::from_str("  \t").unwrap_err();
    assert_eq!(error.kind, ErrorKind::EmptySort);
    assert_eq!(error.text, "  \t");
    assert!(SortTerm::from_str("\u{a0}\u{3000}").is_err());
}

#[test]
fn sort_term_clone_keeps_every_part() {
    let term = SortTerm::from_str("-x").unwrap();
    let copy = term.clone();
    assert_eq!(copy.name(), "x");
    assert_eq!(copy.order(), SortOrder::Descending);
}
