//! A compact notation for filtering, sorting and paging records, as it is
//! carried in the parameters of a request: its grammar, its parser, and the
//! model that the parser builds.
//!
//! A filter expression is a list of clauses between commas, each a field
//! (or `(a|b)` for several), an operator and a value (or `x|y` for
//! several). A sort expression is a list of field names, `-` in front for
//! descending order. `SieveModel::new` reads both, with the page and its
//! size, and never fails: what it does not understand it leaves out.
//! Applying the model to data is the business of whoever implements
//! `SieveFilter`, `SieveOrder` and `SievePaginate`.

use vstd::prelude::*;

pub mod error;
pub mod filter_operator;
pub mod filter_term;
pub mod paged_list;
pub mod sieve_model;
pub mod sieve_regex;
pub mod sort_order;
pub mod sort_term;
pub mod text;

pub use error::{ErrorKind, ParseError};
pub use filter_operator::FilterOperator;
pub use filter_term::FilterTerm;
pub use paged_list::PagedList;
pub use sieve_model::SieveModel;
pub use sieve_regex::COMMA_PATTERN;
pub use sort_order::SortOrder;
pub use sort_term::SortTerm;

verus! {

/// A collection or query that can be narrowed to the records that the
/// filter terms of a model admit.
pub trait SieveFilter {
    type Output;

    fn filter_with(self, sieve: &SieveModel) -> Self::Output;
}

/// A collection or query that can be put in the order that the sort terms
/// of a model ask for.
pub trait SieveOrder {
    type Output;

    fn order_with(self, sieve: &SieveModel) -> Self::Output;
}

/// A collection or query that can be cut down to the page that a model asks
/// for.
pub trait SievePaginate {
    type Output;

    fn paginate_with(self, sieve: &SieveModel) -> Self::Output;
}

} // verus!
