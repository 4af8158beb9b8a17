//! The direction of a sort.

use vstd::prelude::*;

verus! {

/// The direction in which a field is sorted.
#[derive(Clone, Copy, Debug, PartialEq, Eq, Structural)]
pub enum SortOrder {
    /// Smallest first.
    Ascending,
    /// Largest first; written with a leading `-`.
    Descending,
}

} // verus!
