//! One page of records together with the number of all records that match.

use vstd::prelude::*;

verus! {

/// The records of one page, and how many records there are over all pages.
/// Nothing ties the two together: a page may hold fewer records than were
/// asked for.
#[derive(Debug)]
pub struct PagedList<T> {
    items: Vec<T>,
    total: u64,
}

/// What a `PagedList` holds, as plain values.
pub struct PagedListView<T> {
    pub items: Seq<T>,
    pub total: u64,
}

impl<T> View for PagedList<T> {
    type V = PagedListView<T>;

    closed spec fn view(&self) -> PagedListView<T> {
        PagedListView { items: self.items@, total: self.total }
    }
}

impl<T> PagedList<T> {
    /// A page that holds `items`, out of `total` matching records.
    pub fn new(items: Vec<T>, total: u64) -> (list: Self)
        ensures
            list@ == (PagedListView { items: items@, total }),
    {
        Self { items, total }
    }

    /// The records of this page, in order.
    pub fn items(&self) -> (items: &Vec<T>)
        ensures
            items@ == self@.items,
    {
        &self.items
    }

    /// The number of matching records over all pages.
    pub fn total(&self) -> (total: u64)
        ensures
            total == self@.total,
    {
        self.total
    }
}

} // verus!
