//! The query model: page, page size, filter terms and sort terms, built
//! from the four raw inputs of a request.

use crate::filter_term::{filter_views, parsed_term, FilterTerm, FilterTermView};
use crate::sieve_regex::{regex_split, split_by_pattern, COMMA_PATTERN};
use crate::sort_term::{parsed_sort, sort_views, SortTerm, SortTermView};
use crate::text::{chars_of, contents, ranges_within, selected, split, split_ranges};
use core::str::FromStr;
use vstd::prelude::*;
use vstd::string::StrSliceExecFns;

verus! {

/// The page that is served when none is asked for.
pub const DEFAULT_PAGE: u64 = 1;

/// The page size that is used when none is asked for.
pub const DEFAULT_PAGE_SIZE: u64 = 100;

/// What a request asks for. It is built once and never changes afterwards.
#[derive(Debug)]
pub struct SieveModel {
    page: u64,
    page_size: u64,
    filters: Option<Vec<FilterTerm>>,
    sorts: Option<Vec<SortTerm>>,
}

/// What a `SieveModel` holds, as plain values.
pub struct SieveModelView {
    pub page: u64,
    pub page_size: u64,
    /// `None` when the request had no filter expression.
    pub filters: Option<Seq<FilterTermView>>,
    /// `None` when the request had no sort expression.
    pub sorts: Option<Seq<SortTermView>>,
}

impl View for SieveModel {
    type V = SieveModelView;

    closed spec fn view(&self) -> SieveModelView {
        SieveModelView {
            page: self.page,
            page_size: self.page_size,
            filters: optional_filter_views(self.filters),
            sorts: optional_sort_views(self.sorts),
        }
    }
}

/// The views of the filter terms, where there are any.
pub open spec fn optional_filter_views(terms: Option<Vec<FilterTerm>>) -> Option<
    Seq<FilterTermView>,
> {
    match terms {
        Some(terms) => Some(filter_views(terms@)),
        None => None,
    }
}

/// The views of the sort terms, where there are any.
pub open spec fn optional_sort_views(terms: Option<Vec<SortTerm>>) -> Option<Seq<SortTermView>> {
    match terms {
        Some(terms) => Some(sort_views(terms@)),
        None => None,
    }
}

/// The text of the expression, where there is one.
pub open spec fn optional_text(expression: Option<String>) -> Option<Seq<char>> {
    match expression {
        Some(expression) => Some(expression@),
        None => None,
    }
}

/// The filter terms of the clauses that parse, in the order of the clauses.
/// A clause that does not parse is left out.
pub open spec fn kept_filters(clauses: Seq<Seq<char>>) -> Seq<FilterTermView> {
    clauses.filter_map(|clause: Seq<char>| parsed_term(clause))
}

/// The sort terms of the clauses that parse, in the order of the clauses.
/// A clause that does not parse is left out.
pub open spec fn kept_sorts(clauses: Seq<Seq<char>>) -> Seq<SortTermView> {
    clauses.filter_map(|clause: Seq<char>| parsed_sort(clause))
}

/// The clauses of a filter expression: what stands between its commas,
/// white space included.
pub open spec fn filter_clauses(expression: Seq<char>) -> Seq<Seq<char>> {
    split(expression, ',')
}

/// The clauses of a sort expression: what the engine cuts it into at
/// `COMMA_PATTERN`. Should the engine reject the pattern, no clause can be
/// told from the next and there are none.
pub open spec fn sort_clauses(expression: Seq<char>) -> Seq<Seq<char>> {
    match regex_split(COMMA_PATTERN@, expression) {
        Some(pieces) => pieces,
        None => Seq::empty(),
    }
}

/// The filter terms of a request: absent when it has no filter expression,
/// else the terms of those clauses that parse.
pub open spec fn parsed_filters(expression: Option<Seq<char>>) -> Option<Seq<FilterTermView>> {
    match expression {
        Some(expression) => Some(kept_filters(filter_clauses(expression))),
        None => None,
    }
}

/// The sort terms of a request: absent when it has no sort expression, else
/// the terms of those clauses that parse.
pub open spec fn parsed_sorts(expression: Option<Seq<char>>) -> Option<Seq<SortTermView>> {
    match expression {
        Some(expression) => Some(kept_sorts(sort_clauses(expression))),
        None => None,
    }
}

/// The model of a request, from its four raw inputs.
pub open spec fn built_model(
    page: Option<u64>,
    page_size: Option<u64>,
    filters: Option<Seq<char>>,
    sorts: Option<Seq<char>>,
) -> SieveModelView {
    SieveModelView {
        page: match page {
            Some(page) => page,
            None => DEFAULT_PAGE,
        },
        page_size: match page_size {
            Some(page_size) => page_size,
            None => DEFAULT_PAGE_SIZE,
        },
        filters: parsed_filters(filters),
        sorts: parsed_sorts(sorts),
    }
}

/// A request with no inputs asks for the first page, a hundred records to
/// the page, unfiltered and unsorted.
pub proof fn lemma_defaults()
    ensures
        built_model(None, None, None, None) == (SieveModelView {
            page: 1,
            page_size: 100,
            filters: None,
            sorts: None,
        }),
{
}

/// Terms are absent exactly when the expression is: an expression that was
/// supplied gives a sequence of terms, however few of its clauses parse.
pub proof fn lemma_absent_iff_not_supplied(
    page: Option<u64>,
    page_size: Option<u64>,
    filters: Option<Seq<char>>,
    sorts: Option<Seq<char>>,
)
    ensures
        built_model(page, page_size, filters, sorts).filters is None <==> filters is None,
        built_model(page, page_size, filters, sorts).sorts is None <==> sorts is None,
{
}

/// One more clause adds its term to the kept ones if it parses, and nothing
/// if it does not: a clause that fails never disturbs the others.
pub proof fn lemma_kept_filters_step(clauses: Seq<Seq<char>>, clause: Seq<char>)
    ensures
        kept_filters(clauses.push(clause)) == (match parsed_term(clause) {
            Some(term) => kept_filters(clauses).push(term),
            None => kept_filters(clauses),
        }),
{
    assert(clauses.push(clause).drop_last() =~= clauses);
    match parsed_term(clause) {
        Some(term) => {
            assert(kept_filters(clauses) + seq![term] =~= kept_filters(clauses).push(term));
        },
        None => {},
    }
}

/// One more clause adds its term to the kept ones if it parses, and nothing
/// if it does not: a clause that fails never disturbs the others.
pub proof fn lemma_kept_sorts_step(clauses: Seq<Seq<char>>, clause: Seq<char>)
    ensures
        kept_sorts(clauses.push(clause)) == (match parsed_sort(clause) {
            Some(term) => kept_sorts(clauses).push(term),
            None => kept_sorts(clauses),
        }),
{
    assert(clauses.push(clause).drop_last() =~= clauses);
    match parsed_sort(clause) {
        Some(term) => {
            assert(kept_sorts(clauses) + seq![term] =~= kept_sorts(clauses).push(term));
        },
        None => {},
    }
}

/// A copy of each filter term, in the same order.
fn copy_filters(terms: &Vec<FilterTerm>) -> (copy: Vec<FilterTerm>)
    ensures
        filter_views(copy@) == filter_views(terms@),
{
    let mut copy: Vec<FilterTerm> = Vec::new();
    let mut i: usize = 0;
    while i < terms.len()
        invariant
            i <= terms.len(),
            filter_views(copy@) == filter_views(terms@.take(i as int)),
        decreases terms.len() - i,
    {
        let ghost before = copy@;
        copy.push(terms[i].clone());
        proof {
            assert(filter_views(copy@) =~= filter_views(before).push(terms@[i as int]@));
            assert(filter_views(terms@.take(i + 1)) =~= filter_views(terms@.take(i as int)).push(
                terms@[i as int]@,
            ));
        }
        i += 1;
    }
    assert(terms@.take(terms.len() as int) =~= terms@);
    copy
}

/// A copy of each sort term, in the same order.
fn copy_sorts(terms: &Vec<SortTerm>) -> (copy: Vec<SortTerm>)
    ensures
        sort_views(copy@) == sort_views(terms@),
{
    let mut copy: Vec<SortTerm> = Vec::new();
    let mut i: usize = 0;
    while i < terms.len()
        invariant
            i <= terms.len(),
            sort_views(copy@) == sort_views(terms@.take(i as int)),
        decreases terms.len() - i,
    {
        let ghost before = copy@;
        copy.push(terms[i].clone());
        proof {
            assert(sort_views(copy@) =~= sort_views(before).push(terms@[i as int]@));
            assert(sort_views(terms@.take(i + 1)) =~= sort_views(terms@.take(i as int)).push(
                terms@[i as int]@,
            ));
        }
        i += 1;
    }
    assert(terms@.take(terms.len() as int) =~= terms@);
    copy
}

impl SieveModel {
    /// Builds the model of a request. This never fails: a clause that does
    /// not parse is left out, and the others are kept in their order.
    pub fn new(
        page: &Option<u64>,
        page_size: &Option<u64>,
        filters: &Option<String>,
        sorts: &Option<String>,
    ) -> (model: Self)
        ensures
            model@ == built_model(*page, *page_size, optional_text(*filters), optional_text(*sorts)),
    {
        Self {
            page: match page {
                Some(page) => *page,
                None => DEFAULT_PAGE,
            },
            page_size: match page_size {
                Some(page_size) => *page_size,
                None => DEFAULT_PAGE_SIZE,
            },
            filters: SieveModel::parse_filters(filters),
            sorts: SieveModel::parse_sorts(sorts),
        }
    }

    /// The number of the page, counted from 1.
    pub fn page(&self) -> (page: u64)
        ensures
            page == self@.page,
    {
        self.page
    }

    /// The number of records to a page.
    pub fn page_size(&self) -> (page_size: u64)
        ensures
            page_size == self@.page_size,
    {
        self.page_size
    }

    /// The filter terms, in the order of their clauses; `None` when the
    /// request had no filter expression.
    pub fn filters(&self) -> (filters: Option<Vec<FilterTerm>>)
        ensures
            optional_filter_views(filters) == self@.filters,
    {
        match &self.filters {
            Some(terms) => Some(copy_filters(terms)),
            None => None,
        }
    }

    /// The sort terms, in the order of their clauses; `None` when the
    /// request had no sort expression.
    pub fn sorts(&self) -> (sorts: Option<Vec<SortTerm>>)
        ensures
            optional_sort_views(sorts) == self@.sorts,
    {
        match &self.sorts {
            Some(terms) => Some(copy_sorts(terms)),
            None => None,
        }
    }

    /// Cuts a filter expression at its commas and keeps the term of every
    /// clause that parses.
    pub fn parse_filters(filters: &Option<String>) -> (terms: Option<Vec<FilterTerm>>)
        ensures
            optional_filter_views(terms) == parsed_filters(optional_text(*filters)),
    {
        match filters {
            None => None,
            Some(expression) => {
                let text = expression.as_str();
                let chars = chars_of(text);
                let n = chars.len();
                let ranges = split_ranges(&chars, 0, n, ',');
                let ghost clauses = filter_clauses(text@);
                assert(chars@.subrange(0, n as int) =~= chars@);
                let mut result: Vec<FilterTerm> = Vec::new();
                let mut k: usize = 0;
                assert(clauses.take(0) =~= Seq::empty());
                while k < ranges.len()
                    invariant
                        k <= ranges.len(),
                        chars@ == text@,
                        n == chars.len(),
                        selected(chars@, ranges@) == clauses,
                        ranges_within(ranges@, 0, n as int),
                        filter_views(result@) == kept_filters(clauses.take(k as int)),
                    decreases ranges.len() - k,
                {
                    let (start, end) = ranges[k];
                    assert(0 <= ranges@[k as int].0 <= ranges@[k as int].1 <= n);
                    let clause = text.substring_char(start, end);
                    let ghost before = result@;
                    proof {
                        assert(clauses[k as int] == selected(chars@, ranges@)[k as int]);
                        assert(clauses.take(k + 1) =~= clauses.take(k as int).push(clause@));
                        lemma_kept_filters_step(clauses.take(k as int), clause@);
                    }
                    match FilterTerm::from_str(clause) {
                        Ok(term) => {
                            result.push(term);
                            assert(filter_views(result@) =~= filter_views(before).push(term@));
                        },
                        Err(_) => {},
                    }
                    k += 1;
                }
                assert(clauses.take(ranges.len() as int) =~= clauses);
                Some(result)
            },
        }
    }

    /// Cuts a sort expression at `COMMA_PATTERN` and keeps the term of every
    /// clause that parses.
    pub fn parse_sorts(sorts: &Option<String>) -> (terms: Option<Vec<SortTerm>>)
        ensures
            optional_sort_views(terms) == parsed_sorts(optional_text(*sorts)),
    {
        match sorts {
            None => None,
            Some(expression) => {
                match split_by_pattern(COMMA_PATTERN, expression.as_str()) {
                    Some(clauses) => Some(SieveModel::collect_sorts(&clauses)),
                    None => {
                        let none: Vec<SortTerm> = Vec::new();
                        assert(sort_views(none@) =~= kept_sorts(Seq::empty()));
                        Some(none)
                    },
                }
            },
        }
    }

    /// The sort terms of the clauses that parse, in the order of the
    /// clauses.
    pub fn collect_sorts(clauses: &Vec<String>) -> (terms: Vec<SortTerm>)
        ensures
            sort_views(terms@) == kept_sorts(contents(clauses@)),
    {
        let ghost texts = contents(clauses@);
        let mut terms: Vec<SortTerm> = Vec::new();
        let mut k: usize = 0;
        assert(texts.take(0) =~= Seq::empty());
        while k < clauses.len()
            invariant
                k <= clauses.len(),
                texts == contents(clauses@),
                sort_views(terms@) == kept_sorts(texts.take(k as int)),
            decreases clauses.len() - k,
        {
            let clause = clauses[k].as_str();
            let ghost before = terms@;
            proof {
                assert(texts.take(k + 1) =~= texts.take(k as int).push(clause@));
                lemma_kept_sorts_step(texts.take(k as int), clause@);
            }
            match SortTerm::from_str(clause) {
                Ok(term) => {
                    terms.push(term);
                    assert(sort_views(terms@) =~= sort_views(before).push(term@));
                },
                Err(_) => {},
            }
            k += 1;
        }
        assert(texts.take(clauses.len() as int) =~= texts);
        terms
    }
}

impl Clone for SieveModel {
    fn clone(&self) -> (copy: SieveModel)
        ensures
            copy@ == self@,
    {
        SieveModel {
            page: self.page,
            page_size: self.page_size,
            filters: self.filters(),
            sorts: self.sorts(),
        }
    }
}

} // verus!
