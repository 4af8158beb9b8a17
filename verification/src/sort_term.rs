//! One sort clause, parsed: the field and the direction.

use crate::error::{ErrorKind, ParseError};
use crate::sort_order::SortOrder;
use crate::text::{chars_of, is_blank, lemma_trim_empty_iff_blank, trim_range};
use vstd::prelude::*;
use vstd::string::StrSliceExecFns;

verus! {

/// A sort condition. It is built by parsing one clause and never changes
/// afterwards.
#[derive(Debug)]
pub struct SortTerm {
    name: String,
    order: SortOrder,
}

/// What a `SortTerm` holds, as plain values.
pub struct SortTermView {
    pub name: Seq<char>,
    pub order: SortOrder,
}

impl View for SortTerm {
    type V = SortTermView;

    closed spec fn view(&self) -> SortTermView {
        SortTermView { name: self.name@, order: self.order }
    }
}

/// The view of each term, in the same order.
pub open spec fn sort_views(terms: Seq<SortTerm>) -> Seq<SortTermView> {
    terms.map_values(|term: SortTerm| term@)
}

/// The term that `clause` describes; `None` for a clause that holds nothing
/// but white space. A leading `-` asks for descending order and is not part
/// of the name; nothing else is taken off the name, white space included.
pub open spec fn parsed_sort(clause: Seq<char>) -> Option<SortTermView> {
    if is_blank(clause) {
        None
    } else if clause.first() == '-' {
        Some(SortTermView { name: clause.drop_first(), order: SortOrder::Descending })
    } else {
        Some(SortTermView { name: clause, order: SortOrder::Ascending })
    }
}

/// The sign decides the direction, and with the name it gives the clause
/// back: a descending term came from `-` and its name, an ascending one
/// from its name alone.
pub proof fn lemma_sign_and_name(clause: Seq<char>)
    requires
        !is_blank(clause),
    ensures
        parsed_sort(clause) matches Some(term) && clause == (match term.order {
            SortOrder::Descending => seq!['-'] + term.name,
            SortOrder::Ascending => term.name,
        }),
        parsed_sort(clause)->0.order == SortOrder::Descending <==> clause.first() == '-',
{
    if clause.len() > 0 && clause.first() == '-' {
        assert(clause =~= seq!['-'] + clause.drop_first());
    }
}

impl SortTerm {
    /// The name of the field to sort by, without the sign.
    pub fn name(&self) -> (name: String)
        ensures
            name@ == self@.name,
    {
        self.name.clone()
    }

    /// The direction of the sort.
    pub fn order(&self) -> (order: SortOrder)
        ensures
            order == self@.order,
    {
        self.order
    }
}

impl Clone for SortTerm {
    fn clone(&self) -> (copy: SortTerm)
        ensures
            copy@ == self@,
    {
        SortTerm { name: self.name.clone(), order: self.order }
    }
}

impl core::str::FromStr for SortTerm {
    type Err = ParseError;

    /// Parses one clause of a sort expression. Only a clause that holds
    /// nothing but white space is rejected.
    fn from_str(sort: &str) -> (r: Result<SortTerm, ParseError>)
        ensures
            match r {
                Ok(term) => parsed_sort(sort@) == Some(term@),
                Err(e) => parsed_sort(sort@) is None && e.kind == ErrorKind::EmptySort && e.text@
                    == sort@,
            },
            r is Err <==> is_blank(sort@),
    {
        let chars = chars_of(sort);
        let n = chars.len();
        let (a, b) = trim_range(&chars, 0, n);
        proof {
            assert(chars@.subrange(0, n as int) =~= chars@);
            lemma_trim_empty_iff_blank(sort@);
        }
        if a == b {
            return Err(ParseError::new(ErrorKind::EmptySort, sort));
        }
        if chars[0] == '-' {
            let name = sort.substring_char(1, n).to_owned();
            assert(sort@.subrange(1, n as int) =~= sort@.drop_first());
            Ok(SortTerm { name, order: SortOrder::Descending })
        } else {
            Ok(SortTerm { name: sort.to_owned(), order: SortOrder::Ascending })
        }
    }
}

} // verus!
