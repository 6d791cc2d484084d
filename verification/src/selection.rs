//! Which columns of a table a caller wants, independent of storage tier.

use vstd::prelude::*;
use vstd::string::StringSliceAdditionalSpecFns;

verus! {

/// This represents the request to select a set of columns from a table.
///
/// The selection never owns the underlying strings: it only references names
/// supplied by the caller for the duration of one request. Names are taken
/// verbatim, with no deduplication or validation at this layer; an empty list
/// means "select zero columns", never "select all".
#[derive(Clone, Copy, Debug)]
pub enum Selection<'a> {
    /// Return all columns, sorted lexicographically by name.
    AllColumns,
    /// Return only the named columns, in the order given.
    SpecifiedColumns(&'a [&'a str]),
}

/// Mathematical view of a [`Selection`]: requested names as byte sequences.
#[verifier::ext_equal]
pub enum SelectionV {
    All,
    Cols(Seq<Seq<u8>>),
}

impl View for Selection<'_> {
    type V = SelectionV;

    open spec fn view(&self) -> SelectionV {
        match self {
            Selection::AllColumns => SelectionV::All,
            Selection::SpecifiedColumns(names) => SelectionV::Cols(
                Seq::new(names@.len(), |i: int| names@[i].spec_bytes()),
            ),
        }
    }
}

impl<'a> Selection<'a> {
    /// Convenience construction of a `SpecifiedColumns` selection from an
    /// ordered sequence of column names.
    pub fn of_columns(names: &'a [&'a str]) -> (r: Selection<'a>)
        ensures
            r@ == SelectionV::Cols(Seq::new(names@.len(), |i: int| names@[i].spec_bytes())),
    {
        Selection::SpecifiedColumns(names)
    }
}

} // verus!
