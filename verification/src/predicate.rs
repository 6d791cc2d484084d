//! Tier-agnostic predicates and their tier-native translations.
//!
//! A predicate may restrict the table names an enumeration sees and may name
//! the field columns a match must involve. Each tier consumes its own
//! translation: the read tier has no native notion of a field-column
//! restriction, so translating a predicate that carries one fails with a
//! conversion error rather than being silently dropped.

use vstd::prelude::*;
use crate::lex::{clone_names, names_contain, names_view};

verus! {

/// A tier-agnostic filter over tables.
#[derive(Debug)]
pub struct Predicate {
    /// Restrict to tables of these names; `None` places no restriction.
    pub table_names: Option<Vec<String>>,
    /// Restrict to tables holding at least these field columns; `None`
    /// places no restriction.
    pub field_columns: Option<Vec<String>>,
}

/// Mathematical view of a [`Predicate`].
#[verifier::ext_equal]
pub struct PredicateV {
    pub table_names: Option<Seq<Seq<u8>>>,
    pub field_columns: Option<Seq<Seq<u8>>>,
}

impl View for Predicate {
    type V = PredicateV;

    open spec fn view(&self) -> PredicateV {
        PredicateV {
            table_names: match self.table_names {
                None => None,
                Some(ns) => Some(names_view(ns@)),
            },
            field_columns: match self.field_columns {
                None => None,
                Some(ns) => Some(names_view(ns@)),
            },
        }
    }
}

/// Whether a name-list restriction lets a table name through.
pub open spec fn restriction_admits(restriction: Option<Seq<Seq<u8>>>, name: Seq<u8>) -> bool {
    match restriction {
        None => true,
        Some(ns) => names_contain(ns, name),
    }
}

/// Step-by-step construction of a [`Predicate`]; an empty builder yields the
/// match-everything predicate.
#[derive(Debug)]
pub struct PredicateBuilder {
    pub predicate: Predicate,
}

impl View for PredicateBuilder {
    type V = PredicateV;

    open spec fn view(&self) -> PredicateV {
        self.predicate@
    }
}

impl PredicateBuilder {
    /// A builder for the predicate that matches everything.
    pub fn new() -> (r: PredicateBuilder)
        ensures
            r@ == (PredicateV { table_names: None, field_columns: None }),
    {
        PredicateBuilder { predicate: Predicate { table_names: None, field_columns: None } }
    }

    /// Restricts the predicate to tables of the given names.
    pub fn table_names(self, names: Vec<String>) -> (r: PredicateBuilder)
        ensures
            r@ == (PredicateV { table_names: Some(names_view(names@)), ..self@ }),
    {
        let PredicateBuilder { predicate } = self;
        PredicateBuilder {
            predicate: Predicate { table_names: Some(names), field_columns: predicate.field_columns },
        }
    }

    /// Restricts the predicate to tables holding the given field columns.
    pub fn field_columns(self, names: Vec<String>) -> (r: PredicateBuilder)
        ensures
            r@ == (PredicateV { field_columns: Some(names_view(names@)), ..self@ }),
    {
        let PredicateBuilder { predicate } = self;
        PredicateBuilder {
            predicate: Predicate { table_names: predicate.table_names, field_columns: Some(names) },
        }
    }

    /// The finished predicate.
    pub fn build(self) -> (r: Predicate)
        ensures
            r@ == self@,
    {
        self.predicate
    }
}

impl Default for PredicateBuilder {
    /// The builder of the match-everything predicate.
    fn default() -> (r: PredicateBuilder)
        ensures
            r@ == (PredicateV { table_names: None, field_columns: None }),
    {
        PredicateBuilder::new()
    }
}

/// The read tier's native predicate: only a table-name restriction.
#[derive(Debug)]
pub struct ReadPredicate {
    pub table_names: Option<Vec<String>>,
}

/// Mathematical view of a [`ReadPredicate`].
#[verifier::ext_equal]
pub struct ReadPredicateV {
    pub table_names: Option<Seq<Seq<u8>>>,
}

impl View for ReadPredicate {
    type V = ReadPredicateV;

    open spec fn view(&self) -> ReadPredicateV {
        ReadPredicateV {
            table_names: match self.table_names {
                None => None,
                Some(ns) => Some(names_view(ns@)),
            },
        }
    }
}

/// A predicate that the read tier cannot represent.
#[derive(Clone, Copy, Debug, PartialEq, Eq, Structural)]
pub enum ConversionError {
    /// The read tier has no native field-column restriction.
    FieldColumnsUnsupported,
}

/// Translates a tier-agnostic predicate into the read tier's native form.
/// Succeeds exactly on predicates without a field-column restriction.
pub fn to_read_buffer_predicate(predicate: &Predicate) -> (r: Result<ReadPredicate, ConversionError>)
    ensures
        match r {
            Ok(rp) => predicate@.field_columns is None && rp@.table_names
                == predicate@.table_names,
            Err(e) => predicate@.field_columns is Some && e
                == ConversionError::FieldColumnsUnsupported,
        },
{
    if predicate.field_columns.is_some() {
        return Err(ConversionError::FieldColumnsUnsupported);
    }
    let table_names = match &predicate.table_names {
        None => None,
        Some(ns) => Some(clone_names(ns)),
    };
    Ok(ReadPredicate { table_names })
}

} // verus!
