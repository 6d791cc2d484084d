//! Schemas shared by every chunk of one table.
//!
//! A schema is an ordered list of fields; two schemas are compatible only when
//! they agree field for field on name, data type and nullability. No widening
//! or union is performed: a table view requires byte-for-byte identical
//! schemas from all of its chunks.

use vstd::prelude::*;
use crate::lex::{bytes_view, str_compare, Cmp};

verus! {

/// The data type of one column, as a tag; column values live in
/// [`crate::data::Value`].
#[derive(Clone, Copy, Debug, PartialEq, Eq, Structural)]
pub enum DataType {
    Boolean,
    Int64,
    UInt64,
    Float32,
    Float64,
    Utf8,
}

/// One column of a schema: its name, type and nullability.
#[derive(Debug)]
pub struct Field {
    pub name: String,
    pub data_type: DataType,
    pub nullable: bool,
}

/// Mathematical view of a [`Field`]: the name as its byte sequence.
#[verifier::ext_equal]
pub struct FieldV {
    pub name: Seq<u8>,
    pub data_type: DataType,
    pub nullable: bool,
}

impl View for Field {
    type V = FieldV;

    open spec fn view(&self) -> FieldV {
        FieldV { name: bytes_view(self.name@), data_type: self.data_type, nullable: self.nullable }
    }
}

/// An ordered list of fields.
#[derive(Debug)]
pub struct Schema {
    pub fields: Vec<Field>,
}

impl View for Schema {
    type V = Seq<FieldV>;

    open spec fn view(&self) -> Seq<FieldV> {
        Seq::new(self.fields@.len(), |i: int| self.fields@[i]@)
    }
}

/// Structural equality of two schemas: same length, and fields equal in
/// order, name, type and nullability.
pub open spec fn schema_equal(a: Seq<FieldV>, b: Seq<FieldV>) -> bool {
    a.len() == b.len() && forall|i: int| 0 <= i < a.len() ==> a[i] == b[i]
}

impl Field {
    /// Byte-for-byte copy of a field.
    pub fn duplicate(&self) -> (r: Field)
        ensures
            r@ == self@,
    {
        Field { name: self.name.clone(), data_type: self.data_type, nullable: self.nullable }
    }

    /// Whether two fields agree on name, type and nullability.
    pub fn equal(&self, other: &Field) -> (r: bool)
        ensures
            r == (self@ == other@),
    {
        let names_eq = matches!(str_compare(self.name.as_str(), other.name.as_str()), Cmp::Eq);
        let types_eq = self.data_type == other.data_type;
        let r = names_eq && types_eq && self.nullable == other.nullable;
        proof {
            if self@ == other@ {
                assert(bytes_view(self.name@) == bytes_view(other.name@));
            }
        }
        r
    }
}

impl Schema {
    /// A schema with no fields.
    pub fn new() -> (r: Schema)
        ensures
            r@ =~= Seq::<FieldV>::empty(),
    {
        Schema { fields: Vec::new() }
    }

    /// Appends one field; fields keep the order in which they were added.
    pub fn push_field(&mut self, name: String, data_type: DataType, nullable: bool)
        ensures
            final(self)@ =~= old(self)@.push(
                FieldV { name: bytes_view(name@), data_type, nullable },
            ),
    {
        self.fields.push(Field { name, data_type, nullable });
    }

    /// Structural equality of two schemas.
    pub fn equal(&self, other: &Schema) -> (r: bool)
        ensures
            r == schema_equal(self@, other@),
    {
        if self.fields.len() != other.fields.len() {
            return false;
        }
        let mut i: usize = 0;
        while i < self.fields.len()
            invariant
                i <= self.fields@.len(),
                self.fields@.len() == other.fields@.len(),
                forall|j: int| 0 <= j < i ==> self@[j] == other@[j],
            decreases self.fields@.len() - i,
        {
            if !self.fields[i].equal(&other.fields[i]) {
                assert(self@[i as int] != other@[i as int]);
                return false;
            }
            i += 1;
        }
        true
    }

    /// Byte-for-byte copy of a schema.
    pub fn duplicate(&self) -> (r: Schema)
        ensures
            r@ =~= self@,
    {
        let mut fields: Vec<Field> = Vec::new();
        let mut i: usize = 0;
        while i < self.fields.len()
            invariant
                i <= self.fields@.len(),
                fields@.len() == i,
                forall|j: int| 0 <= j < i ==> fields@[j]@ == self.fields@[j]@,
            decreases self.fields@.len() - i,
        {
            fields.push(self.fields[i].duplicate());
            i += 1;
        }
        Schema { fields }
    }
}

/// Schema equality is reflexive, symmetric and transitive.
pub proof fn lemma_schema_equal_equivalence(a: Seq<FieldV>, b: Seq<FieldV>, c: Seq<FieldV>)
    ensures
        schema_equal(a, a),
        schema_equal(a, b) == schema_equal(b, a),
        schema_equal(a, b) && schema_equal(b, c) ==> schema_equal(a, c),
{
}

} // verus!
