//! Columnar values, columns, record batches and per-table statistics: the
//! common row/column format into which every tier's results are homogenized.

use vstd::prelude::*;
use crate::lex::{bytes_view, names_sorted};

verus! {

/// One cell of a column. Floating-point cells carry the raw bit pattern of
/// the value, so that the crate stays within verifiable arithmetic.
#[derive(Debug, PartialEq)]
pub enum Value {
    Null,
    Boolean(bool),
    Int64(i64),
    UInt64(u64),
    Float64Bits(u64),
    Utf8(String),
}

/// Mathematical view of a [`Value`]: strings as their byte sequences.
#[verifier::ext_equal]
pub enum ValueV {
    Null,
    Boolean(bool),
    Int64(i64),
    UInt64(u64),
    Float64Bits(u64),
    Utf8(Seq<u8>),
}

impl View for Value {
    type V = ValueV;

    open spec fn view(&self) -> ValueV {
        match self {
            Value::Null => ValueV::Null,
            Value::Boolean(b) => ValueV::Boolean(*b),
            Value::Int64(v) => ValueV::Int64(*v),
            Value::UInt64(v) => ValueV::UInt64(*v),
            Value::Float64Bits(v) => ValueV::Float64Bits(*v),
            Value::Utf8(s) => ValueV::Utf8(bytes_view(s@)),
        }
    }
}

impl Value {
    /// Byte-for-byte copy of a value.
    pub fn duplicate(&self) -> (r: Value)
        ensures
            r@ == self@,
    {
        match self {
            Value::Null => Value::Null,
            Value::Boolean(b) => Value::Boolean(*b),
            Value::Int64(v) => Value::Int64(*v),
            Value::UInt64(v) => Value::UInt64(*v),
            Value::Float64Bits(v) => Value::Float64Bits(*v),
            Value::Utf8(s) => Value::Utf8(s.clone()),
        }
    }
}

/// The views of a cell sequence.
pub open spec fn values_view(v: Seq<Value>) -> Seq<ValueV> {
    Seq::new(v.len(), |i: int| v[i]@)
}

/// A named column and its cells.
#[derive(Debug)]
pub struct Column {
    pub name: String,
    pub values: Vec<Value>,
}

/// Mathematical view of a [`Column`].
#[verifier::ext_equal]
pub struct ColumnV {
    pub name: Seq<u8>,
    pub values: Seq<ValueV>,
}

impl View for Column {
    type V = ColumnV;

    open spec fn view(&self) -> ColumnV {
        ColumnV { name: bytes_view(self.name@), values: values_view(self.values@) }
    }
}

impl Column {
    /// Byte-for-byte copy of a column.
    pub fn duplicate(&self) -> (r: Column)
        ensures
            r@ == self@,
    {
        let mut values: Vec<Value> = Vec::new();
        let mut i: usize = 0;
        while i < self.values.len()
            invariant
                i <= self.values@.len(),
                values@.len() == i,
                forall|j: int| 0 <= j < i ==> values@[j]@ == self.values@[j]@,
            decreases self.values@.len() - i,
        {
            values.push(self.values[i].duplicate());
            i += 1;
        }
        let r = Column { name: self.name.clone(), values };
        proof {
            assert(r@.values =~= self@.values);
            assert(r@ =~= self@);
        }
        r
    }
}

/// The names of a column sequence, in order.
pub open spec fn column_names(cols: Seq<ColumnV>) -> Seq<Seq<u8>> {
    Seq::new(cols.len(), |i: int| cols[i].name)
}

/// One batch of rows in the common columnar format. Every column holds
/// exactly `row_count` cells; a batch may have zero columns and still report
/// how many rows it stands for.
#[derive(Debug)]
pub struct RecordBatch {
    pub row_count: usize,
    pub columns: Vec<Column>,
}

/// Mathematical view of a [`RecordBatch`].
#[verifier::ext_equal]
pub struct BatchV {
    pub row_count: nat,
    pub columns: Seq<ColumnV>,
}

impl View for RecordBatch {
    type V = BatchV;

    open spec fn view(&self) -> BatchV {
        BatchV {
            row_count: self.row_count as nat,
            columns: Seq::new(self.columns@.len(), |i: int| self.columns@[i]@),
        }
    }
}

/// A well-formed batch: every column has exactly `row_count` cells.
pub open spec fn batch_wf(b: BatchV) -> bool {
    forall|i: int| 0 <= i < b.columns.len() ==> #[trigger] b.columns[i].values.len() == b.row_count
}

/// A batch whose columns stand in strictly increasing lexicographic name
/// order, the guarantee every tier gives for an all-columns selection.
pub open spec fn batch_columns_sorted(b: BatchV) -> bool {
    names_sorted(column_names(b.columns))
}

/// The views of a batch sequence.
pub open spec fn batches_view(v: Seq<RecordBatch>) -> Seq<BatchV> {
    Seq::new(v.len(), |i: int| v[i]@)
}

/// The single-column batch a list of names becomes: one row per name, under
/// the given column name.
pub open spec fn names_batch(column_name: Seq<u8>, names: Seq<Seq<u8>>) -> BatchV {
    BatchV {
        row_count: names.len(),
        columns: seq![
            ColumnV {
                name: column_name,
                values: Seq::new(names.len(), |i: int| ValueV::Utf8(names[i])),
            },
        ],
    }
}

/// Summary statistics one tier reports for one table without a full scan.
#[derive(Debug)]
pub struct TableStats {
    pub name: String,
    pub row_count: u64,
}

/// Mathematical view of a [`TableStats`].
#[verifier::ext_equal]
pub struct TableStatsV {
    pub name: Seq<u8>,
    pub row_count: u64,
}

impl View for TableStats {
    type V = TableStatsV;

    open spec fn view(&self) -> TableStatsV {
        TableStatsV { name: bytes_view(self.name@), row_count: self.row_count }
    }
}

} // verus!
