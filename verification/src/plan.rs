//! Deferred scan plans.
//!
//! A plan stands for a computation not yet run: the implemented tiers satisfy
//! it eagerly by lifting already-materialized literal batches into a "scan
//! these batches" value, leaving the asynchronous shape reserved for tiers
//! whose lookup genuinely requires further scheduling. Executing the plan is
//! the consumer's business, cancellation included.

use vstd::prelude::*;
use vstd::string::StringSliceAdditionalSpecFns;
use crate::data::{batches_view, names_batch, BatchV, Column, RecordBatch, Value};
use crate::lex::names_view;

verus! {

/// A plan that, when executed, yields exactly the batches it carries, in
/// order.
#[derive(Debug)]
pub struct ScanPlan {
    pub batches: Vec<RecordBatch>,
}

impl View for ScanPlan {
    type V = Seq<BatchV>;

    open spec fn view(&self) -> Seq<BatchV> {
        batches_view(self.batches@)
    }
}

/// Lifts one literal batch into a trivial "scan this batch" plan; both
/// implemented tiers present their name enumerations through this shape.
pub fn make_scan_plan(batch: RecordBatch) -> (r: ScanPlan)
    ensures
        r@ =~= seq![batch@],
{
    let mut batches: Vec<RecordBatch> = Vec::new();
    batches.push(batch);
    ScanPlan { batches }
}

/// Wraps a list of names into a single-column batch of one row per name,
/// under the given column name.
pub fn str_iter_to_batch(column_name: &str, names: Vec<String>) -> (r: RecordBatch)
    ensures
        r@ =~= names_batch(column_name.spec_bytes(), names_view(names@)),
{
    let row_count = names.len();
    let mut values: Vec<Value> = Vec::new();
    let mut i: usize = 0;
    while i < names.len()
        invariant
            i <= names@.len(),
            values@.len() == i,
            forall|j: int| 0 <= j < i ==> values@[j]@ == crate::data::ValueV::Utf8(names_view(names@)[j]),
        decreases names@.len() - i,
    {
        values.push(Value::Utf8(names[i].clone()));
        i += 1;
    }
    let column = Column { name: column_name.to_owned(), values };
    let mut columns: Vec<Column> = Vec::new();
    columns.push(column);
    let r = RecordBatch { row_count, columns };
    proof {
        let expected = names_batch(column_name.spec_bytes(), names_view(names@));
        assert(r@.columns[0].values =~= expected.columns[0].values);
        assert(r@.columns[0] =~= expected.columns[0]);
        assert(r@.columns =~= expected.columns);
    }
    r
}

} // verus!
