//! The chunk dispatcher: one tagged value per storage tier.
//!
//! A database chunk can come from one of three places: the mutable write
//! buffer, the read-optimized store, or an immutable columnar file. The
//! variant tag is fixed at construction; every capability call dispatches on
//! it, translating the tier-agnostic request into the tier's native call and
//! wrapping the tier's error with the tier's identity — and, for the read
//! tier, with the originating chunk id. The immutable-file variant only
//! reserves the shape of the union: every operation on it fails with an
//! unimplemented-capability error.

use vstd::prelude::*;
use vstd::string::StringSliceAdditionalSpecFns;
use crate::data::{
    batch_columns_sorted, batch_wf, batches_view, names_batch, BatchV, RecordBatch, TableStats,
    TableStatsV,
};
use crate::lex::names_view;
use crate::mutable::{
    chunk_is_empty, first_unknown_column, mb_table_to_arrow, mutable_chunk_wf, stats_of,
    MutableChunk, MutableChunkV, MutableError,
};
use crate::plan::{make_scan_plan, str_iter_to_batch, ScanPlan};
use crate::predicate::{
    to_read_buffer_predicate, ConversionError, Predicate, PredicateBuilder, PredicateV,
    ReadPredicateV,
};
use crate::read::{
    read_database_wf, spec_read_filter, spec_read_table_names, PartitionV, ReadDatabase, ReadError,
};
use crate::selection::{Selection, SelectionV};
use crate::table::matching_table_names;

verus! {

/// Failure of one capability call, wrapped with the identity of the tier it
/// originated in.
#[derive(Debug)]
#[allow(inconsistent_fields)]
pub enum Error {
    /// The mutable write buffer failed.
    MutableBufferChunk { source: MutableError },
    /// The read store failed inside the chunk of the given id.
    ReadBufferChunk { source: ReadError, chunk_id: u32 },
    /// A tier-agnostic predicate could not be translated to a tier's native
    /// form.
    InternalPredicateConversion { source: ConversionError },
    /// Lifting a literal batch into a plan failed. Internal and unexpected:
    /// plan construction from a literal batch is total here, so no call
    /// produces this error; the variant keeps the taxonomy's shape.
    InternalPlanCreation,
    /// The capability is not implemented by the addressed tier.
    UnimplementedCapability,
}

/// Mathematical view of an [`Error`].
#[verifier::ext_equal]
pub enum ErrorV {
    MutableBufferChunk(crate::mutable::MutableErrorV),
    ReadBufferChunk(crate::read::ReadErrorV, u32),
    InternalPredicateConversion(ConversionError),
    InternalPlanCreation,
    UnimplementedCapability,
}

impl View for Error {
    type V = ErrorV;

    open spec fn view(&self) -> ErrorV {
        match self {
            Error::MutableBufferChunk { source } => ErrorV::MutableBufferChunk(source@),
            Error::ReadBufferChunk { source, chunk_id } => ErrorV::ReadBufferChunk(
                source@,
                *chunk_id,
            ),
            Error::InternalPredicateConversion { source } => ErrorV::InternalPredicateConversion(
                *source,
            ),
            Error::InternalPlanCreation => ErrorV::InternalPlanCreation,
            Error::UnimplementedCapability => ErrorV::UnimplementedCapability,
        }
    }
}

/// A database chunk: a handle into exactly one storage tier.
#[derive(Debug)]
pub enum DBChunk {
    /// A live, possibly still written, chunk of the mutable write buffer.
    MutableBuffer { chunk: MutableChunk },
    /// One chunk of the read store, addressed by partition key and chunk id.
    ReadBuffer { db: ReadDatabase, partition_key: String, chunk_id: u32 },
    /// Reserved for the immutable columnar file tier; not yet implemented.
    ParquetFile,
}

/// Mathematical view of a [`DBChunk`].
#[verifier::ext_equal]
pub enum DBChunkV {
    MutableBuffer(MutableChunkV),
    ReadBuffer(Seq<PartitionV>, Seq<u8>, u32),
    ParquetFile,
}

impl View for DBChunk {
    type V = DBChunkV;

    open spec fn view(&self) -> DBChunkV {
        match self {
            DBChunk::MutableBuffer { chunk } => DBChunkV::MutableBuffer(chunk@),
            DBChunk::ReadBuffer { db, partition_key, chunk_id } => DBChunkV::ReadBuffer(
                db@,
                crate::lex::bytes_view(partition_key@),
                *chunk_id,
            ),
            DBChunk::ParquetFile => DBChunkV::ParquetFile,
        }
    }
}

/// A well-formed chunk: its tier payload is well-formed.
pub open spec fn db_chunk_wf(c: DBChunkV) -> bool {
    match c {
        DBChunkV::MutableBuffer(mc) => mutable_chunk_wf(mc),
        DBChunkV::ReadBuffer(db, _key, _id) => read_database_wf(db),
        DBChunkV::ParquetFile => true,
    }
}

/// The name of the single column a name-enumeration batch carries.
pub open spec fn table_names_column() -> Seq<u8> {
    "tables".spec_bytes()
}

/// What the chunk's statistics call yields: the mutable tier answers; the
/// read tier provides no statistics yet and fails with its own cause,
/// wrapped with the originating chunk id so the failure stays attributable;
/// the immutable-file tier does not implement the capability at all.
pub open spec fn spec_table_stats(c: DBChunkV) -> Result<Seq<TableStatsV>, ErrorV> {
    match c {
        DBChunkV::MutableBuffer(mc) => Ok(stats_of(mc.tables)),
        DBChunkV::ReadBuffer(_db, _key, id) => Err(ErrorV::ReadBufferChunk(
            crate::read::ReadErrorV::StatisticsUnsupported,
            id,
        )),
        DBChunkV::ParquetFile => Err(ErrorV::UnimplementedCapability),
    }
}

/// What the chunk's row materialization appends: the mutable tier yields one
/// batch of the named table; the read tier runs an unconditional read of the
/// addressed chunk, yielding whatever batches match.
pub open spec fn spec_table_to_arrow(c: DBChunkV, table: Seq<u8>, sel: SelectionV) -> Result<
    Seq<BatchV>,
    ErrorV,
> {
    match c {
        DBChunkV::MutableBuffer(mc) => match mb_table_to_arrow(mc.tables, table, sel) {
            Ok(b) => Ok(seq![b]),
            Err(e) => Err(ErrorV::MutableBufferChunk(e)),
        },
        DBChunkV::ReadBuffer(db, key, id) => match spec_read_filter(
            db,
            key,
            table,
            id,
            ReadPredicateV { table_names: None },
            sel,
        ) {
            Ok(bs) => Ok(bs),
            Err(e) => Err(ErrorV::ReadBufferChunk(e, id)),
        },
        DBChunkV::ParquetFile => Err(ErrorV::UnimplementedCapability),
    }
}

/// What the chunk's name enumeration plans: a single-column batch of the
/// matching table names. A mutable chunk with zero rows answers the empty
/// set whatever the predicate, without compiling it; otherwise compilation
/// must succeed, and for the read tier the predicate must translate.
pub open spec fn spec_table_names(c: DBChunkV, p: PredicateV) -> Result<Seq<BatchV>, ErrorV> {
    match c {
        DBChunkV::MutableBuffer(mc) => if chunk_is_empty(mc) {
            Ok(seq![names_batch(table_names_column(), Seq::empty())])
        } else if p.field_columns is Some && first_unknown_column(mc.tables, p.field_columns->0)
            is Some {
            Err(ErrorV::MutableBufferChunk(crate::mutable::MutableErrorV::UnknownFieldColumn(
                first_unknown_column(mc.tables, p.field_columns->0)->0,
            )))
        } else {
            Ok(seq![
                names_batch(table_names_column(), matching_table_names(mc.tables, p.table_names)),
            ])
        },
        DBChunkV::ReadBuffer(db, key, id) => if p.field_columns is Some {
            Err(ErrorV::InternalPredicateConversion(ConversionError::FieldColumnsUnsupported))
        } else {
            match spec_read_table_names(db, key, id, ReadPredicateV { table_names: p.table_names }) {
                Ok(names) => Ok(seq![names_batch(table_names_column(), names)]),
                Err(e) => Err(ErrorV::ReadBufferChunk(e, id)),
            }
        },
        DBChunkV::ParquetFile => Err(ErrorV::UnimplementedCapability),
    }
}

impl DBChunk {
    /// Create a new mutable buffer chunk.
    pub fn new_mb(chunk: MutableChunk) -> (r: DBChunk)
        ensures
            r@ == DBChunkV::MutableBuffer(chunk@),
    {
        DBChunk::MutableBuffer { chunk }
    }

    /// Create a new read buffer chunk.
    pub fn new_rb(db: ReadDatabase, partition_key: String, chunk_id: u32) -> (r: DBChunk)
        ensures
            r@ == DBChunkV::ReadBuffer(db@, crate::lex::bytes_view(partition_key@), chunk_id),
    {
        DBChunk::ReadBuffer { db, partition_key, chunk_id }
    }

    /// The chunk's identifier, scoped to its owning table or partition. The
    /// immutable-file tier has no identifier yet, so that variant is ruled
    /// out here.
    pub fn id(&self) -> (r: u32)
        requires
            !(self@ is ParquetFile),
        ensures
            match self@ {
                DBChunkV::MutableBuffer(mc) => r == mc.id,
                DBChunkV::ReadBuffer(_db, _key, chunk_id) => r == chunk_id,
                DBChunkV::ParquetFile => false,
            },
    {
        match self {
            DBChunk::MutableBuffer { chunk } => chunk.id(),
            DBChunk::ReadBuffer { chunk_id, .. } => *chunk_id,
            DBChunk::ParquetFile => {
                proof {
                    assert(false);
                }
                0
            },
        }
    }

    /// Per-table summary statistics of the chunk: what the tier can produce
    /// without a full scan. Succeeds exactly on the mutable tier. The read
    /// tier provides none yet and fails with its statistics-unsupported
    /// cause wrapped under the read-tier identity and this chunk's id; the
    /// immutable-file tier fails with the unimplemented-capability error.
    pub fn table_stats(&self) -> (r: Result<Vec<TableStats>, Error>)
        ensures
            match r {
                Ok(stats) => spec_table_stats(self@) == Ok::<Seq<TableStatsV>, ErrorV>(
                    Seq::new(stats@.len(), |i: int| stats@[i]@),
                ),
                Err(e) => spec_table_stats(self@) == Err::<Seq<TableStatsV>, ErrorV>(e@),
            },
            r is Ok <==> self@ is MutableBuffer,
    {
        match self {
            DBChunk::MutableBuffer { chunk } => {
                let stats = chunk.table_stats();
                proof {
                    assert(Seq::new(stats@.len(), |i: int| stats@[i]@) =~= stats_of(
                        chunk@.tables,
                    ));
                }
                Ok(stats)
            },
            DBChunk::ReadBuffer { chunk_id, .. } => {
                let chunk_id = *chunk_id;
                Err(Error::ReadBufferChunk { source: ReadError::StatisticsUnsupported, chunk_id })
            },
            DBChunk::ParquetFile => Err(Error::UnimplementedCapability),
        }
    }

    /// Appends the batches of the named table matching `selection` into the
    /// caller's accumulator. Existing accumulator contents are never cleared
    /// or reordered: on success exactly the matching batches are appended
    /// after them, on failure the accumulator is untouched. Within each
    /// appended batch the columns follow the requested order for a named
    /// selection, and lexicographic name order for an all-columns selection.
    pub fn table_to_arrow(
        &self,
        dst: &mut Vec<RecordBatch>,
        table_name: &str,
        selection: Selection<'_>,
    ) -> (r: Result<(), Error>)
        requires
            db_chunk_wf(self@),
        ensures
            match r {
                Ok(()) => {
                    let appended = spec_table_to_arrow(
                        self@,
                        table_name.spec_bytes(),
                        selection@,
                    )->Ok_0;
                    &&& spec_table_to_arrow(self@, table_name.spec_bytes(), selection@) is Ok
                    &&& batches_view(final(dst)@) =~= batches_view(old(dst)@) + appended
                    &&& forall|k: int| 0 <= k < appended.len() ==> batch_wf(#[trigger] appended[k])
                    &&& selection@ is All ==> forall|k: int|
                        0 <= k < appended.len() ==> batch_columns_sorted(#[trigger] appended[k])
                },
                Err(e) => spec_table_to_arrow(self@, table_name.spec_bytes(), selection@)
                    is Err && e@ == spec_table_to_arrow(
                    self@,
                    table_name.spec_bytes(),
                    selection@,
                )->Err_0 && final(dst)@ == old(dst)@,
            },
    {
        match self {
            DBChunk::MutableBuffer { chunk } => {
                match chunk.table_to_arrow(dst, table_name, selection) {
                    Ok(()) => {
                        proof {
                            let b = mb_table_to_arrow(
                                chunk@.tables,
                                table_name.spec_bytes(),
                                selection@,
                            )->Ok_0;
                            assert(batches_view(old(dst)@).push(b) =~= batches_view(old(dst)@)
                                + seq![b]);
                        }
                        Ok(())
                    },
                    Err(e) => Err(Error::MutableBufferChunk { source: e }),
                }
            },
            DBChunk::ReadBuffer { db, partition_key, chunk_id } => {
                // Predicate pushdown for row materialization is not wired to
                // caller-supplied predicates yet: the read is unconditional.
                let predicate = PredicateBuilder::new().build();
                let rb_predicate = match to_read_buffer_predicate(&predicate) {
                    Ok(rp) => rp,
                    Err(source) => {
                        proof {
                            assert(false);
                        }
                        return Err(Error::InternalPredicateConversion { source });
                    },
                };
                proof {
                    assert(rb_predicate@ =~= ReadPredicateV { table_names: None });
                }
                match db.read_filter(
                    partition_key.as_str(),
                    table_name,
                    *chunk_id,
                    &rb_predicate,
                    selection,
                ) {
                    Ok(batches) => {
                        let mut batches = batches;
                        let ghost appended = batches_view(batches@);
                        dst.append(&mut batches);
                        proof {
                            assert(batches_view(final(dst)@) =~= batches_view(old(dst)@)
                                + appended);
                        }
                        Ok(())
                    },
                    Err(source) => {
                        let chunk_id = *chunk_id;
                        Err(Error::ReadBufferChunk { source, chunk_id })
                    },
                }
            },
            DBChunk::ParquetFile => Err(Error::UnimplementedCapability),
        }
    }

    /// Plans the enumeration of table names matching `predicate`: a deferred
    /// scan over one single-column batch of the matching names. A mutable
    /// chunk with zero rows answers the empty set without compiling the
    /// predicate, so a predicate that would not compile still succeeds
    /// there.
    pub fn table_names(&self, predicate: &Predicate) -> (r: Result<ScanPlan, Error>)
        requires
            db_chunk_wf(self@),
        ensures
            match r {
                Ok(plan) => spec_table_names(self@, predicate@) == Ok::<Seq<BatchV>, ErrorV>(
                    plan@,
                ),
                Err(e) => spec_table_names(self@, predicate@) == Err::<Seq<BatchV>, ErrorV>(e@),
            },
    {
        match self {
            DBChunk::MutableBuffer { chunk } => {
                let names: Vec<String> = if chunk.is_empty() {
                    Vec::new()
                } else {
                    let chunk_predicate = match chunk.compile_predicate(predicate) {
                        Ok(cp) => cp,
                        Err(source) => {
                            return Err(Error::MutableBufferChunk { source });
                        },
                    };
                    chunk.table_names(&chunk_predicate)
                };
                let batch = str_iter_to_batch("tables", names);
                let plan = make_scan_plan(batch);
                proof {
                    if chunk_is_empty(chunk@) {
                        assert(names_view(names@) =~= Seq::<Seq<u8>>::empty());
                    }
                    assert(plan@ =~= seq![batch@]);
                }
                Ok(plan)
            },
            DBChunk::ReadBuffer { db, partition_key, chunk_id } => {
                let rb_predicate = match to_read_buffer_predicate(predicate) {
                    Ok(rp) => rp,
                    Err(source) => {
                        return Err(Error::InternalPredicateConversion { source });
                    },
                };
                proof {
                    assert(rb_predicate@ =~= ReadPredicateV {
                        table_names: predicate@.table_names,
                    });
                }
                match db.table_names(partition_key.as_str(), *chunk_id, &rb_predicate) {
                    Ok(names) => {
                        let batch = str_iter_to_batch("tables", names);
                        let plan = make_scan_plan(batch);
                        proof {
                            assert(plan@ =~= seq![batch@]);
                        }
                        Ok(plan)
                    },
                    Err(source) => {
                        let chunk_id = *chunk_id;
                        Err(Error::ReadBufferChunk { source, chunk_id })
                    },
                }
            },
            DBChunk::ParquetFile => Err(Error::UnimplementedCapability),
        }
    }
}

/// Every capability operation on the immutable-file variant fails with the
/// unimplemented-capability error, whatever its arguments.
pub proof fn lemma_parquet_unimplemented(table: Seq<u8>, sel: SelectionV, p: PredicateV)
    ensures
        spec_table_stats(DBChunkV::ParquetFile) == Err::<Seq<TableStatsV>, ErrorV>(
            ErrorV::UnimplementedCapability,
        ),
        spec_table_to_arrow(DBChunkV::ParquetFile, table, sel) == Err::<Seq<BatchV>, ErrorV>(
            ErrorV::UnimplementedCapability,
        ),
        spec_table_names(DBChunkV::ParquetFile, p) == Err::<Seq<BatchV>, ErrorV>(
            ErrorV::UnimplementedCapability,
        ),
{
}

/// A name enumeration over a mutable chunk with zero rows yields the empty
/// name set whatever the predicate — even one whose compilation against the
/// chunk would fail — because the predicate is never compiled.
pub proof fn lemma_empty_chunk_table_names(mc: MutableChunkV, p: PredicateV)
    requires
        chunk_is_empty(mc),
    ensures
        spec_table_names(DBChunkV::MutableBuffer(mc), p) == Ok::<Seq<BatchV>, ErrorV>(
            seq![names_batch(table_names_column(), Seq::empty())],
        ),
{
}

} // verus!
