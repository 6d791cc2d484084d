//! The table builder and the finished, query-planner-facing table view.
//!
//! A builder accumulates the chunks of one named table, enforcing that every
//! chunk exposes a schema structurally identical to the first one: no
//! widening or union is performed. Each ingestion step consumes the builder
//! and returns it (or a typed failure that returns no usable builder), so a
//! builder cannot be reused after a failed step. Finalizing with zero chunks
//! fails: a table reported to exist must not degrade into an empty,
//! schema-less view.

use vstd::prelude::*;
use vstd::string::StringSliceAdditionalSpecFns;
use crate::chunk::{db_chunk_wf, spec_table_stats, DBChunk, DBChunkV, ErrorV as ChunkErrorV};
use crate::data::{batches_view, BatchV, RecordBatch, TableStatsV};
use crate::lex::bytes_view;
use crate::plan::ScanPlan;
use crate::predicate::Predicate;
use crate::schema::{lemma_schema_equal_equivalence, schema_equal, FieldV, Schema};
use crate::selection::{Selection, SelectionV};

verus! {

/// Failure while building a table view.
#[derive(Debug)]
pub enum Error {
    /// A chunk's schema differs from the table's established schema; they
    /// must be identical.
    ChunkSchemaNotCompatible { table_name: String, existing_schema: Schema, chunk_schema: Schema },
    /// The builder was finalized with zero chunks.
    InternalNoRowsInTable { table_name: String },
}

/// Mathematical view of an [`Error`].
#[verifier::ext_equal]
pub enum ErrorV {
    ChunkSchemaNotCompatible(Seq<u8>, Seq<FieldV>, Seq<FieldV>),
    InternalNoRowsInTable(Seq<u8>),
}

impl View for Error {
    type V = ErrorV;

    open spec fn view(&self) -> ErrorV {
        match self {
            Error::ChunkSchemaNotCompatible { table_name, existing_schema, chunk_schema } =>
                ErrorV::ChunkSchemaNotCompatible(
                bytes_view(table_name@),
                existing_schema@,
                chunk_schema@,
            ),
            Error::InternalNoRowsInTable { table_name } => ErrorV::InternalNoRowsInTable(
                bytes_view(table_name@),
            ),
        }
    }
}

/// Builds a [`ChunkTableProvider`], ensuring the schema across chunks is
/// compatible.
#[derive(Debug)]
pub struct ProviderBuilder {
    pub table_name: String,
    pub schema: Option<Schema>,
    pub chunks: Vec<DBChunk>,
}

/// Mathematical view of a [`ProviderBuilder`].
#[verifier::ext_equal]
pub struct BuilderV {
    pub table_name: Seq<u8>,
    pub schema: Option<Seq<FieldV>>,
    pub chunks: Seq<DBChunkV>,
}

impl View for ProviderBuilder {
    type V = BuilderV;

    open spec fn view(&self) -> BuilderV {
        BuilderV {
            table_name: bytes_view(self.table_name@),
            schema: match self.schema {
                None => None,
                Some(s) => Some(s@),
            },
            chunks: Seq::new(self.chunks@.len(), |i: int| self.chunks@[i]@),
        }
    }
}

/// A well-formed builder: a schema exists exactly when a chunk was added,
/// and every accumulated chunk is well-formed.
pub open spec fn builder_wf(b: BuilderV) -> bool {
    &&& (b.schema is None <==> b.chunks.len() == 0)
    &&& forall|i: int| 0 <= i < b.chunks.len() ==> db_chunk_wf(#[trigger] b.chunks[i])
}

/// The view of a fresh builder for the given table name.
pub open spec fn spec_new_builder(name: Seq<u8>) -> BuilderV {
    BuilderV { table_name: name, schema: None, chunks: Seq::empty() }
}

/// What one ingestion step does: the first chunk's schema is adopted, later
/// chunks must match it structurally; on success the chunk is appended.
/// `None` is the schema-incompatibility failure.
pub open spec fn spec_add_chunk(b: BuilderV, c: DBChunkV, s: Seq<FieldV>) -> Option<BuilderV> {
    match b.schema {
        None => Some(BuilderV { schema: Some(s), chunks: b.chunks.push(c), ..b }),
        Some(existing) => if schema_equal(existing, s) {
            Some(BuilderV { schema: Some(s), chunks: b.chunks.push(c), ..b })
        } else {
            None
        },
    }
}

/// What finalization does: fails on zero chunks, otherwise fixes the
/// accumulated schema and chunk sequence.
pub open spec fn spec_build(b: BuilderV) -> Option<ProviderV> {
    if b.chunks.len() == 0 || b.schema is None {
        None
    } else {
        Some(ProviderV { table_name: b.table_name, schema: b.schema->0, chunks: b.chunks })
    }
}

/// Ingestion steps folded over a chunk sequence sharing one schema.
pub open spec fn spec_add_all_same(b: BuilderV, chunks: Seq<DBChunkV>, s: Seq<FieldV>) -> Option<
    BuilderV,
>
    decreases chunks.len(),
{
    if chunks.len() == 0 {
        Some(b)
    } else {
        match spec_add_chunk(b, chunks[0], s) {
            None => None,
            Some(b2) => spec_add_all_same(b2, chunks.skip(1), s),
        }
    }
}

proof fn lemma_add_all_same_ok(b: BuilderV, chunks: Seq<DBChunkV>, s: Seq<FieldV>)
    requires
        b.schema is Some ==> schema_equal(b.schema->0, s),
    ensures
        spec_add_all_same(b, chunks, s) is Some,
        spec_add_all_same(b, chunks, s)->0.table_name == b.table_name,
        spec_add_all_same(b, chunks, s)->0.chunks =~= b.chunks + chunks,
        spec_add_all_same(b, chunks, s)->0.schema == (if chunks.len() == 0 {
            b.schema
        } else {
            Some(s)
        }),
    decreases chunks.len(),
{
    if chunks.len() == 0 {
        assert(b.chunks + chunks =~= b.chunks);
    } else {
        let b2 = spec_add_chunk(b, chunks[0], s)->0;
        lemma_add_all_same_ok(b2, chunks.skip(1), s);
        assert(b.chunks.push(chunks[0]) + chunks.skip(1) =~= b.chunks + chunks);
    }
}

/// For every nonempty sequence of chunks carrying one identical schema,
/// ingesting them all into a fresh builder succeeds, finalization succeeds,
/// and the finished view holds exactly those chunks in insertion order,
/// under that schema and table name.
pub proof fn lemma_uniform_chunks_build(name: Seq<u8>, chunks: Seq<DBChunkV>, schema: Seq<FieldV>)
    requires
        chunks.len() > 0,
    ensures
        spec_add_all_same(spec_new_builder(name), chunks, schema) is Some,
        spec_build(spec_add_all_same(spec_new_builder(name), chunks, schema)->0) is Some,
        spec_build(spec_add_all_same(spec_new_builder(name), chunks, schema)->0)->0 == (ProviderV {
            table_name: name,
            schema,
            chunks,
        }),
{
    lemma_add_all_same_ok(spec_new_builder(name), chunks, schema);
    let b = spec_add_all_same(spec_new_builder(name), chunks, schema)->0;
    assert(b.chunks =~= chunks);
    assert(spec_build(b)->0 =~= ProviderV { table_name: name, schema, chunks });
}

/// For any two chunks whose schemas differ, ingesting both into one builder
/// fails, whichever of the two comes first and whatever the builder already
/// holds: a step that accepts the one leaves a builder that rejects the
/// other with the schema-incompatibility failure. On a fresh builder the
/// first chunk is always accepted, so the second step is the one that
/// fails.
pub proof fn lemma_incompatible_schemas_rejected(
    b: BuilderV,
    c1: DBChunkV,
    s1: Seq<FieldV>,
    c2: DBChunkV,
    s2: Seq<FieldV>,
)
    requires
        !schema_equal(s1, s2),
    ensures
        spec_add_chunk(b, c1, s1) is Some ==> spec_add_chunk(
            spec_add_chunk(b, c1, s1)->0,
            c2,
            s2,
        ) is None,
        spec_add_chunk(b, c2, s2) is Some ==> spec_add_chunk(
            spec_add_chunk(b, c2, s2)->0,
            c1,
            s1,
        ) is None,
        b.schema is None ==> spec_add_chunk(b, c1, s1) is Some && spec_add_chunk(b, c2, s2)
            is Some,
{
    lemma_schema_equal_equivalence(s1, s2, s1);
    lemma_schema_equal_equivalence(s2, s1, s2);
}

impl ProviderBuilder {
    /// An empty builder for the given table name.
    pub fn new(table_name: String) -> (r: ProviderBuilder)
        ensures
            r@ == spec_new_builder(bytes_view(table_name@)),
            builder_wf(r@),
    {
        let r = ProviderBuilder { table_name, schema: None, chunks: Vec::new() };
        proof {
            assert(r@.chunks =~= Seq::<DBChunkV>::empty());
            assert(r@ =~= spec_new_builder(bytes_view(r.table_name@)));
        }
        r
    }

    /// Returns `Ok(chunk_schema)` when `chunk_schema` is compatible with
    /// `existing_schema` — strict structural equality, no schema union —
    /// and the incompatibility failure naming the table and both schemas
    /// otherwise.
    fn check_schema(&self, existing_schema: Schema, chunk_schema: Schema) -> (r: Result<
        Schema,
        Error,
    >)
        ensures
            match r {
                Ok(s) => schema_equal(existing_schema@, chunk_schema@) && s@ == chunk_schema@,
                Err(e) => !schema_equal(existing_schema@, chunk_schema@) && e@
                    == ErrorV::ChunkSchemaNotCompatible(
                    self@.table_name,
                    existing_schema@,
                    chunk_schema@,
                ),
            },
    {
        if !existing_schema.equal(&chunk_schema) {
            let table_name = self.table_name.clone();
            Err(Error::ChunkSchemaNotCompatible { table_name, existing_schema, chunk_schema })
        } else {
            Ok(chunk_schema)
        }
    }

    /// Ingests one chunk under its schema. The first chunk's schema is
    /// adopted; any later chunk must match it structurally, else the step
    /// fails with the incompatibility error naming the table and both
    /// schemas, consuming the builder.
    pub fn add_chunk(self, chunk: DBChunk, chunk_table_schema: Schema) -> (r: Result<
        ProviderBuilder,
        Error,
    >)
        requires
            builder_wf(self@),
            db_chunk_wf(chunk@),
        ensures
            match r {
                Ok(b2) => spec_add_chunk(self@, chunk@, chunk_table_schema@) == Some(b2@)
                    && builder_wf(b2@),
                Err(e) => spec_add_chunk(self@, chunk@, chunk_table_schema@) is None && e@
                    == ErrorV::ChunkSchemaNotCompatible(
                    self@.table_name,
                    self@.schema->0,
                    chunk_table_schema@,
                ),
            },
            r is Ok <==> (self@.schema is None || schema_equal(
                self@.schema->0,
                chunk_table_schema@,
            )),
    {
        let ghost orig = self@;
        let mut this = self;
        let new_schema = match this.schema {
            None => {
                this.schema = None;
                chunk_table_schema
            },
            Some(existing) => {
                this.schema = None;
                match this.check_schema(existing, chunk_table_schema) {
                    Ok(s) => s,
                    Err(e) => {
                        return Err(e);
                    },
                }
            },
        };
        this.schema = Some(new_schema);
        this.chunks.push(chunk);
        proof {
            assert(this@.chunks =~= orig.chunks.push(chunk@));
            assert(this@ =~= spec_add_chunk(orig, chunk@, chunk_table_schema@)->0);
        }
        Ok(this)
    }

    /// Finalizes into an immutable table view. Fails when zero chunks were
    /// added; otherwise the view fixes the accumulated schema and the chunks
    /// in insertion order.
    pub fn build(self) -> (r: Result<ChunkTableProvider, Error>)
        requires
            builder_wf(self@),
        ensures
            match r {
                Ok(p) => spec_build(self@) == Some(p@) && provider_wf(p@),
                Err(e) => spec_build(self@) is None && e@ == ErrorV::InternalNoRowsInTable(
                    self@.table_name,
                ),
            },
            r is Ok <==> self@.chunks.len() > 0,
    {
        let ProviderBuilder { table_name, schema, chunks } = self;
        if chunks.is_empty() {
            return Err(Error::InternalNoRowsInTable { table_name });
        }
        let schema = match schema {
            Some(s) => s,
            None => {
                proof {
                    assert(false);
                }
                return Err(Error::InternalNoRowsInTable { table_name });
            },
        };
        let p = ChunkTableProvider { table_name, schema, chunks };
        proof {
            assert(p@ =~= spec_build(self@)->0);
        }
        Ok(p)
    }
}

/// The finished, immutable unification of one table's chunks, exposed to the
/// query planner.
#[derive(Debug)]
pub struct ChunkTableProvider {
    pub table_name: String,
    pub schema: Schema,
    pub chunks: Vec<DBChunk>,
}

/// Mathematical view of a [`ChunkTableProvider`].
#[verifier::ext_equal]
pub struct ProviderV {
    pub table_name: Seq<u8>,
    pub schema: Seq<FieldV>,
    pub chunks: Seq<DBChunkV>,
}

impl View for ChunkTableProvider {
    type V = ProviderV;

    open spec fn view(&self) -> ProviderV {
        ProviderV {
            table_name: bytes_view(self.table_name@),
            schema: self.schema@,
            chunks: Seq::new(self.chunks@.len(), |i: int| self.chunks@[i]@),
        }
    }
}

/// A well-formed table view: at least one chunk, every chunk well-formed.
pub open spec fn provider_wf(p: ProviderV) -> bool {
    &&& p.chunks.len() > 0
    &&& forall|i: int| 0 <= i < p.chunks.len() ==> db_chunk_wf(#[trigger] p.chunks[i])
}

impl ChunkTableProvider {
    /// The schema established by the builder and shared by every chunk.
    pub fn schema(&self) -> (r: &Schema)
        ensures
            r@ == self@.schema,
    {
        &self.schema
    }

    /// Aggregates per-table statistics across the member chunks: the total
    /// row count they report for this table, saturating at the largest
    /// representable count. Fails with the first tier failure — today, with
    /// any read-tier or immutable-file member, whose statistics capability
    /// is unimplemented.
    #[verifier::loop_isolation(false)]
    pub fn statistics(&self) -> (r: Result<Statistics, crate::chunk::Error>)
        ensures
            match r {
                Ok(st) => spec_statistics(self@.chunks, self@.table_name) is Ok && st.num_rows
                    as int == clamp_u64(spec_statistics(self@.chunks, self@.table_name)->Ok_0),
                Err(e) => spec_statistics(self@.chunks, self@.table_name) == Err::<
                    int,
                    ChunkErrorV,
                >(e@),
            },
    {
        let ghost cs = self@.chunks;
        let ghost table = self@.table_name;
        let mut num_rows: u64 = 0;
        proof {
            assert(cs.take(0) =~= Seq::<DBChunkV>::empty());
        }
        let mut i: usize = 0;
        while i < self.chunks.len()
            invariant
                i <= self.chunks@.len(),
                spec_statistics(cs.take(i as int), table) is Ok,
                num_rows as int == clamp_u64(spec_statistics(cs.take(i as int), table)->Ok_0),
            decreases self.chunks@.len() - i,
        {
            let ghost prev = spec_statistics(cs.take(i as int), table)->Ok_0;
            proof {
                assert(cs.take(i as int + 1) =~= cs.take(i as int).push(cs[i as int]));
                lemma_spec_statistics_push(cs.take(i as int), table, cs[i as int]);
            }
            let stats = match self.chunks[i].table_stats() {
                Ok(stats) => stats,
                Err(e) => {
                    proof {
                        lemma_spec_statistics_err_stays(cs, table, i as int + 1);
                    }
                    return Err(e);
                },
            };
            let ghost sv = Seq::new(stats@.len(), |k: int| stats@[k]@);
            proof {
                assert(sv.take(0) =~= Seq::<TableStatsV>::empty());
            }
            let mut j: usize = 0;
            while j < stats.len()
                invariant
                    j <= stats@.len(),
                    sv == Seq::new(stats@.len(), |k: int| stats@[k]@),
                    num_rows as int == clamp_u64(prev + table_row_count(sv.take(j as int), table)),
                decreases stats@.len() - j,
            {
                proof {
                    assert(sv.take(j as int + 1) =~= sv.take(j as int).push(sv[j as int]));
                    lemma_table_row_count_push(sv.take(j as int), table, sv[j as int]);
                }
                if matches!(
                    crate::lex::str_compare(stats[j].name.as_str(), self.table_name.as_str()),
                    crate::lex::Cmp::Eq
                ) {
                    num_rows = saturating_add_u64(num_rows, stats[j].row_count);
                }
                j += 1;
            }
            proof {
                assert(sv.take(stats@.len() as int) =~= sv);
            }
            i += 1;
        }
        proof {
            assert(cs.take(self.chunks@.len() as int) =~= cs);
        }
        Ok(Statistics { num_rows })
    }

    /// Pulls the matching batches out of every member chunk, in
    /// chunk-sequence order, under one selection.
    #[verifier::loop_isolation(false)]
    fn scan_chunks(&self, selection: Selection<'_>) -> (r: Result<
        Vec<RecordBatch>,
        crate::chunk::Error,
    >)
        requires
            provider_wf(self@),
        ensures
            match r {
                Ok(batches) => spec_scan(self@.chunks, self@.table_name, selection@) == Ok::<
                    Seq<BatchV>,
                    ChunkErrorV,
                >(batches_view(batches@)),
                Err(e) => spec_scan(self@.chunks, self@.table_name, selection@) == Err::<
                    Seq<BatchV>,
                    ChunkErrorV,
                >(e@),
            },
    {
        let ghost cs = self@.chunks;
        let ghost table = self@.table_name;
        let mut dst: Vec<RecordBatch> = Vec::new();
        proof {
            assert(cs.take(0) =~= Seq::<DBChunkV>::empty());
            assert(batches_view(dst@) =~= Seq::<BatchV>::empty());
        }
        let mut i: usize = 0;
        while i < self.chunks.len()
            invariant
                i <= self.chunks@.len(),
                spec_scan(cs.take(i as int), table, selection@) is Ok,
                batches_view(dst@) == spec_scan(cs.take(i as int), table, selection@)->Ok_0,
            decreases self.chunks@.len() - i,
        {
            proof {
                assert(cs.take(i as int + 1) =~= cs.take(i as int).push(cs[i as int]));
                lemma_spec_scan_push(cs.take(i as int), table, selection@, cs[i as int]);
                assert(db_chunk_wf(cs[i as int]));
            }
            match self.chunks[i].table_to_arrow(&mut dst, self.table_name.as_str(), selection) {
                Ok(()) => {},
                Err(e) => {
                    proof {
                        lemma_spec_scan_err_stays(cs, table, selection@, i as int + 1);
                    }
                    return Err(e);
                },
            }
            i += 1;
        }
        proof {
            assert(cs.take(self.chunks@.len() as int) =~= cs);
        }
        Ok(dst)
    }

    /// Builds a plan that, when executed, yields the concatenation of every
    /// member chunk's batches in chunk-sequence order, with the projection
    /// applied as a column selection: all columns when absent (each batch's
    /// columns then in lexicographic name order), else the projected schema
    /// fields in the projected order. Filters are accepted for the planner's
    /// contract but not yet pushed down to row materialization.
    #[verifier::loop_isolation(false)]
    pub fn scan(
        &self,
        projection: &Option<Vec<usize>>,
        _batch_size: usize,
        _filters: &Vec<Predicate>,
    ) -> (r: Result<ScanPlan, crate::chunk::Error>)
        requires
            provider_wf(self@),
            match *projection {
                Some(ids) => forall|k: int| 0 <= k < ids@.len() ==> ids@[k] < self@.schema.len(),
                None => true,
            },
        ensures
            ({
                let sel = projected_selection(self@.schema, projection_view(*projection));
                match r {
                    Ok(plan) => spec_scan(self@.chunks, self@.table_name, sel) == Ok::<
                        Seq<BatchV>,
                        ChunkErrorV,
                    >(plan@),
                    Err(e) => spec_scan(self@.chunks, self@.table_name, sel) == Err::<
                        Seq<BatchV>,
                        ChunkErrorV,
                    >(e@),
                }
            }),
    {
        let ghost sel = projected_selection(self@.schema, projection_view(*projection));
        match projection {
            None => {
                let selection = Selection::AllColumns;
                match self.scan_chunks(selection) {
                    Ok(batches) => {
                        let plan = ScanPlan { batches };
                        Ok(plan)
                    },
                    Err(e) => Err(e),
                }
            },
            Some(ids) => {
                proof {
                    assert(*projection == Some(*ids));
                    assert(forall|j: int| 0 <= j < ids@.len() ==> ids@[j] < self@.schema.len());
                }
                let mut names: Vec<&str> = Vec::new();
                let mut k: usize = 0;
                while k < ids.len()
                    invariant
                        k <= ids@.len(),
                        names@.len() == k,
                        forall|j: int| 0 <= j < k ==> (#[trigger] names@[j]).spec_bytes()
                            == self@.schema[ids@[j] as int].name,
                    decreases ids@.len() - k,
                {
                    let id = ids[k];
                    names.push(self.schema.fields[id].name.as_str());
                    k += 1;
                }
                let selection = Selection::SpecifiedColumns(names.as_slice());
                proof {
                    assert(selection@ =~= sel);
                }
                match self.scan_chunks(selection) {
                    Ok(batches) => {
                        let plan = ScanPlan { batches };
                        Ok(plan)
                    },
                    Err(e) => Err(e),
                }
            },
        }
    }
}

/// Summary statistics for one table view: how many rows of its table the
/// member chunks report, saturating at the largest representable count.
#[derive(Clone, Copy, Debug, PartialEq, Eq, Structural)]
pub struct Statistics {
    pub num_rows: u64,
}

/// A count clamped to what a statistics field can carry.
pub open spec fn clamp_u64(n: int) -> int {
    if n > u64::MAX as int {
        u64::MAX as int
    } else {
        n
    }
}

/// The rows a per-table statistics list reports for one table name.
pub open spec fn table_row_count(stats: Seq<TableStatsV>, table: Seq<u8>) -> int
    decreases stats.len(),
{
    if stats.len() == 0 {
        0
    } else {
        (if stats[0].name == table {
            stats[0].row_count as int
        } else {
            0
        }) + table_row_count(stats.skip(1), table)
    }
}

proof fn lemma_table_row_count_push(stats: Seq<TableStatsV>, table: Seq<u8>, s: TableStatsV)
    ensures
        table_row_count(stats.push(s), table) == table_row_count(stats, table) + (if s.name
            == table {
            s.row_count as int
        } else {
            0
        }),
    decreases stats.len(),
{
    let pushed = stats.push(s);
    if stats.len() == 0 {
        assert(pushed[0] == s);
        assert(pushed.skip(1) =~= Seq::<TableStatsV>::empty());
        assert(table_row_count(Seq::<TableStatsV>::empty(), table) == 0);
    } else {
        assert(pushed[0] == stats[0]);
        assert(pushed.skip(1) =~= stats.skip(1).push(s));
        lemma_table_row_count_push(stats.skip(1), table, s);
    }
}

/// What aggregating statistics across the member chunks yields: the total
/// row count the chunks report for the table, or the first tier failure.
pub open spec fn spec_statistics(chunks: Seq<DBChunkV>, table: Seq<u8>) -> Result<
    int,
    ChunkErrorV,
>
    decreases chunks.len(),
{
    if chunks.len() == 0 {
        Ok(0)
    } else {
        match spec_table_stats(chunks[0]) {
            Err(e) => Err(e),
            Ok(ss) => match spec_statistics(chunks.skip(1), table) {
                Err(e) => Err(e),
                Ok(n) => Ok(table_row_count(ss, table) + n),
            },
        }
    }
}

proof fn lemma_spec_statistics_push(chunks: Seq<DBChunkV>, table: Seq<u8>, c: DBChunkV)
    ensures
        spec_statistics(chunks.push(c), table) == (match spec_statistics(chunks, table) {
            Err(e) => Err::<int, ChunkErrorV>(e),
            Ok(n) => match spec_table_stats(c) {
                Err(e) => Err::<int, ChunkErrorV>(e),
                Ok(ss) => Ok::<int, ChunkErrorV>(n + table_row_count(ss, table)),
            },
        }),
    decreases chunks.len(),
{
    let pushed = chunks.push(c);
    if chunks.len() == 0 {
        assert(pushed[0] == c);
        assert(pushed.skip(1) =~= Seq::<DBChunkV>::empty());
        assert(spec_statistics(Seq::<DBChunkV>::empty(), table) == Ok::<int, ChunkErrorV>(0));
    } else {
        assert(pushed[0] == chunks[0]);
        assert(pushed.skip(1) =~= chunks.skip(1).push(c));
        lemma_spec_statistics_push(chunks.skip(1), table, c);
    }
}

proof fn lemma_spec_statistics_err_stays(chunks: Seq<DBChunkV>, table: Seq<u8>, i: int)
    requires
        0 <= i <= chunks.len(),
        spec_statistics(chunks.take(i), table) is Err,
    ensures
        spec_statistics(chunks, table) == spec_statistics(chunks.take(i), table),
    decreases chunks.len() - i,
{
    if i == chunks.len() {
        assert(chunks.take(i) =~= chunks);
    } else {
        assert(chunks.take(i + 1) =~= chunks.take(i).push(chunks[i]));
        lemma_spec_statistics_push(chunks.take(i), table, chunks[i]);
        lemma_spec_statistics_err_stays(chunks, table, i + 1);
    }
}

/// Addition of row counts that saturates instead of overflowing.
fn saturating_add_u64(a: u64, b: u64) -> (r: u64)
    ensures
        r as int == clamp_u64(a as int + b as int),
{
    if a > u64::MAX - b {
        u64::MAX
    } else {
        a + b
    }
}

/// What scanning fans out: the concatenation, in chunk-sequence order, of
/// every member chunk's matching batches, or the first tier failure.
pub open spec fn spec_scan(chunks: Seq<DBChunkV>, table: Seq<u8>, sel: SelectionV) -> Result<
    Seq<BatchV>,
    ChunkErrorV,
>
    decreases chunks.len(),
{
    if chunks.len() == 0 {
        Ok(Seq::empty())
    } else {
        match crate::chunk::spec_table_to_arrow(chunks[0], table, sel) {
            Err(e) => Err(e),
            Ok(bs) => match spec_scan(chunks.skip(1), table, sel) {
                Err(e) => Err(e),
                Ok(rest) => Ok(bs + rest),
            },
        }
    }
}

proof fn lemma_spec_scan_push(chunks: Seq<DBChunkV>, table: Seq<u8>, sel: SelectionV, c: DBChunkV)
    ensures
        spec_scan(chunks.push(c), table, sel) == (match spec_scan(chunks, table, sel) {
            Err(e) => Err::<Seq<BatchV>, ChunkErrorV>(e),
            Ok(acc) => match crate::chunk::spec_table_to_arrow(c, table, sel) {
                Err(e) => Err::<Seq<BatchV>, ChunkErrorV>(e),
                Ok(bs) => Ok::<Seq<BatchV>, ChunkErrorV>(acc + bs),
            },
        }),
    decreases chunks.len(),
{
    let pushed = chunks.push(c);
    if chunks.len() == 0 {
        assert(pushed[0] == c);
        assert(pushed.skip(1) =~= Seq::<DBChunkV>::empty());
        assert(spec_scan(Seq::<DBChunkV>::empty(), table, sel) == Ok::<Seq<BatchV>, ChunkErrorV>(
            Seq::empty(),
        ));
        if crate::chunk::spec_table_to_arrow(c, table, sel) is Ok {
            let bs = crate::chunk::spec_table_to_arrow(c, table, sel)->Ok_0;
            assert(bs + Seq::<BatchV>::empty() =~= bs);
            assert(Seq::<BatchV>::empty() + bs =~= bs);
        }
    } else {
        assert(pushed[0] == chunks[0]);
        assert(pushed.skip(1) =~= chunks.skip(1).push(c));
        lemma_spec_scan_push(chunks.skip(1), table, sel, c);
        if crate::chunk::spec_table_to_arrow(chunks[0], table, sel) is Ok && spec_scan(
            chunks.skip(1),
            table,
            sel,
        ) is Ok && crate::chunk::spec_table_to_arrow(c, table, sel) is Ok {
            let b0 = crate::chunk::spec_table_to_arrow(chunks[0], table, sel)->Ok_0;
            let rest = spec_scan(chunks.skip(1), table, sel)->Ok_0;
            let bs = crate::chunk::spec_table_to_arrow(c, table, sel)->Ok_0;
            assert(b0 + (rest + bs) =~= (b0 + rest) + bs);
        }
    }
}

proof fn lemma_spec_scan_err_stays(chunks: Seq<DBChunkV>, table: Seq<u8>, sel: SelectionV, i: int)
    requires
        0 <= i <= chunks.len(),
        spec_scan(chunks.take(i), table, sel) is Err,
    ensures
        spec_scan(chunks, table, sel) == spec_scan(chunks.take(i), table, sel),
    decreases chunks.len() - i,
{
    if i == chunks.len() {
        assert(chunks.take(i) =~= chunks);
    } else {
        assert(chunks.take(i + 1) =~= chunks.take(i).push(chunks[i]));
        lemma_spec_scan_push(chunks.take(i), table, sel, chunks[i]);
        lemma_spec_scan_err_stays(chunks, table, sel, i + 1);
    }
}

/// The view of an optional projection.
pub open spec fn projection_view(p: Option<Vec<usize>>) -> Option<Seq<usize>> {
    match p {
        None => None,
        Some(v) => Some(v@),
    }
}

/// The column selection a projection stands for: all columns when absent,
/// else the named schema fields in the projected order.
pub open spec fn projected_selection(schema: Seq<FieldV>, p: Option<Seq<usize>>) -> SelectionV {
    match p {
        None => SelectionV::All,
        Some(ids) => SelectionV::Cols(Seq::new(ids.len(), |i: int| schema[ids[i] as int].name)),
    }
}

} // verus!
