//! The read-optimized tier's database model.
//!
//! The read store holds partitions keyed by a partition string, each holding
//! chunks addressed by a chunk identifier. Queries name their chunk by
//! partition key and chunk id; a failure is therefore attributable to one
//! specific chunk within a partition holding several.

use vstd::prelude::*;
use vstd::string::StringSliceAdditionalSpecFns;
use crate::data::{batches_view, BatchV, RecordBatch};
use crate::lex::{bytes_view, names_view, str_compare, Cmp};
use crate::predicate::{restriction_admits, ReadPredicate, ReadPredicateV};
use crate::selection::{Selection, SelectionV};
use crate::table::{
    find_table, find_table_index, insert_table_sorted, matching_table_names, select_batch,
    table_names_of, table_wf, tables_view, tables_wf, Table, TableV,
};

verus! {

/// Failure inside the read tier.
#[derive(Debug)]
pub enum ReadError {
    /// The store holds no partition of this key.
    PartitionNotFound { partition_key: String },
    /// The partition holds no chunk of this identifier.
    ChunkNotFound { chunk_id: u32 },
    /// The chunk holds no table of this name.
    TableNotFound { table_name: String },
    /// A selection named a column the table lacks.
    ColumnNotFound { column_name: String },
    /// The read tier does not provide per-table statistics yet.
    StatisticsUnsupported,
}

/// Mathematical view of a [`ReadError`].
#[verifier::ext_equal]
pub enum ReadErrorV {
    PartitionNotFound(Seq<u8>),
    ChunkNotFound(u32),
    TableNotFound(Seq<u8>),
    ColumnNotFound(Seq<u8>),
    StatisticsUnsupported,
}

impl View for ReadError {
    type V = ReadErrorV;

    open spec fn view(&self) -> ReadErrorV {
        match self {
            ReadError::PartitionNotFound { partition_key } => ReadErrorV::PartitionNotFound(
                bytes_view(partition_key@),
            ),
            ReadError::ChunkNotFound { chunk_id } => ReadErrorV::ChunkNotFound(*chunk_id),
            ReadError::TableNotFound { table_name } => ReadErrorV::TableNotFound(
                bytes_view(table_name@),
            ),
            ReadError::ColumnNotFound { column_name } => ReadErrorV::ColumnNotFound(
                bytes_view(column_name@),
            ),
            ReadError::StatisticsUnsupported => ReadErrorV::StatisticsUnsupported,
        }
    }
}

/// One chunk of the read store.
#[derive(Debug)]
pub struct ReadChunk {
    pub id: u32,
    pub tables: Vec<Table>,
}

/// Mathematical view of a [`ReadChunk`].
#[verifier::ext_equal]
pub struct ReadChunkV {
    pub id: u32,
    pub tables: Seq<TableV>,
}

impl View for ReadChunk {
    type V = ReadChunkV;

    open spec fn view(&self) -> ReadChunkV {
        ReadChunkV { id: self.id, tables: tables_view(self.tables@) }
    }
}

/// One partition of the read store.
#[derive(Debug)]
pub struct Partition {
    pub key: String,
    pub chunks: Vec<ReadChunk>,
}

/// Mathematical view of a [`Partition`].
#[verifier::ext_equal]
pub struct PartitionV {
    pub key: Seq<u8>,
    pub chunks: Seq<ReadChunkV>,
}

impl View for Partition {
    type V = PartitionV;

    open spec fn view(&self) -> PartitionV {
        PartitionV {
            key: bytes_view(self.key@),
            chunks: Seq::new(self.chunks@.len(), |i: int| self.chunks@[i]@),
        }
    }
}

/// The concurrently readable read store itself.
#[derive(Debug)]
pub struct ReadDatabase {
    pub partitions: Vec<Partition>,
}

impl View for ReadDatabase {
    type V = Seq<PartitionV>;

    open spec fn view(&self) -> Seq<PartitionV> {
        Seq::new(self.partitions@.len(), |i: int| self.partitions@[i]@)
    }
}

/// A well-formed read store: every chunk's tables sorted and well-formed.
pub open spec fn read_database_wf(ps: Seq<PartitionV>) -> bool {
    forall|i: int, j: int|
        0 <= i < ps.len() && 0 <= j < ps[i].chunks.len() ==> tables_wf(
            (#[trigger] ps[i].chunks[j]).tables,
        )
}

/// The first partition of the given key, if any.
pub open spec fn find_partition(ps: Seq<PartitionV>, key: Seq<u8>) -> Option<PartitionV>
    decreases ps.len(),
{
    if ps.len() == 0 {
        None
    } else if ps[0].key == key {
        Some(ps[0])
    } else {
        find_partition(ps.skip(1), key)
    }
}

proof fn lemma_find_partition_found(ps: Seq<PartitionV>, key: Seq<u8>, i: int)
    requires
        0 <= i < ps.len(),
        ps[i].key == key,
        forall|j: int| 0 <= j < i ==> (#[trigger] ps[j]).key != key,
    ensures
        find_partition(ps, key) == Some(ps[i]),
    decreases i,
{
    if i > 0 {
        lemma_find_partition_found(ps.skip(1), key, i - 1);
    }
}

proof fn lemma_find_partition_missing(ps: Seq<PartitionV>, key: Seq<u8>)
    requires
        forall|j: int| 0 <= j < ps.len() ==> (#[trigger] ps[j]).key != key,
    ensures
        find_partition(ps, key) is None,
    decreases ps.len(),
{
    if ps.len() > 0 {
        lemma_find_partition_missing(ps.skip(1), key);
    }
}

/// The first chunk of the given identifier, if any.
pub open spec fn find_read_chunk(cs: Seq<ReadChunkV>, id: u32) -> Option<ReadChunkV>
    decreases cs.len(),
{
    if cs.len() == 0 {
        None
    } else if cs[0].id == id {
        Some(cs[0])
    } else {
        find_read_chunk(cs.skip(1), id)
    }
}

proof fn lemma_find_read_chunk_found(cs: Seq<ReadChunkV>, id: u32, i: int)
    requires
        0 <= i < cs.len(),
        cs[i].id == id,
        forall|j: int| 0 <= j < i ==> (#[trigger] cs[j]).id != id,
    ensures
        find_read_chunk(cs, id) == Some(cs[i]),
    decreases i,
{
    if i > 0 {
        lemma_find_read_chunk_found(cs.skip(1), id, i - 1);
    }
}

proof fn lemma_find_read_chunk_missing(cs: Seq<ReadChunkV>, id: u32)
    requires
        forall|j: int| 0 <= j < cs.len() ==> (#[trigger] cs[j]).id != id,
    ensures
        find_read_chunk(cs, id) is None,
    decreases cs.len(),
{
    if cs.len() > 0 {
        lemma_find_read_chunk_missing(cs.skip(1), id);
    }
}

/// What a filtered read of one table of one chunk yields: nothing when the
/// predicate rules the table out, one batch otherwise.
pub open spec fn spec_read_filter(
    ps: Seq<PartitionV>,
    key: Seq<u8>,
    table: Seq<u8>,
    chunk_id: u32,
    pred: ReadPredicateV,
    sel: SelectionV,
) -> Result<Seq<BatchV>, ReadErrorV> {
    match find_partition(ps, key) {
        None => Err(ReadErrorV::PartitionNotFound(key)),
        Some(p) => match find_read_chunk(p.chunks, chunk_id) {
            None => Err(ReadErrorV::ChunkNotFound(chunk_id)),
            Some(c) => match find_table(c.tables, table) {
                None => Err(ReadErrorV::TableNotFound(table)),
                Some(t) => if !restriction_admits(pred.table_names, table) {
                    Ok(Seq::empty())
                } else {
                    match select_batch(t, sel) {
                        Ok(b) => Ok(seq![b]),
                        Err(n) => Err(ReadErrorV::ColumnNotFound(n)),
                    }
                },
            },
        },
    }
}

/// What a name enumeration over one chunk yields: the names of its tables
/// that the predicate admits, in the chunk's sorted table order.
pub open spec fn spec_read_table_names(
    ps: Seq<PartitionV>,
    key: Seq<u8>,
    chunk_id: u32,
    pred: ReadPredicateV,
) -> Result<Seq<Seq<u8>>, ReadErrorV> {
    match find_partition(ps, key) {
        None => Err(ReadErrorV::PartitionNotFound(key)),
        Some(p) => match find_read_chunk(p.chunks, chunk_id) {
            None => Err(ReadErrorV::ChunkNotFound(chunk_id)),
            Some(c) => Ok(matching_table_names(c.tables, pred.table_names)),
        },
    }
}

impl ReadChunk {
    /// A chunk with the given identifier and no tables.
    pub fn new(id: u32) -> (r: ReadChunk)
        ensures
            r@ == (ReadChunkV { id, tables: Seq::empty() }),
            tables_wf(r@.tables),
    {
        let r = ReadChunk { id, tables: Vec::new() };
        proof {
            assert(r@.tables =~= Seq::<TableV>::empty());
            assert(r@ =~= ReadChunkV { id, tables: Seq::empty() });
        }
        r
    }

    /// Inserts a table at its sorted position. Returns `false`, leaving the
    /// chunk unchanged, when a table of that name is already present.
    pub fn insert_table(&mut self, table: Table) -> (r: bool)
        requires
            tables_wf(old(self)@.tables),
            table_wf(table@),
        ensures
            tables_wf(final(self)@.tables),
            final(self)@.id == old(self)@.id,
            crate::lex::names_contain(table_names_of(old(self)@.tables), table@.name) ==> !r
                && final(self)@ == old(self)@,
            !crate::lex::names_contain(table_names_of(old(self)@.tables), table@.name) ==> r
                && final(self)@.tables == old(self)@.tables.insert(
                crate::lex::insert_pos(table_names_of(old(self)@.tables), table@.name),
                table@,
            ),
    {
        let r = insert_table_sorted(&mut self.tables, table);
        proof {
            if !r {
                assert(final(self)@ =~= old(self)@);
            }
        }
        r
    }
}

impl Partition {
    /// A partition of the given key with no chunks.
    pub fn new(key: String) -> (r: Partition)
        ensures
            r@ == (PartitionV { key: bytes_view(key@), chunks: Seq::empty() }),
    {
        let r = Partition { key, chunks: Vec::new() };
        proof {
            assert(r@.chunks =~= Seq::<ReadChunkV>::empty());
            assert(r@ =~= PartitionV { key: bytes_view(r.key@), chunks: Seq::empty() });
        }
        r
    }

    /// Appends a chunk to the partition.
    pub fn push_chunk(&mut self, chunk: ReadChunk)
        ensures
            final(self)@.key == old(self)@.key,
            final(self)@.chunks =~= old(self)@.chunks.push(chunk@),
    {
        self.chunks.push(chunk);
    }
}

impl ReadDatabase {
    /// A store with no partitions.
    pub fn new() -> (r: ReadDatabase)
        ensures
            r@ =~= Seq::<PartitionV>::empty(),
    {
        ReadDatabase { partitions: Vec::new() }
    }

    /// Appends a partition to the store.
    pub fn push_partition(&mut self, partition: Partition)
        ensures
            final(self)@ =~= old(self)@.push(partition@),
    {
        self.partitions.push(partition);
    }

    /// Index of the first partition of the given key, by linear scan.
    fn find_partition_index(&self, key: &str) -> (r: Option<usize>)
        ensures
            match r {
                Some(i) => i < self@.len() && find_partition(self@, key.spec_bytes()) == Some(
                    self@[i as int],
                ),
                None => find_partition(self@, key.spec_bytes()) is None,
            },
    {
        let mut i: usize = 0;
        while i < self.partitions.len()
            invariant
                i <= self.partitions@.len(),
                forall|j: int| 0 <= j < i ==> (#[trigger] self@[j]).key != key.spec_bytes(),
            decreases self.partitions@.len() - i,
        {
            if matches!(str_compare(self.partitions[i].key.as_str(), key), Cmp::Eq) {
                proof {
                    lemma_find_partition_found(self@, key.spec_bytes(), i as int);
                }
                return Some(i);
            }
            i += 1;
        }
        proof {
            lemma_find_partition_missing(self@, key.spec_bytes());
        }
        None
    }

    /// Runs a filtered read of one table of one chunk and returns the
    /// matching batches: none when the predicate rules the table out, one
    /// otherwise.
    pub fn read_filter(
        &self,
        partition_key: &str,
        table_name: &str,
        chunk_id: u32,
        predicate: &ReadPredicate,
        selection: Selection<'_>,
    ) -> (r: Result<Vec<RecordBatch>, ReadError>)
        requires
            read_database_wf(self@),
        ensures
            match r {
                Ok(batches) => spec_read_filter(
                    self@,
                    partition_key.spec_bytes(),
                    table_name.spec_bytes(),
                    chunk_id,
                    predicate@,
                    selection@,
                ) == Ok::<Seq<BatchV>, ReadErrorV>(batches_view(batches@)) && forall|k: int|
                    0 <= k < batches@.len() ==> crate::data::batch_wf(
                        #[trigger] batches_view(batches@)[k],
                    ) && (selection@ is All ==> crate::data::batch_columns_sorted(
                        batches_view(batches@)[k],
                    )),
                Err(e) => spec_read_filter(
                    self@,
                    partition_key.spec_bytes(),
                    table_name.spec_bytes(),
                    chunk_id,
                    predicate@,
                    selection@,
                ) == Err::<Seq<BatchV>, ReadErrorV>(e@),
            },
    {
        let pi = match self.find_partition_index(partition_key) {
            None => {
                return Err(ReadError::PartitionNotFound {
                    partition_key: partition_key.to_owned(),
                });
            },
            Some(pi) => pi,
        };
        let partition = &self.partitions[pi];
        let ci = match Self::find_chunk_index(&partition.chunks, chunk_id) {
            None => {
                return Err(ReadError::ChunkNotFound { chunk_id });
            },
            Some(ci) => ci,
        };
        let chunk = &partition.chunks[ci];
        let ti = match find_table_index(&chunk.tables, table_name) {
            None => {
                return Err(ReadError::TableNotFound { table_name: table_name.to_owned() });
            },
            Some(ti) => ti,
        };
        let admitted = match &predicate.table_names {
            None => true,
            Some(ns) => crate::lex::contains_name(ns, table_name),
        };
        let mut batches: Vec<RecordBatch> = Vec::new();
        if !admitted {
            proof {
                assert(batches_view(batches@) =~= Seq::<BatchV>::empty());
            }
            return Ok(batches);
        }
        proof {
            assert(self@[pi as int].chunks[ci as int] == chunk@);
            assert(tables_wf(chunk@.tables));
            assert(table_wf(chunk@.tables[ti as int]));
        }
        match chunk.tables[ti].project(selection) {
            Ok(batch) => {
                batches.push(batch);
                proof {
                    assert(batches_view(batches@) =~= seq![batch@]);
                }
                Ok(batches)
            },
            Err(missing) => Err(ReadError::ColumnNotFound { column_name: missing }),
        }
    }

    /// Index of the first chunk of the given identifier, by linear scan.
    fn find_chunk_index(chunks: &Vec<ReadChunk>, chunk_id: u32) -> (r: Option<usize>)
        ensures
            match r {
                Some(i) => i < chunks@.len() && find_read_chunk(
                    Seq::new(chunks@.len(), |k: int| chunks@[k]@),
                    chunk_id,
                ) == Some(chunks@[i as int]@),
                None => find_read_chunk(
                    Seq::new(chunks@.len(), |k: int| chunks@[k]@),
                    chunk_id,
                ) is None,
            },
    {
        let ghost cs = Seq::new(chunks@.len(), |k: int| chunks@[k]@);
        let mut i: usize = 0;
        while i < chunks.len()
            invariant
                cs == Seq::new(chunks@.len(), |k: int| chunks@[k]@),
                i <= chunks@.len(),
                forall|j: int| 0 <= j < i ==> (#[trigger] cs[j]).id != chunk_id,
            decreases chunks@.len() - i,
        {
            if chunks[i].id == chunk_id {
                proof {
                    lemma_find_read_chunk_found(cs, chunk_id, i as int);
                }
                return Some(i);
            }
            i += 1;
        }
        proof {
            lemma_find_read_chunk_missing(cs, chunk_id);
        }
        None
    }

    /// The names of one chunk's tables that the predicate admits, in the
    /// chunk's sorted table order.
    pub fn table_names(&self, partition_key: &str, chunk_id: u32, predicate: &ReadPredicate) -> (r:
        Result<Vec<String>, ReadError>)
        ensures
            match r {
                Ok(names) => spec_read_table_names(
                    self@,
                    partition_key.spec_bytes(),
                    chunk_id,
                    predicate@,
                ) == Ok::<Seq<Seq<u8>>, ReadErrorV>(names_view(names@)),
                Err(e) => spec_read_table_names(
                    self@,
                    partition_key.spec_bytes(),
                    chunk_id,
                    predicate@,
                ) == Err::<Seq<Seq<u8>>, ReadErrorV>(e@),
            },
    {
        let pi = match self.find_partition_index(partition_key) {
            None => {
                return Err(ReadError::PartitionNotFound {
                    partition_key: partition_key.to_owned(),
                });
            },
            Some(pi) => pi,
        };
        let partition = &self.partitions[pi];
        let ci = match Self::find_chunk_index(&partition.chunks, chunk_id) {
            None => {
                return Err(ReadError::ChunkNotFound { chunk_id });
            },
            Some(ci) => ci,
        };
        let chunk = &partition.chunks[ci];
        Ok(Self::admitted_table_names(&chunk.tables, predicate))
    }

    /// The names of the given tables that the predicate admits, in order.
    #[verifier::loop_isolation(false)]
    fn admitted_table_names(tables: &Vec<Table>, predicate: &ReadPredicate) -> (r: Vec<String>)
        ensures
            names_view(r@) =~= matching_table_names(tables_view(tables@), predicate@.table_names),
    {
        let ghost restriction = predicate@.table_names;
        let ghost ts = tables_view(tables@);
        let mut out: Vec<String> = Vec::new();
        proof {
            assert(ts.take(0) =~= Seq::<TableV>::empty());
            assert(names_view(out@) =~= Seq::<Seq<u8>>::empty());
        }
        let mut i: usize = 0;
        while i < tables.len()
            invariant
                i <= tables@.len(),
                names_view(out@) == matching_table_names(ts.take(i as int), restriction),
            decreases tables@.len() - i,
        {
            let ghost prefix = names_view(out@);
            let admitted = match &predicate.table_names {
                None => true,
                Some(ns) => crate::lex::contains_name(ns, tables[i].name.as_str()),
            };
            proof {
                assert(ts.take(i as int + 1) =~= ts.take(i as int).push(ts[i as int]));
                crate::table::lemma_matching_push(ts.take(i as int), restriction, ts[i as int]);
            }
            if admitted {
                out.push(tables[i].name.clone());
                proof {
                    assert(names_view(out@) =~= prefix.push(ts[i as int].name));
                    assert(prefix.push(ts[i as int].name) =~= prefix + seq![ts[i as int].name]);
                }
            } else {
                proof {
                    assert(matching_table_names(ts.take(i as int), restriction) + Seq::<
                        Seq<u8>,
                    >::empty() =~= matching_table_names(ts.take(i as int), restriction));
                }
            }
            i += 1;
        }
        proof {
            assert(ts.take(tables@.len() as int) =~= ts);
        }
        out
    }
}

} // verus!
