//! The mutable write-buffer tier's chunk model.
//!
//! A mutable chunk is a live, in-memory chunk holding whole tables. This
//! layer only reads it: statistics, row materialization, and a
//! predicate-compilable name enumeration. Compiling a predicate resolves its
//! field columns against the chunk; a chunk with zero rows answers a name
//! enumeration with the empty set without compiling the predicate at all.

use vstd::prelude::*;
use vstd::string::StringSliceAdditionalSpecFns;
use crate::data::{batches_view, BatchV, RecordBatch, TableStats, TableStatsV};
use crate::lex::{bytes_view, clone_names, insert_pos, names_contain, names_view, str_compare, Cmp};
use crate::predicate::Predicate;
use crate::selection::{Selection, SelectionV};
use crate::table::{
    find_table, find_table_index, lemma_matching_push, matching_table_names, select_batch,
    table_names_of, table_wf, tables_view, tables_wf, Table, TableV,
};

verus! {

/// Failure inside the mutable tier.
#[derive(Debug)]
pub enum MutableError {
    /// The chunk holds no table of this name.
    TableNotFound { table_name: String },
    /// A selection named a column the table lacks.
    ColumnNotFound { column_name: String },
    /// A predicate named a field column no table of the chunk holds.
    UnknownFieldColumn { column_name: String },
}

/// Mathematical view of a [`MutableError`].
#[verifier::ext_equal]
pub enum MutableErrorV {
    TableNotFound(Seq<u8>),
    ColumnNotFound(Seq<u8>),
    UnknownFieldColumn(Seq<u8>),
}

impl View for MutableError {
    type V = MutableErrorV;

    open spec fn view(&self) -> MutableErrorV {
        match self {
            MutableError::TableNotFound { table_name } => MutableErrorV::TableNotFound(
                bytes_view(table_name@),
            ),
            MutableError::ColumnNotFound { column_name } => MutableErrorV::ColumnNotFound(
                bytes_view(column_name@),
            ),
            MutableError::UnknownFieldColumn { column_name } => MutableErrorV::UnknownFieldColumn(
                bytes_view(column_name@),
            ),
        }
    }
}

/// A predicate compiled against one mutable chunk: its field columns are
/// resolved, only the table-name restriction remains.
#[derive(Debug)]
pub struct ChunkPredicate {
    pub table_names: Option<Vec<String>>,
}

/// Mathematical view of a [`ChunkPredicate`].
#[verifier::ext_equal]
pub struct ChunkPredicateV {
    pub table_names: Option<Seq<Seq<u8>>>,
}

impl View for ChunkPredicate {
    type V = ChunkPredicateV;

    open spec fn view(&self) -> ChunkPredicateV {
        ChunkPredicateV {
            table_names: match self.table_names {
                None => None,
                Some(ns) => Some(names_view(ns@)),
            },
        }
    }
}

/// One chunk of the mutable write buffer: an identifier scoped to its owning
/// partition, and the tables it holds, sorted by name.
#[derive(Debug)]
pub struct MutableChunk {
    pub id: u32,
    pub tables: Vec<Table>,
}

/// Mathematical view of a [`MutableChunk`].
#[verifier::ext_equal]
pub struct MutableChunkV {
    pub id: u32,
    pub tables: Seq<TableV>,
}

impl View for MutableChunk {
    type V = MutableChunkV;

    open spec fn view(&self) -> MutableChunkV {
        MutableChunkV { id: self.id, tables: tables_view(self.tables@) }
    }
}

/// A well-formed mutable chunk: tables sorted by name and each well-formed.
pub open spec fn mutable_chunk_wf(c: MutableChunkV) -> bool {
    tables_wf(c.tables)
}

/// A chunk with zero rows in every table (or with no tables at all).
pub open spec fn chunk_is_empty(c: MutableChunkV) -> bool {
    forall|i: int| 0 <= i < c.tables.len() ==> (#[trigger] c.tables[i]).row_count == 0
}

/// Whether any table of the chunk holds a column of the given name.
pub open spec fn chunk_has_column(ts: Seq<TableV>, name: Seq<u8>) -> bool {
    exists|i: int, j: int|
        0 <= i < ts.len() && 0 <= j < ts[i].columns.len() && (#[trigger] ts[i].columns[j]).name
            == name
}

/// The first field column a predicate names that no table of the chunk
/// holds; compilation fails exactly on it.
pub open spec fn first_unknown_column(ts: Seq<TableV>, names: Seq<Seq<u8>>) -> Option<Seq<u8>>
    decreases names.len(),
{
    if names.len() == 0 {
        None
    } else if !chunk_has_column(ts, names[0]) {
        Some(names[0])
    } else {
        first_unknown_column(ts, names.skip(1))
    }
}

proof fn lemma_first_unknown_at(ts: Seq<TableV>, names: Seq<Seq<u8>>, i: int)
    requires
        0 <= i < names.len(),
        forall|j: int| 0 <= j < i ==> chunk_has_column(ts, #[trigger] names[j]),
        !chunk_has_column(ts, names[i]),
    ensures
        first_unknown_column(ts, names) == Some(names[i]),
    decreases i,
{
    if i > 0 {
        lemma_first_unknown_at(ts, names.skip(1), i - 1);
    }
}

proof fn lemma_first_unknown_none(ts: Seq<TableV>, names: Seq<Seq<u8>>)
    requires
        forall|j: int| 0 <= j < names.len() ==> chunk_has_column(ts, #[trigger] names[j]),
    ensures
        first_unknown_column(ts, names) is None,
    decreases names.len(),
{
    if names.len() > 0 {
        lemma_first_unknown_none(ts, names.skip(1));
    }
}

/// The per-table statistics of a table sequence: name and row count each.
pub open spec fn stats_of(ts: Seq<TableV>) -> Seq<TableStatsV> {
    Seq::new(ts.len(), |i: int| TableStatsV { name: ts[i].name, row_count: ts[i].row_count as u64 })
}

/// What materializing one table of a mutable chunk yields.
pub open spec fn mb_table_to_arrow(ts: Seq<TableV>, table: Seq<u8>, sel: SelectionV) -> Result<
    BatchV,
    MutableErrorV,
> {
    match find_table(ts, table) {
        None => Err(MutableErrorV::TableNotFound(table)),
        Some(t) => match select_batch(t, sel) {
            Ok(b) => Ok(b),
            Err(n) => Err(MutableErrorV::ColumnNotFound(n)),
        },
    }
}

impl MutableChunk {
    /// A chunk with the given identifier and no tables.
    pub fn new(id: u32) -> (r: MutableChunk)
        ensures
            r@ == (MutableChunkV { id, tables: Seq::empty() }),
            mutable_chunk_wf(r@),
    {
        let r = MutableChunk { id, tables: Vec::new() };
        proof {
            assert(r@.tables =~= Seq::<TableV>::empty());
            assert(r@ =~= MutableChunkV { id, tables: Seq::empty() });
        }
        r
    }

    /// The chunk's identifier, unique within its owning partition.
    pub fn id(&self) -> (r: u32)
        ensures
            r == self@.id,
    {
        self.id
    }

    /// Inserts a table at its sorted position. Returns `false`, leaving the
    /// chunk unchanged, when a table of that name is already present.
    pub fn insert_table(&mut self, table: Table) -> (r: bool)
        requires
            mutable_chunk_wf(old(self)@),
            table_wf(table@),
        ensures
            mutable_chunk_wf(final(self)@),
            final(self)@.id == old(self)@.id,
            names_contain(table_names_of(old(self)@.tables), table@.name) ==> !r && final(self)@
                == old(self)@,
            !names_contain(table_names_of(old(self)@.tables), table@.name) ==> r
                && final(self)@.tables == old(self)@.tables.insert(
                insert_pos(table_names_of(old(self)@.tables), table@.name),
                table@,
            ),
    {
        let r = crate::table::insert_table_sorted(&mut self.tables, table);
        proof {
            if !r {
                assert(final(self)@ =~= old(self)@);
            }
        }
        r
    }

    /// Whether the chunk holds zero rows over all of its tables.
    pub fn is_empty(&self) -> (r: bool)
        ensures
            r == chunk_is_empty(self@),
    {
        let mut i: usize = 0;
        while i < self.tables.len()
            invariant
                i <= self.tables@.len(),
                forall|j: int| 0 <= j < i ==> (#[trigger] self@.tables[j]).row_count == 0,
            decreases self.tables@.len() - i,
        {
            if self.tables[i].row_count > 0 {
                assert(self@.tables[i as int].row_count != 0);
                return false;
            }
            i += 1;
        }
        true
    }

    /// Per-table summary statistics: the row count of every table, without a
    /// scan. The mutable tier can always produce them.
    pub fn table_stats(&self) -> (r: Vec<TableStats>)
        ensures
            Seq::new(r@.len(), |i: int| r@[i]@) =~= stats_of(self@.tables),
    {
        let mut out: Vec<TableStats> = Vec::new();
        let mut i: usize = 0;
        while i < self.tables.len()
            invariant
                i <= self.tables@.len(),
                out@.len() == i,
                forall|j: int| 0 <= j < i ==> out@[j]@ == stats_of(self@.tables)[j],
            decreases self.tables@.len() - i,
        {
            out.push(
                TableStats {
                    name: self.tables[i].name.clone(),
                    row_count: self.tables[i].row_count as u64,
                },
            );
            i += 1;
        }
        out
    }

    /// Whether any table of the chunk holds a column of the given name.
    pub fn has_column(&self, name: &str) -> (r: bool)
        ensures
            r == chunk_has_column(self@.tables, name.spec_bytes()),
    {
        let ghost ts = self@.tables;
        let mut i: usize = 0;
        while i < self.tables.len()
            invariant
                ts == self@.tables,
                i <= self.tables@.len(),
                forall|i2: int, j2: int|
                    0 <= i2 < i && 0 <= j2 < ts[i2].columns.len()
                        ==> (#[trigger] ts[i2].columns[j2]).name != name.spec_bytes(),
            decreases self.tables@.len() - i,
        {
            let table = &self.tables[i];
            let mut j: usize = 0;
            while j < table.columns.len()
                invariant
                    ts == self@.tables,
                    i < self.tables@.len(),
                    table == self.tables@[i as int],
                    j <= table.columns@.len(),
                    forall|j2: int| 0 <= j2 < j ==> (#[trigger] ts[i as int].columns[j2]).name
                        != name.spec_bytes(),
                decreases table.columns@.len() - j,
            {
                if matches!(str_compare(table.columns[j].name.as_str(), name), Cmp::Eq) {
                    assert(ts[i as int].columns[j as int].name == name.spec_bytes());
                    return true;
                }
                j += 1;
            }
            assert(forall|j2: int|
                0 <= j2 < ts[i as int].columns.len()
                    ==> (#[trigger] ts[i as int].columns[j2]).name != name.spec_bytes());
            i += 1;
        }
        false
    }

    /// Compiles a tier-agnostic predicate against this chunk: every field
    /// column it names must exist in some table of the chunk; the first one
    /// that does not is the error. The table-name restriction carries over.
    #[verifier::loop_isolation(false)]
    pub fn compile_predicate(&self, predicate: &Predicate) -> (r: Result<
        ChunkPredicate,
        MutableError,
    >)
        ensures
            match r {
                Ok(cp) => {
                    &&& match predicate@.field_columns {
                        None => true,
                        Some(fs) => first_unknown_column(self@.tables, fs) is None,
                    }
                    &&& cp@.table_names == predicate@.table_names
                },
                Err(e) => {
                    &&& predicate@.field_columns is Some
                    &&& first_unknown_column(self@.tables, predicate@.field_columns->0) is Some
                    &&& e@ == MutableErrorV::UnknownFieldColumn(
                        first_unknown_column(self@.tables, predicate@.field_columns->0)->0,
                    )
                },
            },
    {
        if let Some(fields) = &predicate.field_columns {
            let ghost fs = names_view(fields@);
            let mut i: usize = 0;
            while i < fields.len()
                invariant
                    i <= fields@.len(),
                    fs == names_view(fields@),
                    forall|j: int| 0 <= j < i ==> chunk_has_column(self@.tables, #[trigger] fs[j]),
                decreases fields@.len() - i,
            {
                if !self.has_column(fields[i].as_str()) {
                    proof {
                        lemma_first_unknown_at(self@.tables, fs, i as int);
                    }
                    return Err(MutableError::UnknownFieldColumn { column_name: fields[i].clone() });
                }
                i += 1;
            }
            proof {
                lemma_first_unknown_none(self@.tables, fs);
            }
        }
        let table_names = match &predicate.table_names {
            None => None,
            Some(ns) => Some(clone_names(ns)),
        };
        Ok(ChunkPredicate { table_names })
    }

    /// Materializes one table of the chunk into the caller's accumulator,
    /// appending exactly one batch on success and leaving the accumulator
    /// untouched on failure.
    pub fn table_to_arrow(
        &self,
        dst: &mut Vec<RecordBatch>,
        table_name: &str,
        selection: Selection<'_>,
    ) -> (r: Result<(), MutableError>)
        requires
            mutable_chunk_wf(self@),
        ensures
            match r {
                Ok(()) => mb_table_to_arrow(self@.tables, table_name.spec_bytes(), selection@)
                    is Ok && batches_view(final(dst)@) =~= batches_view(old(dst)@).push(
                    mb_table_to_arrow(self@.tables, table_name.spec_bytes(), selection@)->Ok_0,
                ) && crate::data::batch_wf(
                    mb_table_to_arrow(self@.tables, table_name.spec_bytes(), selection@)->Ok_0,
                ) && (selection@ is All ==> crate::data::batch_columns_sorted(
                    mb_table_to_arrow(self@.tables, table_name.spec_bytes(), selection@)->Ok_0,
                )),
                Err(e) => mb_table_to_arrow(self@.tables, table_name.spec_bytes(), selection@)
                    is Err && e@ == mb_table_to_arrow(
                    self@.tables,
                    table_name.spec_bytes(),
                    selection@,
                )->Err_0 && final(dst)@ == old(dst)@,
            },
    {
        match find_table_index(&self.tables, table_name) {
            None => Err(MutableError::TableNotFound { table_name: table_name.to_owned() }),
            Some(i) => {
                assert(table_wf(self@.tables[i as int]));
                match self.tables[i].project(selection) {
                    Ok(batch) => {
                        dst.push(batch);
                        Ok(())
                    },
                    Err(missing) => Err(MutableError::ColumnNotFound { column_name: missing }),
                }
            },
        }
    }

    /// The names of the chunk's tables that a compiled predicate admits, in
    /// the chunk's sorted table order.
    #[verifier::loop_isolation(false)]
    pub fn table_names(&self, chunk_predicate: &ChunkPredicate) -> (r: Vec<String>)
        ensures
            names_view(r@) =~= matching_table_names(self@.tables, chunk_predicate@.table_names),
    {
        let ghost restriction = chunk_predicate@.table_names;
        let ghost ts = self@.tables;
        let mut out: Vec<String> = Vec::new();
        proof {
            assert(ts.take(0) =~= Seq::<TableV>::empty());
            assert(names_view(out@) =~= Seq::<Seq<u8>>::empty());
        }
        let mut i: usize = 0;
        while i < self.tables.len()
            invariant
                i <= self.tables@.len(),
                names_view(out@) == matching_table_names(ts.take(i as int), restriction),
            decreases self.tables@.len() - i,
        {
            let ghost prefix = names_view(out@);
            let admitted = match &chunk_predicate.table_names {
                None => true,
                Some(ns) => crate::lex::contains_name(ns, self.tables[i].name.as_str()),
            };
            proof {
                assert(ts.take(i as int + 1) =~= ts.take(i as int).push(ts[i as int]));
                lemma_matching_push(ts.take(i as int), restriction, ts[i as int]);
            }
            if admitted {
                out.push(self.tables[i].name.clone());
                proof {
                    assert(names_view(out@) =~= prefix.push(ts[i as int].name));
                    assert(prefix.push(ts[i as int].name) =~= prefix + seq![ts[i as int].name]);
                }
            } else {
                proof {
                    assert(matching_table_names(ts.take(i as int), restriction) + Seq::<
                        Seq<u8>,
                    >::empty() =~= matching_table_names(ts.take(i as int), restriction));
                }
            }
            i += 1;
        }
        proof {
            assert(ts.take(self.tables@.len() as int) =~= ts);
        }
        out
    }
}

} // verus!
