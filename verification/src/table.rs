//! The in-memory table model shared by the storage tiers.
//!
//! A table holds named columns in strictly increasing lexicographic name
//! order, each with exactly `row_count` cells. Materializing a column
//! selection out of a table is the common step behind every tier's
//! row-materialization call.

use vstd::prelude::*;
use vstd::string::StringSliceAdditionalSpecFns;
use crate::data::{
    batch_wf, batch_columns_sorted, column_names, values_view, BatchV, Column, ColumnV,
    RecordBatch, Value,
};
use crate::lex::{
    bytes_view, insert_pos, lemma_insert_pos_unique, lemma_sorted_insert, lex_lt, names_contain,
    names_sorted, str_compare, Cmp,
};
use crate::predicate::restriction_admits;
use crate::selection::{Selection, SelectionV};

verus! {

/// One table of one chunk: a name, a row count, and sorted named columns.
#[derive(Debug)]
pub struct Table {
    pub name: String,
    pub row_count: usize,
    pub columns: Vec<Column>,
}

/// Mathematical view of a [`Table`].
#[verifier::ext_equal]
pub struct TableV {
    pub name: Seq<u8>,
    pub row_count: nat,
    pub columns: Seq<ColumnV>,
}

impl View for Table {
    type V = TableV;

    open spec fn view(&self) -> TableV {
        TableV {
            name: bytes_view(self.name@),
            row_count: self.row_count as nat,
            columns: Seq::new(self.columns@.len(), |i: int| self.columns@[i]@),
        }
    }
}

/// A well-formed table: column names strictly sorted, every column with
/// exactly `row_count` cells.
pub open spec fn table_wf(t: TableV) -> bool {
    &&& names_sorted(column_names(t.columns))
    &&& forall|i: int| 0 <= i < t.columns.len() ==> #[trigger] t.columns[i].values.len()
        == t.row_count
}

/// The views of a table sequence.
pub open spec fn tables_view(ts: Seq<Table>) -> Seq<TableV> {
    Seq::new(ts.len(), |i: int| ts[i]@)
}

/// The names of a table sequence, in order.
pub open spec fn table_names_of(ts: Seq<TableV>) -> Seq<Seq<u8>> {
    Seq::new(ts.len(), |i: int| ts[i].name)
}

/// A well-formed table list: names strictly sorted, every table well-formed.
pub open spec fn tables_wf(ts: Seq<TableV>) -> bool {
    &&& names_sorted(table_names_of(ts))
    &&& forall|i: int| 0 <= i < ts.len() ==> table_wf(#[trigger] ts[i])
}

/// The first table of the given name, if any.
pub open spec fn find_table(ts: Seq<TableV>, name: Seq<u8>) -> Option<TableV>
    decreases ts.len(),
{
    if ts.len() == 0 {
        None
    } else if ts[0].name == name {
        Some(ts[0])
    } else {
        find_table(ts.skip(1), name)
    }
}

/// A scan that stopped at index `i` pins down what `find_table` returns.
pub proof fn lemma_find_table_found(ts: Seq<TableV>, name: Seq<u8>, i: int)
    requires
        0 <= i < ts.len(),
        ts[i].name == name,
        forall|j: int| 0 <= j < i ==> (#[trigger] ts[j]).name != name,
    ensures
        find_table(ts, name) == Some(ts[i]),
    decreases i,
{
    if i > 0 {
        lemma_find_table_found(ts.skip(1), name, i - 1);
    }
}

/// A scan that found no table of the name pins `find_table` to `None`.
pub proof fn lemma_find_table_missing(ts: Seq<TableV>, name: Seq<u8>)
    requires
        forall|j: int| 0 <= j < ts.len() ==> (#[trigger] ts[j]).name != name,
    ensures
        find_table(ts, name) is None,
    decreases ts.len(),
{
    if ts.len() > 0 {
        lemma_find_table_missing(ts.skip(1), name);
    }
}

/// The first column of the given name, if any.
pub open spec fn find_column(cols: Seq<ColumnV>, name: Seq<u8>) -> Option<ColumnV>
    decreases cols.len(),
{
    if cols.len() == 0 {
        None
    } else if cols[0].name == name {
        Some(cols[0])
    } else {
        find_column(cols.skip(1), name)
    }
}

proof fn lemma_find_column_found(cols: Seq<ColumnV>, name: Seq<u8>, i: int)
    requires
        0 <= i < cols.len(),
        cols[i].name == name,
        forall|j: int| 0 <= j < i ==> (#[trigger] cols[j]).name != name,
    ensures
        find_column(cols, name) == Some(cols[i]),
    decreases i,
{
    if i > 0 {
        lemma_find_column_found(cols.skip(1), name, i - 1);
    }
}

proof fn lemma_find_column_missing(cols: Seq<ColumnV>, name: Seq<u8>)
    requires
        forall|j: int| 0 <= j < cols.len() ==> (#[trigger] cols[j]).name != name,
    ensures
        find_column(cols, name) is None,
    decreases cols.len(),
{
    if cols.len() > 0 {
        lemma_find_column_missing(cols.skip(1), name);
    }
}

/// The columns a name list selects, left to right; the first missing name is
/// the error.
pub open spec fn select_cols(cols: Seq<ColumnV>, names: Seq<Seq<u8>>) -> Result<
    Seq<ColumnV>,
    Seq<u8>,
>
    decreases names.len(),
{
    if names.len() == 0 {
        Ok(Seq::empty())
    } else {
        match find_column(cols, names[0]) {
            None => Err(names[0]),
            Some(c) => match select_cols(cols, names.skip(1)) {
                Ok(rest) => Ok(seq![c] + rest),
                Err(e) => Err(e),
            },
        }
    }
}

proof fn lemma_select_cols_push(cols: Seq<ColumnV>, names: Seq<Seq<u8>>, name: Seq<u8>)
    ensures
        select_cols(cols, names.push(name)) == (match select_cols(cols, names) {
            Ok(acc) => match find_column(cols, name) {
                Some(c) => Ok::<Seq<ColumnV>, Seq<u8>>(acc.push(c)),
                None => Err::<Seq<ColumnV>, Seq<u8>>(name),
            },
            Err(e) => Err::<Seq<ColumnV>, Seq<u8>>(e),
        }),
    decreases names.len(),
{
    let pushed = names.push(name);
    if names.len() == 0 {
        assert(pushed[0] == name);
        assert(pushed.skip(1) =~= Seq::<Seq<u8>>::empty());
        assert(select_cols(cols, Seq::<Seq<u8>>::empty()) == Ok::<Seq<ColumnV>, Seq<u8>>(
            Seq::empty(),
        ));
        if find_column(cols, name) is Some {
            let c = find_column(cols, name)->Some_0;
            assert(seq![c] + Seq::<ColumnV>::empty() =~= seq![c]);
            assert(seq![c] =~= Seq::<ColumnV>::empty().push(c));
        }
    } else {
        assert(pushed[0] == names[0]);
        assert(pushed.skip(1) =~= names.skip(1).push(name));
        lemma_select_cols_push(cols, names.skip(1), name);
        if find_column(cols, names[0]) is Some && select_cols(cols, names.skip(1)) is Ok {
            let c = find_column(cols, names[0])->Some_0;
            let rest = select_cols(cols, names.skip(1))->Ok_0;
            if find_column(cols, name) is Some {
                let cn = find_column(cols, name)->Some_0;
                assert(seq![c] + rest.push(cn) =~= (seq![c] + rest).push(cn));
            }
        }
    }
}

proof fn lemma_select_cols_err_stays(cols: Seq<ColumnV>, names: Seq<Seq<u8>>, i: int)
    requires
        0 <= i <= names.len(),
        select_cols(cols, names.take(i)) is Err,
    ensures
        select_cols(cols, names) == select_cols(cols, names.take(i)),
    decreases names.len() - i,
{
    if i == names.len() {
        assert(names.take(i) =~= names);
    } else {
        assert(names.take(i + 1) =~= names.take(i).push(names[i]));
        lemma_select_cols_push(cols, names.take(i), names[i]);
        lemma_select_cols_err_stays(cols, names, i + 1);
    }
}

/// What materializing a selection out of a table yields: for all columns the
/// table's own (sorted) columns, for named columns those columns in the
/// requested order; the error is the first requested name the table lacks.
pub open spec fn select_batch(t: TableV, sel: SelectionV) -> Result<BatchV, Seq<u8>> {
    match sel {
        SelectionV::All => Ok(BatchV { row_count: t.row_count, columns: t.columns }),
        SelectionV::Cols(names) => match select_cols(t.columns, names) {
            Ok(cols) => Ok(BatchV { row_count: t.row_count, columns: cols }),
            Err(n) => Err(n),
        },
    }
}

impl Table {
    /// An empty table of the given name standing for `row_count` rows.
    pub fn new(name: String, row_count: usize) -> (r: Table)
        ensures
            r@ == (TableV {
                name: bytes_view(name@),
                row_count: row_count as nat,
                columns: Seq::empty(),
            }),
            table_wf(r@),
    {
        let r = Table { name, row_count, columns: Vec::new() };
        proof {
            assert(r@.columns =~= Seq::<ColumnV>::empty());
            assert(r@ =~= TableV {
                name: bytes_view(r.name@),
                row_count: r.row_count as nat,
                columns: Seq::empty(),
            });
        }
        r
    }

    /// Inserts a column at its sorted position. Returns `false`, leaving the
    /// table unchanged, when a column of that name is already present.
    #[verifier::loop_isolation(false)]
    pub fn insert_column(&mut self, name: String, values: Vec<Value>) -> (r: bool)
        requires
            table_wf(old(self)@),
            values@.len() == old(self)@.row_count,
        ensures
            table_wf(final(self)@),
            final(self)@.name == old(self)@.name,
            final(self)@.row_count == old(self)@.row_count,
            names_contain(column_names(old(self)@.columns), bytes_view(name@)) ==> !r
                && final(self)@ == old(self)@,
            !names_contain(column_names(old(self)@.columns), bytes_view(name@)) ==> r
                && final(self)@.columns == old(self)@.columns.insert(
                insert_pos(column_names(old(self)@.columns), bytes_view(name@)),
                ColumnV { name: bytes_view(name@), values: values_view(values@) },
            ),
    {
        let ghost names = column_names(old(self)@.columns);
        let ghost target = bytes_view(name@);
        let n = self.columns.len();
        let mut i: usize = 0;
        let mut pos: usize = n;
        let mut found_pos = false;
        while i < n
            invariant
                n == self.columns@.len(),
                *self == *old(self),
                names == column_names(self@.columns),
                names.len() == n,
                target == bytes_view(name@),
                i <= n,
                !found_pos ==> pos == n && forall|j: int| 0 <= j < i ==> lex_lt(
                    #[trigger] column_names(self@.columns)[j],
                    target,
                ),
                found_pos ==> pos < n && i > pos && lex_lt(
                    target,
                    column_names(self@.columns)[pos as int],
                ) && forall|j: int| 0 <= j < pos ==> lex_lt(
                    #[trigger] column_names(self@.columns)[j],
                    target,
                ),
            decreases n - i,
        {
            if !found_pos {
                match str_compare(self.columns[i].name.as_str(), name.as_str()) {
                    Cmp::Eq => {
                        assert(names_contain(names, target)) by {
                            assert(names[i as int] == target);
                        }
                        return false;
                    },
                    Cmp::Gt => {
                        pos = i;
                        found_pos = true;
                    },
                    Cmp::Lt => {},
                }
            }
            i += 1;
        }
        proof {
            lemma_insert_pos_unique(names, target, pos as int);
            lemma_sorted_insert(names, target, pos as int);
        }
        let column = Column { name, values };
        let ghost colv = column@;
        self.columns.insert(pos, column);
        proof {
            assert(final(self)@.columns =~= old(self)@.columns.insert(pos as int, colv));
            assert(column_names(final(self)@.columns) =~= names.insert(pos as int, target));
        }
        true
    }

    /// Materializes the requested columns as one batch: the table's own
    /// column order for an all-columns selection, the requested order for
    /// named columns. The error carries the first requested name the table
    /// lacks. A request for zero columns yields a batch of zero columns and
    /// never fails.
    #[verifier::loop_isolation(false)]
    pub fn project(&self, selection: Selection<'_>) -> (r: Result<RecordBatch, String>)
        requires
            table_wf(self@),
        ensures
            match r {
                Ok(batch) => select_batch(self@, selection@) == Ok::<BatchV, Seq<u8>>(batch@)
                    && batch_wf(batch@) && batch@.row_count == self@.row_count,
                Err(missing) => select_batch(self@, selection@) == Err::<BatchV, Seq<u8>>(
                    bytes_view(missing@),
                ),
            },
            selection@ is All && r is Ok ==> batch_columns_sorted(r->Ok_0@),
    {
        match selection {
            Selection::AllColumns => {
                let mut columns: Vec<Column> = Vec::new();
                let mut i: usize = 0;
                while i < self.columns.len()
                    invariant
                        i <= self.columns@.len(),
                        columns@.len() == i,
                        forall|j: int| 0 <= j < i ==> columns@[j]@ == self.columns@[j]@,
                    decreases self.columns@.len() - i,
                {
                    columns.push(self.columns[i].duplicate());
                    i += 1;
                }
                let batch = RecordBatch { row_count: self.row_count, columns };
                proof {
                    assert(batch@.columns =~= self@.columns);
                    assert(batch@ =~= BatchV {
                        row_count: self@.row_count,
                        columns: self@.columns,
                    });
                    assert(column_names(batch@.columns) =~= column_names(self@.columns));
                }
                Ok(batch)
            },
            Selection::SpecifiedColumns(names) => {
                let ghost name_views = selection@->Cols_0;
                let mut columns: Vec<Column> = Vec::new();
                proof {
                    assert(name_views.take(0) =~= Seq::<Seq<u8>>::empty());
                    assert(Seq::new(columns@.len(), |k: int| columns@[k]@) =~= Seq::<
                        ColumnV,
                    >::empty());
                }
                let mut i: usize = 0;
                while i < names.len()
                    invariant
                        table_wf(self@),
                        i <= names@.len(),
                        name_views == Seq::new(names@.len(), |k: int| names@[k].spec_bytes()),
                        name_views.len() == names@.len(),
                        select_cols(self@.columns, name_views.take(i as int)) == Ok::<
                            Seq<ColumnV>,
                            Seq<u8>,
                        >(Seq::new(columns@.len(), |k: int| columns@[k]@)),
                        columns@.len() == i,
                        forall|k: int| 0 <= k < columns@.len() ==> (#[trigger] columns@[k])
                            @.values.len() == self@.row_count,
                    decreases names@.len() - i,
                {
                    let ghost prefix = Seq::new(columns@.len(), |k: int| columns@[k]@);
                    let mut j: usize = 0;
                    let mut found: Option<usize> = None;
                    while j < self.columns.len()
                        invariant
                            i < names@.len(),
                            i < name_views.len(),
                            j <= self.columns@.len(),
                            name_views[i as int] == names@[i as int].spec_bytes(),
                            match found {
                                Some(f) => f < self.columns@.len() && self.columns@[f as int]
                                    @.name == name_views[i as int] && forall|k: int| 0 <= k < f
                                    ==> (#[trigger] self@.columns[k]).name != name_views[i as int],
                                None => forall|k: int| 0 <= k < j
                                    ==> (#[trigger] self@.columns[k]).name != name_views[i as int],
                            },
                            found is Some ==> j > found->0,
                        decreases self.columns@.len() - j,
                    {
                        if found.is_none() {
                            if matches!(
                                str_compare(self.columns[j].name.as_str(), names[i]),
                                Cmp::Eq
                            ) {
                                found = Some(j);
                            }
                        }
                        j += 1;
                    }
                    proof {
                        assert(name_views.take(i as int + 1) =~= name_views.take(i as int).push(
                            name_views[i as int],
                        ));
                        lemma_select_cols_push(
                            self@.columns,
                            name_views.take(i as int),
                            name_views[i as int],
                        );
                    }
                    match found {
                        Some(f) => {
                            proof {
                                lemma_find_column_found(
                                    self@.columns,
                                    name_views[i as int],
                                    f as int,
                                );
                            }
                            columns.push(self.columns[f].duplicate());
                            proof {
                                assert(Seq::new(columns@.len(), |k: int| columns@[k]@) =~= prefix
                                    .push(self@.columns[f as int]));
                            }
                        },
                        None => {
                            proof {
                                lemma_find_column_missing(self@.columns, name_views[i as int]);
                                lemma_select_cols_err_stays(
                                    self@.columns,
                                    name_views,
                                    i as int + 1,
                                );
                            }
                            return Err(names[i].to_owned());
                        },
                    }
                    i += 1;
                }
                proof {
                    assert(name_views.take(names@.len() as int) =~= name_views);
                }
                let batch = RecordBatch { row_count: self.row_count, columns };
                Ok(batch)
            },
        }
    }
}

/// The names of the tables a restriction admits, in table order.
pub open spec fn matching_table_names(ts: Seq<TableV>, restriction: Option<Seq<Seq<u8>>>) -> Seq<
    Seq<u8>,
>
    decreases ts.len(),
{
    if ts.len() == 0 {
        Seq::empty()
    } else {
        let rest = matching_table_names(ts.skip(1), restriction);
        if restriction_admits(restriction, ts[0].name) {
            seq![ts[0].name] + rest
        } else {
            rest
        }
    }
}

/// How one more table extends the admitted names.
pub proof fn lemma_matching_push(ts: Seq<TableV>, restriction: Option<Seq<Seq<u8>>>, t: TableV)
    ensures
        matching_table_names(ts.push(t), restriction) == matching_table_names(ts, restriction) + (
        if restriction_admits(restriction, t.name) {
            seq![t.name]
        } else {
            Seq::<Seq<u8>>::empty()
        }),
    decreases ts.len(),
{
    let pushed = ts.push(t);
    if ts.len() == 0 {
        assert(pushed[0] == t);
        assert(pushed.skip(1) =~= Seq::<TableV>::empty());
        assert(matching_table_names(Seq::<TableV>::empty(), restriction) =~= Seq::<Seq<u8>>::empty());
        if restriction_admits(restriction, t.name) {
            assert(seq![t.name] + Seq::<Seq<u8>>::empty() =~= seq![t.name]);
            assert(Seq::<Seq<u8>>::empty() + seq![t.name] =~= seq![t.name]);
        } else {
            assert(Seq::<Seq<u8>>::empty() + Seq::<Seq<u8>>::empty() =~= Seq::<Seq<u8>>::empty());
        }
    } else {
        assert(pushed[0] == ts[0]);
        assert(pushed.skip(1) =~= ts.skip(1).push(t));
        lemma_matching_push(ts.skip(1), restriction, t);
        let rest = matching_table_names(ts.skip(1), restriction);
        let tail = if restriction_admits(restriction, t.name) {
            seq![t.name]
        } else {
            Seq::<Seq<u8>>::empty()
        };
        if restriction_admits(restriction, ts[0].name) {
            assert(seq![ts[0].name] + (rest + tail) =~= (seq![ts[0].name] + rest) + tail);
        }
    }
}

/// Index of the first table of the given name, by linear scan.
pub fn find_table_index(tables: &Vec<Table>, name: &str) -> (r: Option<usize>)
    ensures
        match r {
            Some(i) => i < tables@.len() && tables@[i as int]@.name == name.spec_bytes()
                && find_table(tables_view(tables@), name.spec_bytes()) == Some(
                tables_view(tables@)[i as int],
            ),
            None => find_table(tables_view(tables@), name.spec_bytes()) is None,
        },
{
    let ghost ts = tables_view(tables@);
    let mut i: usize = 0;
    while i < tables.len()
        invariant
            ts == tables_view(tables@),
            i <= tables@.len(),
            forall|j: int| 0 <= j < i ==> (#[trigger] ts[j]).name != name.spec_bytes(),
        decreases tables@.len() - i,
    {
        if matches!(str_compare(tables[i].name.as_str(), name), Cmp::Eq) {
            proof {
                lemma_find_table_found(ts, name.spec_bytes(), i as int);
            }
            return Some(i);
        }
        i += 1;
    }
    proof {
        lemma_find_table_missing(ts, name.spec_bytes());
    }
    None
}

/// Inserts a table into a name-sorted table list at its sorted position.
/// Returns `false`, leaving the list unchanged, when a table of that name is
/// already present.
#[verifier::loop_isolation(false)]
pub fn insert_table_sorted(tables: &mut Vec<Table>, table: Table) -> (r: bool)
    requires
        tables_wf(tables_view(old(tables)@)),
        table_wf(table@),
    ensures
        tables_wf(tables_view(final(tables)@)),
        names_contain(table_names_of(tables_view(old(tables)@)), table@.name) ==> !r
            && final(tables)@ == old(tables)@,
        !names_contain(table_names_of(tables_view(old(tables)@)), table@.name) ==> r
            && tables_view(final(tables)@) == tables_view(old(tables)@).insert(
            insert_pos(table_names_of(tables_view(old(tables)@)), table@.name),
            table@,
        ),
{
    let ghost names = table_names_of(tables_view(old(tables)@));
    let ghost target = table@.name;
    let n = tables.len();
    let mut i: usize = 0;
    let mut pos: usize = n;
    let mut found_pos = false;
    while i < n
        invariant
            n == tables@.len(),
            *tables == *old(tables),
            names == table_names_of(tables_view(tables@)),
            names.len() == n,
            i <= n,
            !found_pos ==> pos == n && forall|j: int| 0 <= j < i ==> lex_lt(
                #[trigger] names[j],
                target,
            ),
            found_pos ==> pos < n && i > pos && lex_lt(target, names[pos as int]) && forall|j: int|
                0 <= j < pos ==> lex_lt(#[trigger] names[j], target),
        decreases n - i,
    {
        if !found_pos {
            match str_compare(tables[i].name.as_str(), table.name.as_str()) {
                Cmp::Eq => {
                    assert(names_contain(names, target)) by {
                        assert(names[i as int] == target);
                    }
                    return false;
                },
                Cmp::Gt => {
                    pos = i;
                    found_pos = true;
                },
                Cmp::Lt => {},
            }
        }
        i += 1;
    }
    proof {
        lemma_insert_pos_unique(names, target, pos as int);
        lemma_sorted_insert(names, target, pos as int);
    }
    let ghost tv = table@;
    tables.insert(pos, table);
    proof {
        assert(tables_view(final(tables)@) =~= tables_view(old(tables)@).insert(pos as int, tv));
        assert(table_names_of(tables_view(final(tables)@)) =~= names.insert(pos as int, target));
    }
    true
}

/// A request for zero columns succeeds on every table, yielding a batch of
/// zero columns that still stands for the table's rows — never the
/// all-columns behaviour.
pub proof fn lemma_empty_selection(t: TableV)
    ensures
        select_batch(t, SelectionV::Cols(Seq::empty())) == Ok::<BatchV, Seq<u8>>(
            BatchV { row_count: t.row_count, columns: Seq::empty() },
        ),
{
    assert(select_cols(t.columns, Seq::<Seq<u8>>::empty()) == Ok::<Seq<ColumnV>, Seq<u8>>(
        Seq::empty(),
    ));
}

} // verus!
