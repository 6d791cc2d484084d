use chunk_table::chunk::{DBChunk, Error};
use chunk_table::data::Value;
use chunk_table::mutable::{MutableChunk, MutableError};
use chunk_table::predicate::{ConversionError, Predicate, PredicateBuilder};
use chunk_table::read::{Partition, ReadChunk, ReadDatabase, ReadError};
use chunk_table::selection::Selection;
use chunk_table::table::Table;

fn cpu_table(hosts: &[&str], usages: &[u64]) -> Table {
    let mut table = Table::new(String::from("cpu"), hosts.len());
    // Insert out of lexicographic order on purpose: the table keeps its
    // columns sorted by name.
    assert!(table.insert_column(
        String::from("usage"),
        usages.iter().map(|u| Value::Float64Bits(*u)).collect(),
    ));
    assert!(table.insert_column(
        String::from("host"),
        hosts.iter().map(|h| Value::Utf8(String::from(*h))).collect(),
    ));
    table
}

fn mb_chunk_with_cpu(id: u32) -> DBChunk {
    let mut chunk = MutableChunk::new(id);
    assert!(chunk.insert_table(cpu_table(&["a", "b"], &[1, 2])));
    DBChunk::new_mb(chunk)
}

fn rb_chunk_with_cpu() -> DBChunk {
    let mut read_chunk = ReadChunk::new(7);
    assert!(read_chunk.insert_table(cpu_table(&["r"], &[9])));
    let mut partition = Partition::new(String::from("p1"));
    partition.push_chunk(read_chunk);
    let mut db = ReadDatabase::new();
    db.push_partition(partition);
    DBChunk::new_rb(db, String::from("p1"), 7)
}

#[test]
fn all_columns_come_lexicographically_sorted() {
    let mut dst = Vec::new();
    mb_chunk_with_cpu(1).table_to_arrow(&mut dst, "cpu", Selection::AllColumns).unwrap();
    assert_eq!(dst.len(), 1);
    assert_eq!(dst[0].row_count, 2);
    assert_eq!(dst[0].columns.len(), 2);
    assert_eq!(dst[0].columns[0].name, "host");
    assert_eq!(dst[0].columns[1].name, "usage");

    let mut dst = Vec::new();
    rb_chunk_with_cpu().table_to_arrow(&mut dst, "cpu", Selection::AllColumns).unwrap();
    assert_eq!(dst.len(), 1);
    assert_eq!(dst[0].columns[0].name, "host");
    assert_eq!(dst[0].columns[1].name, "usage");
}

#[test]
fn specified_columns_keep_requested_order() {
    let mut dst = Vec::new();
    let names = ["usage", "host"];
    mb_chunk_with_cpu(1).table_to_arrow(&mut dst, "cpu", Selection::SpecifiedColumns(&names)).unwrap();
    assert_eq!(dst[0].columns[0].name, "usage");
    assert_eq!(dst[0].columns[1].name, "host");
    assert_eq!(dst[0].columns[0].values, vec![Value::Float64Bits(1), Value::Float64Bits(2)]);
}

#[test]
fn empty_selection_returns_zero_columns_without_failing() {
    let mut dst = Vec::new();
    let none: [&str; 0] = [];
    mb_chunk_with_cpu(1).table_to_arrow(&mut dst, "cpu", Selection::SpecifiedColumns(&none)).unwrap();
    assert_eq!(dst.len(), 1);
    assert_eq!(dst[0].columns.len(), 0);
    assert_eq!(dst[0].row_count, 2);

    let mut dst = Vec::new();
    rb_chunk_with_cpu().table_to_arrow(&mut dst, "cpu", Selection::SpecifiedColumns(&none)).unwrap();
    assert_eq!(dst.len(), 1);
    assert_eq!(dst[0].columns.len(), 0);
}

#[test]
fn append_only_accumulator_is_preserved() {
    let mut dst = Vec::new();
    mb_chunk_with_cpu(1).table_to_arrow(&mut dst, "cpu", Selection::AllColumns).unwrap();
    mb_chunk_with_cpu(2).table_to_arrow(&mut dst, "cpu", Selection::AllColumns).unwrap();
    assert_eq!(dst.len(), 2);
    // A failing call leaves the accumulator untouched.
    let err = mb_chunk_with_cpu(3).table_to_arrow(&mut dst, "mem", Selection::AllColumns);
    assert!(err.is_err());
    assert_eq!(dst.len(), 2);
}

#[test]
fn parquet_variant_fails_every_operation() {
    let chunk = DBChunk::ParquetFile;
    assert!(matches!(chunk.table_stats(), Err(Error::UnimplementedCapability)));
    let mut dst = Vec::new();
    assert!(matches!(
        chunk.table_to_arrow(&mut dst, "cpu", Selection::AllColumns),
        Err(Error::UnimplementedCapability)
    ));
    let predicate = PredicateBuilder::new().build();
    assert!(matches!(chunk.table_names(&predicate), Err(Error::UnimplementedCapability)));
}

#[test]
fn read_tier_stats_failure_is_attributed() {
    // The read tier provides no statistics yet, but its failure carries the
    // read-tier identity and the chunk id, unlike the immutable-file tier's
    // bare unimplemented-capability error.
    assert!(matches!(
        rb_chunk_with_cpu().table_stats(),
        Err(Error::ReadBufferChunk { source: ReadError::StatisticsUnsupported, chunk_id: 7 })
    ));
}

#[test]
fn mutable_stats_report_row_counts() {
    let stats = mb_chunk_with_cpu(1).table_stats().unwrap();
    assert_eq!(stats.len(), 1);
    assert_eq!(stats[0].name, "cpu");
    assert_eq!(stats[0].row_count, 2);
}

#[test]
fn chunk_ids_come_from_their_tier() {
    assert_eq!(mb_chunk_with_cpu(42).id(), 42);
    assert_eq!(rb_chunk_with_cpu().id(), 7);
}

#[test]
fn empty_chunk_table_names_skip_predicate_compilation() {
    // The predicate names a field column no table holds, so compiling it
    // against the chunk would fail; an empty chunk must answer the empty
    // name set without compiling it.
    let poison = PredicateBuilder::new()
        .field_columns(vec![String::from("no_such_column")])
        .build();
    let empty = DBChunk::new_mb(MutableChunk::new(1));
    let plan = empty.table_names(&poison).unwrap();
    assert_eq!(plan.batches.len(), 1);
    assert_eq!(plan.batches[0].row_count, 0);
    assert_eq!(plan.batches[0].columns[0].name, "tables");
    assert!(plan.batches[0].columns[0].values.is_empty());

    // The same predicate against a chunk with rows does fail compilation.
    match mb_chunk_with_cpu(1).table_names(&poison) {
        Err(Error::MutableBufferChunk {
            source: MutableError::UnknownFieldColumn { column_name },
        }) => assert_eq!(column_name, "no_such_column"),
        other => panic!("expected the unknown-field-column error, got {:?}", other),
    }
}

#[test]
fn mutable_table_names_respect_name_restriction() {
    let mut chunk = MutableChunk::new(1);
    assert!(chunk.insert_table(cpu_table(&["a"], &[1])));
    let mut mem = Table::new(String::from("mem"), 0);
    assert!(mem.insert_column(String::from("free"), Vec::new()));
    assert!(chunk.insert_table(mem));
    let chunk = DBChunk::new_mb(chunk);

    let all = PredicateBuilder::new().build();
    let plan = chunk.table_names(&all).unwrap();
    assert_eq!(
        plan.batches[0].columns[0].values,
        vec![Value::Utf8(String::from("cpu")), Value::Utf8(String::from("mem"))]
    );

    let only_mem = PredicateBuilder::new().table_names(vec![String::from("mem")]).build();
    let plan = chunk.table_names(&only_mem).unwrap();
    assert_eq!(plan.batches[0].columns[0].values, vec![Value::Utf8(String::from("mem"))]);
}

#[test]
fn read_tier_table_names_and_errors() {
    let chunk = rb_chunk_with_cpu();
    let all = PredicateBuilder::new().build();
    let plan = chunk.table_names(&all).unwrap();
    assert_eq!(plan.batches[0].columns[0].values, vec![Value::Utf8(String::from("cpu"))]);

    // A field-column restriction has no read-tier translation.
    let with_fields = PredicateBuilder::new().field_columns(vec![String::from("host")]).build();
    assert!(matches!(
        chunk.table_names(&with_fields),
        Err(Error::InternalPredicateConversion {
            source: ConversionError::FieldColumnsUnsupported
        })
    ));
}

#[test]
fn read_tier_failures_carry_the_chunk_id() {
    let db = ReadDatabase::new();
    let chunk = DBChunk::new_rb(db, String::from("p1"), 7);
    let mut dst = Vec::new();
    match chunk.table_to_arrow(&mut dst, "cpu", Selection::AllColumns) {
        Err(Error::ReadBufferChunk {
            source: ReadError::PartitionNotFound { partition_key },
            chunk_id,
        }) => {
            assert_eq!(partition_key, "p1");
            assert_eq!(chunk_id, 7);
        }
        other => panic!("expected the partition-not-found error, got {:?}", other),
    }

    let mut partition = Partition::new(String::from("p1"));
    partition.push_chunk(ReadChunk::new(8));
    let mut db = ReadDatabase::new();
    db.push_partition(partition);
    let chunk = DBChunk::new_rb(db, String::from("p1"), 7);
    let mut dst = Vec::new();
    assert!(matches!(
        chunk.table_to_arrow(&mut dst, "cpu", Selection::AllColumns),
        Err(Error::ReadBufferChunk { source: ReadError::ChunkNotFound { chunk_id: 7 }, .. })
    ));

    let chunk = rb_chunk_with_cpu();
    let mut dst = Vec::new();
    assert!(matches!(
        chunk.table_to_arrow(&mut dst, "mem", Selection::AllColumns),
        Err(Error::ReadBufferChunk { source: ReadError::TableNotFound { .. }, chunk_id: 7 })
    ));
    let missing = ["host", "no_such"];
    assert!(matches!(
        chunk.table_to_arrow(&mut dst, "cpu", Selection::SpecifiedColumns(&missing)),
        Err(Error::ReadBufferChunk { source: ReadError::ColumnNotFound { .. }, chunk_id: 7 })
    ));
}

#[test]
fn mutable_tier_errors_name_what_is_missing() {
    let chunk = mb_chunk_with_cpu(1);
    let mut dst = Vec::new();
    match chunk.table_to_arrow(&mut dst, "mem", Selection::AllColumns) {
        Err(Error::MutableBufferChunk { source: MutableError::TableNotFound { table_name } }) => {
            assert_eq!(table_name, "mem")
        }
        other => panic!("expected the table-not-found error, got {:?}", other),
    }
    let missing = ["host", "no_such"];
    match chunk.table_to_arrow(&mut dst, "cpu", Selection::SpecifiedColumns(&missing)) {
        Err(Error::MutableBufferChunk {
            source: MutableError::ColumnNotFound { column_name },
        }) => assert_eq!(column_name, "no_such"),
        other => panic!("expected the column-not-found error, got {:?}", other),
    }
}

#[test]
fn duplicate_names_are_refused_without_change() {
    let mut table = Table::new(String::from("cpu"), 0);
    assert!(table.insert_column(String::from("host"), Vec::new()));
    assert!(!table.insert_column(String::from("host"), Vec::new()));
    assert_eq!(table.columns.len(), 1);

    let mut chunk = MutableChunk::new(1);
    assert!(chunk.insert_table(table));
    let mut again = Table::new(String::from("cpu"), 0);
    assert!(again.insert_column(String::from("free"), Vec::new()));
    assert!(!chunk.insert_table(again));
    assert_eq!(chunk.tables.len(), 1);
}

#[test]
fn predicate_builder_accumulates_restrictions() {
    let predicate: Predicate = PredicateBuilder::default()
        .table_names(vec![String::from("cpu")])
        .field_columns(vec![String::from("host")])
        .build();
    assert_eq!(predicate.table_names, Some(vec![String::from("cpu")]));
    assert_eq!(predicate.field_columns, Some(vec![String::from("host")]));
    let everything = PredicateBuilder::new().build();
    assert!(everything.table_names.is_none());
    assert!(everything.field_columns.is_none());
}

#[test]
fn selection_construction_from_names() {
    let names = ["usage", "host"];
    let selection = Selection::of_columns(&names);
    match selection {
        Selection::SpecifiedColumns(got) => assert_eq!(got, &names),
        other => panic!("expected a specified-columns selection, got {:?}", other),
    }
    let mut dst = Vec::new();
    mb_chunk_with_cpu(1).table_to_arrow(&mut dst, "cpu", selection).unwrap();
    assert_eq!(dst[0].columns[0].name, "usage");
    assert_eq!(dst[0].columns[1].name, "host");
}
