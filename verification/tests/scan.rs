use chunk_table::chunk::{DBChunk, Error};
use chunk_table::data::Value;
use chunk_table::mutable::MutableChunk;
use chunk_table::predicate::ReadPredicate;
use chunk_table::provider::ProviderBuilder;
use chunk_table::read::{Partition, ReadChunk, ReadDatabase};
use chunk_table::schema::{DataType, Schema};
use chunk_table::selection::Selection;
use chunk_table::table::Table;

fn cpu_schema() -> Schema {
    let mut schema = Schema::new();
    schema.push_field(String::from("host"), DataType::Utf8, true);
    schema.push_field(String::from("usage"), DataType::Float64, true);
    schema
}

fn cpu_chunk(id: u32, hosts: &[&str], usages: &[f64]) -> DBChunk {
    let mut table = Table::new(String::from("cpu"), hosts.len());
    assert!(table.insert_column(
        String::from("usage"),
        usages.iter().map(|u| Value::Float64Bits(u.to_bits())).collect(),
    ));
    assert!(table.insert_column(
        String::from("host"),
        hosts.iter().map(|h| Value::Utf8(String::from(*h))).collect(),
    ));
    let mut chunk = MutableChunk::new(id);
    assert!(chunk.insert_table(table));
    DBChunk::new_mb(chunk)
}

#[test]
fn two_chunk_cpu_table_scans_in_chunk_order() {
    let builder = ProviderBuilder::new(String::from("cpu"));
    let builder = builder.add_chunk(cpu_chunk(1, &["a", "b"], &[0.5, 0.25]), cpu_schema()).unwrap();
    let builder = builder.add_chunk(cpu_chunk(2, &["c"], &[0.75]), cpu_schema()).unwrap();
    let provider = builder.build().unwrap();

    assert_eq!(provider.schema().fields.len(), 2);

    let plan = provider.scan(&None, 1024, &Vec::new()).unwrap();
    assert_eq!(plan.batches.len(), 2);

    // Rows of chunk 1 come first, columns ordered host then usage.
    assert_eq!(plan.batches[0].columns[0].name, "host");
    assert_eq!(plan.batches[0].columns[1].name, "usage");
    assert_eq!(
        plan.batches[0].columns[0].values,
        vec![Value::Utf8(String::from("a")), Value::Utf8(String::from("b"))]
    );
    assert_eq!(
        plan.batches[0].columns[1].values,
        vec![Value::Float64Bits(0.5_f64.to_bits()), Value::Float64Bits(0.25_f64.to_bits())]
    );

    // Then the rows of chunk 2.
    assert_eq!(plan.batches[1].columns[0].name, "host");
    assert_eq!(plan.batches[1].columns[0].values, vec![Value::Utf8(String::from("c"))]);
    assert_eq!(plan.batches[1].columns[1].values, vec![Value::Float64Bits(0.75_f64.to_bits())]);
}

#[test]
fn projected_scan_follows_the_projection_order() {
    let builder = ProviderBuilder::new(String::from("cpu"));
    let builder = builder.add_chunk(cpu_chunk(1, &["a"], &[0.5]), cpu_schema()).unwrap();
    let provider = builder.build().unwrap();

    // Project usage (field 1) before host (field 0).
    let plan = provider.scan(&Some(vec![1, 0]), 1024, &Vec::new()).unwrap();
    assert_eq!(plan.batches.len(), 1);
    assert_eq!(plan.batches[0].columns[0].name, "usage");
    assert_eq!(plan.batches[0].columns[1].name, "host");

    // An empty projection yields batches of zero columns.
    let plan = provider.scan(&Some(Vec::new()), 1024, &Vec::new()).unwrap();
    assert_eq!(plan.batches[0].columns.len(), 0);
    assert_eq!(plan.batches[0].row_count, 1);
}

#[test]
fn statistics_aggregate_across_chunks() {
    let builder = ProviderBuilder::new(String::from("cpu"));
    let builder = builder.add_chunk(cpu_chunk(1, &["a", "b"], &[0.5, 0.25]), cpu_schema()).unwrap();
    let builder = builder.add_chunk(cpu_chunk(2, &["c"], &[0.75]), cpu_schema()).unwrap();
    let provider = builder.build().unwrap();
    let stats = provider.statistics().unwrap();
    assert_eq!(stats.num_rows, 3);
}

#[test]
fn statistics_saturate_instead_of_overflowing() {
    let huge = Table::new(String::from("cpu"), usize::MAX);
    let mut chunk = MutableChunk::new(1);
    assert!(chunk.insert_table(huge));
    let huge2 = Table::new(String::from("cpu"), usize::MAX);
    let mut chunk2 = MutableChunk::new(2);
    assert!(chunk2.insert_table(huge2));

    let builder = ProviderBuilder::new(String::from("cpu"));
    let builder = builder.add_chunk(DBChunk::new_mb(chunk), Schema::new()).unwrap();
    let builder = builder.add_chunk(DBChunk::new_mb(chunk2), Schema::new()).unwrap();
    let provider = builder.build().unwrap();
    let stats = provider.statistics().unwrap();
    assert_eq!(stats.num_rows, u64::MAX);
}

#[test]
fn statistics_fail_on_a_tier_without_the_capability() {
    let builder = ProviderBuilder::new(String::from("cpu"));
    let builder = builder.add_chunk(cpu_chunk(1, &["a"], &[0.5]), cpu_schema()).unwrap();
    let builder = builder.add_chunk(DBChunk::ParquetFile, cpu_schema()).unwrap();
    let provider = builder.build().unwrap();
    assert!(matches!(provider.statistics(), Err(Error::UnimplementedCapability)));

    // With a read-tier member instead, the failure names that tier and the
    // failing chunk, so the two tiers' failures stay distinguishable.
    let builder = ProviderBuilder::new(String::from("cpu"));
    let builder = builder.add_chunk(cpu_chunk(1, &["a"], &[0.5]), cpu_schema()).unwrap();
    let builder = builder.add_chunk(cpu_read_chunk(&["r"], &[0.125]), cpu_schema()).unwrap();
    let provider = builder.build().unwrap();
    assert!(matches!(
        provider.statistics(),
        Err(Error::ReadBufferChunk {
            source: chunk_table::read::ReadError::StatisticsUnsupported,
            chunk_id: 9,
        })
    ));
}

#[test]
fn scan_surfaces_the_failing_chunk_error() {
    let builder = ProviderBuilder::new(String::from("cpu"));
    let builder = builder.add_chunk(cpu_chunk(1, &["a"], &[0.5]), cpu_schema()).unwrap();
    let builder = builder.add_chunk(DBChunk::ParquetFile, cpu_schema()).unwrap();
    let provider = builder.build().unwrap();
    assert!(matches!(
        provider.scan(&None, 1024, &Vec::new()),
        Err(Error::UnimplementedCapability)
    ));
}

#[test]
fn statistics_count_only_this_table() {
    let mut chunk = MutableChunk::new(1);
    let mut cpu = Table::new(String::from("cpu"), 2);
    assert!(cpu.insert_column(
        String::from("host"),
        vec![Value::Utf8(String::from("a")), Value::Utf8(String::from("b"))],
    ));
    assert!(chunk.insert_table(cpu));
    assert!(chunk.insert_table(Table::new(String::from("mem"), 5)));

    let mut schema = Schema::new();
    schema.push_field(String::from("host"), DataType::Utf8, true);
    let builder = ProviderBuilder::new(String::from("cpu"));
    let builder = builder.add_chunk(DBChunk::new_mb(chunk), schema).unwrap();
    let provider = builder.build().unwrap();
    assert_eq!(provider.statistics().unwrap().num_rows, 2);
}

fn cpu_read_chunk(hosts: &[&str], usages: &[f64]) -> DBChunk {
    let mut table = Table::new(String::from("cpu"), hosts.len());
    assert!(table.insert_column(
        String::from("usage"),
        usages.iter().map(|u| Value::Float64Bits(u.to_bits())).collect(),
    ));
    assert!(table.insert_column(
        String::from("host"),
        hosts.iter().map(|h| Value::Utf8(String::from(*h))).collect(),
    ));
    let mut read_chunk = ReadChunk::new(9);
    assert!(read_chunk.insert_table(table));
    let mut partition = Partition::new(String::from("p1"));
    partition.push_chunk(read_chunk);
    let mut db = ReadDatabase::new();
    db.push_partition(partition);
    DBChunk::new_rb(db, String::from("p1"), 9)
}

#[test]
fn mixed_tier_scan_keeps_chunk_order() {
    let builder = ProviderBuilder::new(String::from("cpu"));
    let builder = builder.add_chunk(cpu_chunk(1, &["a"], &[0.5]), cpu_schema()).unwrap();
    let builder = builder.add_chunk(cpu_read_chunk(&["r"], &[0.125]), cpu_schema()).unwrap();
    let provider = builder.build().unwrap();
    let plan = provider.scan(&None, 1024, &Vec::new()).unwrap();
    assert_eq!(plan.batches.len(), 2);
    assert_eq!(plan.batches[0].columns[0].values, vec![Value::Utf8(String::from("a"))]);
    assert_eq!(plan.batches[1].columns[0].values, vec![Value::Utf8(String::from("r"))]);
    assert_eq!(plan.batches[1].columns[0].name, "host");
    assert_eq!(plan.batches[1].columns[1].name, "usage");
}

#[test]
fn read_filter_predicate_can_rule_a_table_out() {
    let mut table = Table::new(String::from("cpu"), 1);
    assert!(table.insert_column(String::from("host"), vec![Value::Utf8(String::from("a"))]));
    let mut read_chunk = ReadChunk::new(3);
    assert!(read_chunk.insert_table(table));
    let mut partition = Partition::new(String::from("p1"));
    partition.push_chunk(read_chunk);
    let mut db = ReadDatabase::new();
    db.push_partition(partition);

    let only_mem = ReadPredicate { table_names: Some(vec![String::from("mem")]) };
    let batches = db.read_filter("p1", "cpu", 3, &only_mem, Selection::AllColumns).unwrap();
    assert!(batches.is_empty());

    let everything = ReadPredicate { table_names: None };
    let batches = db.read_filter("p1", "cpu", 3, &everything, Selection::AllColumns).unwrap();
    assert_eq!(batches.len(), 1);
    assert_eq!(batches[0].columns[0].name, "host");
}
