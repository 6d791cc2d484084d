use chunk_table::chunk::DBChunk;
use chunk_table::mutable::MutableChunk;
use chunk_table::provider::{Error, ProviderBuilder};
use chunk_table::schema::{DataType, Schema};

fn cpu_schema() -> Schema {
    let mut schema = Schema::new();
    schema.push_field(String::from("host"), DataType::Utf8, true);
    schema.push_field(String::from("usage"), DataType::Float64, true);
    schema
}

fn cpu_schema_f32() -> Schema {
    let mut schema = Schema::new();
    schema.push_field(String::from("host"), DataType::Utf8, true);
    schema.push_field(String::from("usage"), DataType::Float32, true);
    schema
}

fn mb_chunk(id: u32) -> DBChunk {
    DBChunk::new_mb(MutableChunk::new(id))
}

#[test]
fn identical_schemas_build_in_order() {
    let builder = ProviderBuilder::new(String::from("cpu"));
    let builder = builder.add_chunk(mb_chunk(1), cpu_schema()).unwrap();
    let builder = builder.add_chunk(mb_chunk(2), cpu_schema()).unwrap();
    let builder = builder.add_chunk(mb_chunk(3), cpu_schema()).unwrap();
    let provider = builder.build().unwrap();
    assert_eq!(provider.table_name, "cpu");
    assert_eq!(provider.chunks.len(), 3);
    for (k, chunk) in provider.chunks.iter().enumerate() {
        match chunk {
            DBChunk::MutableBuffer { chunk } => assert_eq!(chunk.id, k as u32 + 1),
            _ => panic!("expected a mutable-buffer chunk"),
        }
    }
    assert_eq!(provider.schema.fields.len(), 2);
    assert_eq!(provider.schema.fields[0].name, "host");
    assert_eq!(provider.schema.fields[1].name, "usage");
}

#[test]
fn differing_schemas_rejected_either_order() {
    let builder = ProviderBuilder::new(String::from("cpu"));
    let builder = builder.add_chunk(mb_chunk(1), cpu_schema()).unwrap();
    let err = builder.add_chunk(mb_chunk(2), cpu_schema_f32()).unwrap_err();
    assert!(matches!(err, Error::ChunkSchemaNotCompatible { .. }));

    let builder = ProviderBuilder::new(String::from("cpu"));
    let builder = builder.add_chunk(mb_chunk(1), cpu_schema_f32()).unwrap();
    let err = builder.add_chunk(mb_chunk(2), cpu_schema()).unwrap_err();
    assert!(matches!(err, Error::ChunkSchemaNotCompatible { .. }));
}

#[test]
fn differing_nullability_rejected() {
    let mut other = Schema::new();
    other.push_field(String::from("host"), DataType::Utf8, false);
    other.push_field(String::from("usage"), DataType::Float64, true);
    let builder = ProviderBuilder::new(String::from("cpu"));
    let builder = builder.add_chunk(mb_chunk(1), cpu_schema()).unwrap();
    let err = builder.add_chunk(mb_chunk(2), other).unwrap_err();
    assert!(matches!(err, Error::ChunkSchemaNotCompatible { .. }));
}

#[test]
fn differing_field_count_rejected() {
    let mut other = Schema::new();
    other.push_field(String::from("host"), DataType::Utf8, true);
    let builder = ProviderBuilder::new(String::from("cpu"));
    let builder = builder.add_chunk(mb_chunk(1), cpu_schema()).unwrap();
    let err = builder.add_chunk(mb_chunk(2), other).unwrap_err();
    assert!(matches!(err, Error::ChunkSchemaNotCompatible { .. }));
}

#[test]
fn type_mismatch_error_names_the_table() {
    let builder = ProviderBuilder::new(String::from("cpu"));
    let builder = builder.add_chunk(mb_chunk(1), cpu_schema()).unwrap();
    match builder.add_chunk(mb_chunk(2), cpu_schema_f32()) {
        Err(Error::ChunkSchemaNotCompatible { table_name, existing_schema, chunk_schema }) => {
            assert_eq!(table_name, "cpu");
            assert_eq!(existing_schema.fields[1].data_type, DataType::Float64);
            assert_eq!(chunk_schema.fields[1].data_type, DataType::Float32);
        }
        other => panic!("expected the schema-incompatibility error, got {:?}", other),
    }
}

#[test]
fn zero_chunks_fail_to_build() {
    let builder = ProviderBuilder::new(String::from("cpu"));
    match builder.build() {
        Err(Error::InternalNoRowsInTable { table_name }) => assert_eq!(table_name, "cpu"),
        other => panic!("expected the empty-table error, got {:?}", other),
    }
}
