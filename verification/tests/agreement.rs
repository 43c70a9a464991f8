use iceberg::spec::{DataFileFormat, NestedField, PrimitiveType, TableMetadataBuilder, Type};
use iceberg::writer::file_writer::location_generator::{
    DefaultFileNameGenerator, DefaultLocationGenerator, FileNameGenerator, LocationGenerator,
};
use iceberg::TableCreation;
use iceberg_manager::location::{data_dir, file_location, file_name, FileFormat};
use iceberg_manager::schema::{Field, FieldType, Schema};
use std::sync::Arc;

fn to_format(format: FileFormat) -> DataFileFormat {
    match format {
        FileFormat::Avro => DataFileFormat::Avro,
        FileFormat::Orc => DataFileFormat::Orc,
        FileFormat::Parquet => DataFileFormat::Parquet,
    }
}

fn iceberg_accepts(fields: &[Field]) -> bool {
    let nested: Vec<Arc<NestedField>> = fields
        .iter()
        .map(|field| {
            let primitive = match field.field_type {
                FieldType::Boolean => PrimitiveType::Boolean,
                FieldType::Int => PrimitiveType::Int,
                FieldType::Long => PrimitiveType::Long,
                FieldType::Str => PrimitiveType::String,
            };
            Arc::new(NestedField::new(
                field.id,
                field.name.clone(),
                Type::Primitive(primitive),
                field.required,
            ))
        })
        .collect();
    iceberg::spec::Schema::builder().with_fields(nested).build().is_ok()
}

fn agreement_field(id: i32, name: &str) -> Field {
    Field { id, name: name.to_string(), field_type: FieldType::Int, required: true }
}

#[test]
fn file_names_agree_with_iceberg() {
    for format in [FileFormat::Avro, FileFormat::Orc, FileFormat::Parquet] {
        for (prefix, suffix) in [("", None), ("part", None), ("part", Some("x")), ("", Some(""))] {
            let generator = DefaultFileNameGenerator::new(
                prefix.to_string(),
                suffix.map(|s: &str| s.to_string()),
                to_format(format),
            );
            for count in 0..12 {
                assert_eq!(file_name(prefix, count, suffix, format), generator.generate_file_name());
            }
        }
    }
}

#[test]
fn locations_agree_with_iceberg() {
    let schema = iceberg::spec::Schema::builder().build().unwrap();
    let creation = TableCreation::builder()
        .name("t".to_string())
        .location("s3://warehouse/ns1/t".to_string())
        .schema(schema)
        .build();
    let metadata = TableMetadataBuilder::from_table_creation(creation).unwrap().build().unwrap();
    let generator = DefaultLocationGenerator::new(metadata.metadata).unwrap();
    let dir = data_dir("s3://warehouse/ns1/t");
    assert_eq!(
        file_location(&dir, "part-00000.parquet"),
        generator.generate_location("part-00000.parquet")
    );
}

#[test]
fn schema_verdict_agrees_with_iceberg() {
    let cases = vec![
        vec![],
        vec![agreement_field(1, "a")],
        vec![agreement_field(1, "a"), agreement_field(2, "b")],
        vec![agreement_field(1, "a"), agreement_field(1, "b")],
        vec![agreement_field(1, "a"), agreement_field(2, "a")],
        vec![agreement_field(1, "a"), agreement_field(2, "b"), agreement_field(2, "a")],
        vec![agreement_field(1, "a.b"), agreement_field(2, "a")],
        vec![agreement_field(1, "A"), agreement_field(2, "a")],
    ];
    for fields in cases {
        let expected = iceberg_accepts(&fields);
        assert_eq!(Schema::new(fields).is_ok(), expected);
    }
}
