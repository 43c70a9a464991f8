use iceberg_manager::error::ManagerError;
use iceberg_manager::row::{
    row_fits_schema, validate_rows, value_fits_field, Row, RowBatch, Value,
};
use iceberg_manager::schema::{Field, FieldType, Schema};

fn rows_field(id: i32, name: &str, field_type: FieldType, required: bool) -> Field {
    Field { id, name: name.to_string(), field_type, required }
}

fn id_value_row(id: i32, value: &str) -> Row {
    Row { values: vec![Value::Int(id), Value::Str(value.to_string())] }
}

fn mixed_schema() -> Schema {
    Schema::new(vec![
        rows_field(1, "flag", FieldType::Boolean, true),
        rows_field(2, "small", FieldType::Int, true),
        rows_field(3, "big", FieldType::Long, false),
        rows_field(4, "text", FieldType::Str, false),
    ])
    .unwrap()
}

#[test]
fn value_fits_only_its_own_type() {
    let int_field = rows_field(1, "n", FieldType::Int, true);
    assert!(value_fits_field(&Value::Int(5), &int_field));
    assert!(!value_fits_field(&Value::Long(5), &int_field));
    assert!(!value_fits_field(&Value::Str("5".to_string()), &int_field));
    assert!(!value_fits_field(&Value::Boolean(true), &int_field));
    assert!(value_fits_field(&Value::Boolean(true), &rows_field(1, "b", FieldType::Boolean, true)));
    assert!(value_fits_field(&Value::Long(-1), &rows_field(1, "l", FieldType::Long, true)));
    assert!(value_fits_field(
        &Value::Str(String::new()),
        &rows_field(1, "s", FieldType::Str, true)
    ));
}

#[test]
fn null_fits_only_an_optional_field() {
    assert!(!value_fits_field(&Value::Null, &rows_field(1, "n", FieldType::Int, true)));
    assert!(value_fits_field(&Value::Null, &rows_field(1, "n", FieldType::Int, false)));
}

#[test]
fn row_must_have_one_value_per_field() {
    let schema = Schema::default_schema();
    assert!(row_fits_schema(&id_value_row(1, "a"), &schema));
    assert!(!row_fits_schema(&Row { values: vec![Value::Int(1)] }, &schema));
    assert!(!row_fits_schema(
        &Row { values: vec![Value::Int(1), Value::Str("a".to_string()), Value::Int(2)] },
        &schema
    ));
    assert!(!row_fits_schema(
        &Row { values: vec![Value::Str("a".to_string()), Value::Int(1)] },
        &schema
    ));
}

#[test]
fn validate_rows_names_the_first_row_that_does_not_fit() {
    let schema = Schema::default_schema();
    let rows = vec![
        id_value_row(1, "a"),
        Row { values: vec![Value::Int(2), Value::Null] },
        Row { values: vec![Value::Long(3), Value::Str("c".to_string())] },
    ];
    assert_eq!(validate_rows(&rows, &schema), Err(ManagerError::SchemaMismatch { row: Some(1) }));
    assert_eq!(validate_rows(&rows[..1].to_vec(), &schema), Ok(()));
    assert_eq!(validate_rows(&Vec::new(), &schema), Ok(()));
}

#[test]
fn batch_is_rejected_as_a_unit() {
    let schema = Schema::default_schema();
    let rows = vec![id_value_row(1, "a"), Row { values: vec![Value::Int(2)] }];
    assert_eq!(
        RowBatch::from_rows(&schema, &rows),
        Err(ManagerError::SchemaMismatch { row: Some(1) })
    );
}

#[test]
fn batch_holds_the_rows_in_columns() {
    let schema = Schema::default_schema();
    let rows = vec![id_value_row(1, "a"), id_value_row(2, "b"), id_value_row(3, "c")];
    let batch = RowBatch::from_rows(&schema, &rows).unwrap();
    assert_eq!(batch.num_rows(), 3);
    assert_eq!(batch.num_columns(), 2);
    assert_eq!(*batch.value(0, 0), Value::Int(1));
    assert_eq!(*batch.value(2, 0), Value::Int(3));
    assert_eq!(*batch.value(1, 1), Value::Str("b".to_string()));
}

#[test]
fn rows_survive_the_columnar_layout() {
    let schema = mixed_schema();
    let rows = vec![
        Row {
            values: vec![
                Value::Boolean(true),
                Value::Int(i32::MIN),
                Value::Long(i64::MAX),
                Value::Str("x".to_string()),
            ],
        },
        Row { values: vec![Value::Boolean(false), Value::Int(0), Value::Null, Value::Null] },
    ];
    let batch = RowBatch::from_rows(&schema, &rows).unwrap();
    assert_eq!(batch.to_rows(), rows);
    assert_eq!(batch.clone().to_rows(), rows);
    assert!(batch.conforms(&schema));
}

#[test]
fn empty_batch_has_the_columns_of_the_schema() {
    let schema = Schema::default_schema();
    let batch = RowBatch::from_rows(&schema, &Vec::new()).unwrap();
    assert_eq!(batch.num_rows(), 0);
    assert_eq!(batch.num_columns(), 2);
    assert_eq!(batch.to_rows(), Vec::<Row>::new());
    assert!(batch.conforms(&mixed_schema()));
}

#[test]
fn batch_conforms_only_to_a_schema_that_its_rows_fit() {
    let schema = Schema::default_schema();
    let batch = RowBatch::from_rows(&schema, &vec![id_value_row(1, "a")]).unwrap();
    assert!(batch.conforms(&schema));
    assert!(!batch.conforms(&mixed_schema()));
    let swapped = Schema::new(vec![
        rows_field(0, "id", FieldType::Str, true),
        rows_field(1, "value", FieldType::Int, true),
    ])
    .unwrap();
    assert!(!batch.conforms(&swapped));
}

#[test]
fn batch_size_counts_its_values() {
    let schema = mixed_schema();
    let none = RowBatch::from_rows(&schema, &Vec::new()).unwrap();
    assert_eq!(none.size(), 0);
    let rows = vec![
        Row { values: vec![Value::Boolean(false), Value::Int(0), Value::Null, Value::Null] },
        Row { values: vec![Value::Boolean(true), Value::Int(1), Value::Long(2), Value::Null] },
        Row { values: vec![Value::Boolean(true), Value::Int(1), Value::Long(2), Value::Null] },
    ];
    assert_eq!(RowBatch::from_rows(&schema, &rows).unwrap().size(), 12);
}
