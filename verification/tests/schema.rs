use iceberg_manager::error::{ErrorKind, ManagerError};
use iceberg_manager::schema::{Field, FieldType, Schema};

fn schema_field(id: i32, name: &str, field_type: FieldType, required: bool) -> Field {
    Field { id, name: name.to_string(), field_type, required }
}

#[test]
fn default_schema_has_id_and_value() {
    let schema = Schema::default_schema();
    assert_eq!(schema.len(), 2);
    assert_eq!(*schema.field(0), schema_field(0, "id", FieldType::Int, true));
    assert_eq!(*schema.field(1), schema_field(1, "value", FieldType::Str, true));
}

#[test]
fn schema_with_distinct_fields_is_accepted() {
    let fields = vec![
        schema_field(1, "a", FieldType::Long, false),
        schema_field(2, "b", FieldType::Boolean, true),
    ];
    let schema = Schema::new(fields.clone()).unwrap();
    assert_eq!(schema.to_fields(), fields);
    assert_eq!(schema.len(), 2);
}

#[test]
fn empty_schema_is_accepted() {
    let schema = Schema::new(Vec::new()).unwrap();
    assert_eq!(schema.len(), 0);
}

#[test]
fn duplicate_field_id_is_schema_invalid() {
    let built = Schema::new(vec![
        schema_field(1, "a", FieldType::Int, true),
        schema_field(2, "b", FieldType::Int, true),
        schema_field(1, "c", FieldType::Int, true),
    ]);
    assert_eq!(built, Err(ManagerError::SchemaInvalid { position: 2 }));
    assert_eq!(built.unwrap_err().kind(), ErrorKind::SchemaInvalid);
}

#[test]
fn duplicate_field_name_is_schema_invalid() {
    let built = Schema::new(vec![
        schema_field(1, "a", FieldType::Int, true),
        schema_field(2, "a", FieldType::Str, true),
    ]);
    assert_eq!(built, Err(ManagerError::SchemaInvalid { position: 1 }));
}

#[test]
fn first_of_several_clashes_is_reported() {
    let built = Schema::new(vec![
        schema_field(1, "a", FieldType::Int, true),
        schema_field(2, "b", FieldType::Int, true),
        schema_field(3, "b", FieldType::Int, true),
        schema_field(1, "d", FieldType::Int, true),
    ]);
    assert_eq!(built, Err(ManagerError::SchemaInvalid { position: 2 }));
}

#[test]
fn same_as_compares_every_part_of_a_field() {
    let base = Schema::new(vec![schema_field(1, "a", FieldType::Int, true)]).unwrap();
    let same = Schema::new(vec![schema_field(1, "a", FieldType::Int, true)]).unwrap();
    let other_id = Schema::new(vec![schema_field(2, "a", FieldType::Int, true)]).unwrap();
    let other_name = Schema::new(vec![schema_field(1, "b", FieldType::Int, true)]).unwrap();
    let other_type = Schema::new(vec![schema_field(1, "a", FieldType::Long, true)]).unwrap();
    let optional = Schema::new(vec![schema_field(1, "a", FieldType::Int, false)]).unwrap();
    let longer = Schema::new(vec![
        schema_field(1, "a", FieldType::Int, true),
        schema_field(2, "b", FieldType::Int, true),
    ])
    .unwrap();
    assert!(base.same_as(&same));
    assert!(base.same_as(&base.clone()));
    assert!(!base.same_as(&other_id));
    assert!(!base.same_as(&other_name));
    assert!(!base.same_as(&other_type));
    assert!(!base.same_as(&optional));
    assert!(!base.same_as(&longer));
}

#[test]
fn error_kinds_follow_the_taxonomy() {
    let text = || "x".to_string();
    assert_eq!(ManagerError::NamespaceNotFound { namespace: text() }.kind(), ErrorKind::NotFound);
    assert_eq!(
        ManagerError::TableNotFound { namespace: text(), table: text() }.kind(),
        ErrorKind::NotFound
    );
    assert_eq!(
        ManagerError::SnapshotNotFound { table: text(), snapshot_id: 7 }.kind(),
        ErrorKind::NotFound
    );
    assert_eq!(ManagerError::AlreadyExists { name: text() }.kind(), ErrorKind::AlreadyExists);
    assert_eq!(
        ManagerError::SnapshotExists { table: text(), snapshot_id: 7 }.kind(),
        ErrorKind::AlreadyExists
    );
    assert_eq!(ManagerError::SchemaMismatch { row: Some(1) }.kind(), ErrorKind::SchemaMismatch);
    assert_eq!(ManagerError::SchemaInvalid { position: 1 }.kind(), ErrorKind::SchemaInvalid);
    assert_eq!(
        ManagerError::ConflictingCommit { table: text(), expected: None, found: Some(0) }.kind(),
        ErrorKind::ConflictingCommit
    );
    assert_eq!(ManagerError::FileReadError { path: text() }.kind(), ErrorKind::FileReadError);
    assert_eq!(ManagerError::FileWriteError { path: text() }.kind(), ErrorKind::FileWriteError);
    assert_eq!(ManagerError::TransportError { detail: text() }.kind(), ErrorKind::TransportError);
}
