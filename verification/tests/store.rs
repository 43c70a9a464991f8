use iceberg_manager::error::ManagerError;
use iceberg_manager::row::{Row, RowBatch, Value};
use iceberg_manager::schema::Schema;
use iceberg_manager::store::FileStore;
use iceberg_manager::table::DataFile;

fn stored_batch(ids: &[i32]) -> RowBatch {
    let rows: Vec<Row> = ids
        .iter()
        .map(|id| Row { values: vec![Value::Int(*id), Value::Str(id.to_string())] })
        .collect();
    RowBatch::from_rows(&Schema::default_schema(), &rows).unwrap()
}

#[test]
fn written_file_is_read_back() {
    let mut store = FileStore::new();
    assert!(!store.contains("a"));
    let file = store.write("a".to_string(), stored_batch(&[1, 2, 3]));
    assert_eq!(file, DataFile { path: "a".to_string(), file_size: 6, record_count: 3 });
    assert!(store.contains("a"));
    assert_eq!(store.read("a"), Ok(stored_batch(&[1, 2, 3])));
}

#[test]
fn store_keeps_what_was_written_last() {
    let mut store = FileStore::new();
    store.write("a".to_string(), stored_batch(&[1]));
    store.write("b".to_string(), stored_batch(&[7]));
    let file = store.write("a".to_string(), stored_batch(&[2, 3]));
    assert_eq!(file, DataFile { path: "a".to_string(), file_size: 4, record_count: 2 });
    assert_eq!(store.read("a"), Ok(stored_batch(&[2, 3])));
    assert_eq!(store.read("b"), Ok(stored_batch(&[7])));
}

#[test]
fn missing_file_is_a_read_error() {
    let mut store = FileStore::new();
    store.write("a".to_string(), stored_batch(&[1]));
    assert_eq!(store.read("b"), Err(ManagerError::FileReadError { path: "b".to_string() }));
    assert_eq!(store.read(""), Err(ManagerError::FileReadError { path: String::new() }));
}

#[test]
fn new_file_leaves_the_others_as_they_were() {
    let mut store = FileStore::new();
    store.write("a".to_string(), stored_batch(&[1]));
    store.write("b".to_string(), stored_batch(&[2, 3]));
    store.write("c".to_string(), stored_batch(&[]));
    assert_eq!(store.read("a"), Ok(stored_batch(&[1])));
    assert_eq!(store.read("b"), Ok(stored_batch(&[2, 3])));
    assert_eq!(store.read("c"), Ok(stored_batch(&[])));
}
