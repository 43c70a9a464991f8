use iceberg_manager::error::ManagerError;
use iceberg_manager::schema::Schema;
use iceberg_manager::table::{DataFile, Snapshot, TableMetadata};

fn table_file(path: &str, record_count: u64) -> DataFile {
    DataFile { path: path.to_string(), file_size: 2 * record_count, record_count }
}

fn empty_table() -> TableMetadata {
    TableMetadata::new(
        "ns1".to_string(),
        "t".to_string(),
        "mem://wh/ns1/t".to_string(),
        Schema::default_schema(),
    )
}

#[test]
fn new_table_has_no_snapshots() {
    let table = empty_table();
    assert_eq!(table.namespace(), "ns1");
    assert_eq!(table.name(), "t");
    assert_eq!(table.location(), "mem://wh/ns1/t");
    assert!(table.schema().same_as(&Schema::default_schema()));
    assert_eq!(table.snapshot_ids(), Vec::<i64>::new());
    assert_eq!(table.current_snapshot_id(), None);
    assert_eq!(table.next_snapshot_id(), Some(0));
    assert!(table.snapshots().is_empty());
}

#[test]
fn appended_snapshot_shows_old_and_new_files() {
    let mut table = empty_table();
    assert_eq!(table.append_snapshot(0, vec![table_file("a", 2)]), Ok(()));
    assert_eq!(table.append_snapshot(1, vec![table_file("b", 1), table_file("c", 4)]), Ok(()));
    assert_eq!(table.snapshot_ids(), vec![0, 1]);
    assert_eq!(table.current_snapshot_id(), Some(1));
    assert_eq!(table.files_at(0), Ok(vec![table_file("a", 2)]));
    assert_eq!(
        table.files_at(1),
        Ok(vec![table_file("a", 2), table_file("b", 1), table_file("c", 4)])
    );
    assert_eq!(
        table.snapshots()[1],
        Snapshot {
            snapshot_id: 1,
            parent_id: Some(0),
            files: vec![table_file("a", 2), table_file("b", 1), table_file("c", 4)],
        }
    );
    assert_eq!(table.snapshots()[0].parent_id, None);
}

#[test]
fn recorded_snapshot_shows_exactly_its_files() {
    let mut table = empty_table();
    assert_eq!(table.record_snapshot(40, vec![table_file("a", 2)]), Ok(()));
    assert_eq!(table.record_snapshot(-7, vec![table_file("b", 1)]), Ok(()));
    assert_eq!(table.snapshot_ids(), vec![40, -7]);
    assert_eq!(table.files_at(-7), Ok(vec![table_file("b", 1)]));
    assert_eq!(table.position_of(40), Some(0));
    assert_eq!(table.position_of(-7), Some(1));
    assert_eq!(table.position_of(0), None);
    assert_eq!(table.snapshots()[1].parent_id, Some(40));
}

#[test]
fn snapshot_id_cannot_be_used_twice() {
    let mut table = empty_table();
    assert_eq!(table.append_snapshot(5, vec![table_file("a", 2)]), Ok(()));
    let before = table.clone();
    assert_eq!(
        table.append_snapshot(5, vec![table_file("b", 1)]),
        Err(ManagerError::SnapshotExists { table: "t".to_string(), snapshot_id: 5 })
    );
    assert_eq!(
        table.record_snapshot(5, Vec::new()),
        Err(ManagerError::SnapshotExists { table: "t".to_string(), snapshot_id: 5 })
    );
    assert_eq!(table, before);
}

#[test]
fn files_at_matches_the_id_exactly() {
    let mut table = empty_table();
    table.append_snapshot(0, vec![table_file("a", 2)]).unwrap();
    table.append_snapshot(1, vec![table_file("b", 1)]).unwrap();
    assert_eq!(
        table.files_at(2),
        Err(ManagerError::SnapshotNotFound { table: "t".to_string(), snapshot_id: 2 })
    );
    assert_eq!(
        table.files_at(-1),
        Err(ManagerError::SnapshotNotFound { table: "t".to_string(), snapshot_id: -1 })
    );
}

#[test]
fn next_snapshot_id_follows_the_largest_id() {
    let mut table = empty_table();
    table.record_snapshot(10, Vec::new()).unwrap();
    table.record_snapshot(3, Vec::new()).unwrap();
    assert_eq!(table.next_snapshot_id(), Some(11));
    table.record_snapshot(-5, Vec::new()).unwrap();
    assert_eq!(table.next_snapshot_id(), Some(11));
    let mut negative = empty_table();
    negative.record_snapshot(-5, Vec::new()).unwrap();
    assert_eq!(negative.next_snapshot_id(), Some(0));
}

#[test]
fn next_snapshot_id_is_none_when_ids_are_used_up() {
    let mut table = empty_table();
    table.record_snapshot(i64::MAX, Vec::new()).unwrap();
    assert_eq!(table.next_snapshot_id(), None);
    let mut almost = empty_table();
    almost.record_snapshot(i64::MAX - 1, Vec::new()).unwrap();
    assert_eq!(almost.next_snapshot_id(), Some(i64::MAX));
}

#[test]
fn sequence_numbers_count_the_commits() {
    let mut table = empty_table();
    table.record_snapshot(40, Vec::new()).unwrap();
    table.record_snapshot(7, Vec::new()).unwrap();
    assert_eq!(table.sequence_number(40), Some(1));
    assert_eq!(table.sequence_number(7), Some(2));
    assert_eq!(table.sequence_number(8), None);
}

#[test]
fn check_commit_tells_a_stale_writer() {
    let mut table = empty_table();
    assert_eq!(table.check_commit(None, 0), Ok(()));
    table.append_snapshot(0, vec![table_file("a", 1)]).unwrap();
    assert_eq!(table.check_commit(Some(0), 1), Ok(()));
    assert_eq!(
        table.check_commit(None, 1),
        Err(ManagerError::ConflictingCommit {
            table: "t".to_string(),
            expected: None,
            found: Some(0)
        })
    );
    assert_eq!(
        table.check_commit(Some(0), 0),
        Err(ManagerError::SnapshotExists { table: "t".to_string(), snapshot_id: 0 })
    );
}
