use iceberg_manager::catalog::{creation_refusal, lookup_refusal, Catalog};
use iceberg_manager::error::ManagerError;
use iceberg_manager::schema::{Field, FieldType, Schema};
use iceberg_manager::table::DataFile;

fn catalog_fields() -> Vec<Field> {
    Schema::default_schema().to_fields()
}

fn catalog_file(path: &str, record_count: u64) -> DataFile {
    DataFile { path: path.to_string(), file_size: 2 * record_count, record_count }
}

fn catalog_with_table() -> Catalog {
    let mut catalog = Catalog::new("mem://wh".to_string());
    catalog.create_namespace("ns1".to_string()).unwrap();
    catalog.create_table("ns1", "t", catalog_fields()).unwrap();
    catalog
}

fn sorted(mut names: Vec<String>) -> Vec<String> {
    names.sort();
    names
}

#[test]
fn namespace_is_created_once() {
    let mut catalog = Catalog::new("mem://wh".to_string());
    assert!(!catalog.namespace_exists("ns1"));
    assert_eq!(catalog.create_namespace("ns1".to_string()), Ok(()));
    assert!(catalog.namespace_exists("ns1"));
    assert!(!catalog.namespace_exists("ns2"));
    assert_eq!(
        catalog.create_namespace("ns1".to_string()),
        Err(ManagerError::AlreadyExists { name: "ns1".to_string() })
    );
}

#[test]
fn created_table_is_empty_and_placed_in_the_warehouse() {
    let mut catalog = Catalog::new("mem://wh".to_string());
    catalog.create_namespace("ns1".to_string()).unwrap();
    let table = catalog.create_table("ns1", "t", catalog_fields()).unwrap();
    assert_eq!(table.namespace(), "ns1");
    assert_eq!(table.name(), "t");
    assert_eq!(table.location(), "mem://wh/ns1/t");
    assert!(table.schema().same_as(&Schema::default_schema()));
    assert_eq!(table.snapshot_ids(), Vec::<i64>::new());
    assert!(catalog.table_exists("ns1", "t"));
    assert_eq!(catalog.load_table("ns1", "t"), Ok(table));
}

#[test]
fn create_table_needs_the_namespace() {
    let mut catalog = Catalog::new("mem://wh".to_string());
    assert_eq!(
        catalog.create_table("ns1", "t", catalog_fields()),
        Err(ManagerError::NamespaceNotFound { namespace: "ns1".to_string() })
    );
    assert!(!catalog.table_exists("ns1", "t"));
}

#[test]
fn create_table_twice_fails_with_already_exists() {
    let mut catalog = catalog_with_table();
    let before = catalog.load_table("ns1", "t").unwrap();
    assert_eq!(
        catalog.create_table("ns1", "t", catalog_fields()),
        Err(ManagerError::AlreadyExists { name: "t".to_string() })
    );
    assert_eq!(catalog.load_table("ns1", "t"), Ok(before));
}

#[test]
fn create_table_rejects_duplicate_field_ids() {
    let mut catalog = catalog_with_table();
    let fields = vec![
        Field { id: 1, name: "a".to_string(), field_type: FieldType::Int, required: true },
        Field { id: 1, name: "b".to_string(), field_type: FieldType::Int, required: true },
    ];
    assert_eq!(
        catalog.create_table("ns1", "u", fields),
        Err(ManagerError::SchemaInvalid { position: 1 })
    );
    assert!(!catalog.table_exists("ns1", "u"));
}

#[test]
fn create_table_reports_the_missing_namespace_first() {
    let mut catalog = catalog_with_table();
    let fields = vec![
        Field { id: 1, name: "a".to_string(), field_type: FieldType::Int, required: true },
        Field { id: 1, name: "b".to_string(), field_type: FieldType::Int, required: true },
    ];
    assert_eq!(
        catalog.create_table("nowhere", "t", fields.clone()),
        Err(ManagerError::NamespaceNotFound { namespace: "nowhere".to_string() })
    );
    assert_eq!(
        catalog.create_table("ns1", "t", fields),
        Err(ManagerError::AlreadyExists { name: "t".to_string() })
    );
}

#[test]
fn same_table_name_in_two_namespaces() {
    let mut catalog = catalog_with_table();
    catalog.create_namespace("ns2".to_string()).unwrap();
    let other = catalog.create_table("ns2", "t", catalog_fields()).unwrap();
    assert_eq!(other.location(), "mem://wh/ns2/t");
    catalog.commit_snapshot("ns2", "t", None, 0, vec![catalog_file("f", 1)]).unwrap();
    assert_eq!(catalog.load_table("ns1", "t").unwrap().snapshot_ids(), Vec::<i64>::new());
    assert_eq!(catalog.load_table("ns2", "t").unwrap().snapshot_ids(), vec![0]);
}

#[test]
fn list_tables_names_the_tables_of_one_namespace() {
    let mut catalog = catalog_with_table();
    catalog.create_namespace("ns2".to_string()).unwrap();
    catalog.create_table("ns1", "u", catalog_fields()).unwrap();
    catalog.create_table("ns2", "v", catalog_fields()).unwrap();
    assert_eq!(sorted(catalog.list_tables("ns1").unwrap()), vec!["t", "u"]);
    assert_eq!(sorted(catalog.list_tables("ns2").unwrap()), vec!["v"]);
    assert_eq!(
        catalog.list_tables("ns3"),
        Err(ManagerError::NamespaceNotFound { namespace: "ns3".to_string() })
    );
}

#[test]
fn list_tables_of_an_empty_namespace_is_empty() {
    let mut catalog = Catalog::new("mem://wh".to_string());
    catalog.create_namespace("ns1".to_string()).unwrap();
    assert_eq!(catalog.list_tables("ns1"), Ok(Vec::new()));
}

#[test]
fn load_table_that_was_never_created_is_not_found() {
    let catalog = catalog_with_table();
    assert_eq!(
        catalog.load_table("ns1", "missing"),
        Err(ManagerError::TableNotFound {
            namespace: "ns1".to_string(),
            table: "missing".to_string()
        })
    );
    assert_eq!(
        catalog.load_table("ns2", "t"),
        Err(ManagerError::TableNotFound { namespace: "ns2".to_string(), table: "t".to_string() })
    );
}

#[test]
fn dropped_table_is_not_found_afterwards() {
    let mut catalog = catalog_with_table();
    catalog.create_table("ns1", "u", catalog_fields()).unwrap();
    assert_eq!(catalog.drop_table("ns1", "t"), Ok(()));
    assert!(!catalog.table_exists("ns1", "t"));
    assert!(catalog.table_exists("ns1", "u"));
    let not_found =
        ManagerError::TableNotFound { namespace: "ns1".to_string(), table: "t".to_string() };
    assert_eq!(catalog.load_table("ns1", "t"), Err(not_found));
    let not_found =
        ManagerError::TableNotFound { namespace: "ns1".to_string(), table: "t".to_string() };
    assert_eq!(catalog.drop_table("ns1", "t"), Err(not_found));
    assert_eq!(catalog.list_tables("ns1"), Ok(vec!["u".to_string()]));
}

#[test]
fn table_created_again_after_a_drop_starts_without_history() {
    let mut catalog = catalog_with_table();
    catalog.commit_snapshot("ns1", "t", None, 0, vec![catalog_file("f", 1)]).unwrap();
    catalog.drop_table("ns1", "t").unwrap();
    let again = catalog.create_table("ns1", "t", catalog_fields()).unwrap();
    assert_eq!(again.snapshot_ids(), Vec::<i64>::new());
}

#[test]
fn commit_appends_a_snapshot_with_old_and_new_files() {
    let mut catalog = catalog_with_table();
    let first = catalog.commit_snapshot("ns1", "t", None, 0, vec![catalog_file("f0", 2)]).unwrap();
    assert_eq!(first.snapshot_ids(), vec![0]);
    assert_eq!(first.files_at(0), Ok(vec![catalog_file("f0", 2)]));
    let second =
        catalog.commit_snapshot("ns1", "t", Some(0), 1, vec![catalog_file("f1", 1)]).unwrap();
    assert_eq!(second.snapshot_ids(), vec![0, 1]);
    assert_eq!(second.files_at(0), Ok(vec![catalog_file("f0", 2)]));
    assert_eq!(second.files_at(1), Ok(vec![catalog_file("f0", 2), catalog_file("f1", 1)]));
    assert_eq!(catalog.load_table("ns1", "t"), Ok(second));
}

#[test]
fn commit_from_a_stale_snapshot_is_a_conflict() {
    let mut catalog = catalog_with_table();
    catalog.commit_snapshot("ns1", "t", None, 0, vec![catalog_file("f0", 2)]).unwrap();
    let before = catalog.load_table("ns1", "t").unwrap();
    assert_eq!(
        catalog.commit_snapshot("ns1", "t", None, 1, vec![catalog_file("f1", 1)]),
        Err(ManagerError::ConflictingCommit {
            table: "t".to_string(),
            expected: None,
            found: Some(0)
        })
    );
    assert_eq!(
        catalog.commit_snapshot("ns1", "t", Some(7), 1, vec![catalog_file("f1", 1)]),
        Err(ManagerError::ConflictingCommit {
            table: "t".to_string(),
            expected: Some(7),
            found: Some(0)
        })
    );
    assert_eq!(catalog.load_table("ns1", "t"), Ok(before));
}

#[test]
fn commit_under_a_used_id_is_refused() {
    let mut catalog = catalog_with_table();
    catalog.commit_snapshot("ns1", "t", None, 4, vec![catalog_file("f0", 2)]).unwrap();
    catalog.commit_snapshot("ns1", "t", Some(4), 9, vec![catalog_file("f1", 2)]).unwrap();
    let before = catalog.load_table("ns1", "t").unwrap();
    assert_eq!(
        catalog.commit_snapshot("ns1", "t", Some(9), 4, vec![catalog_file("f2", 1)]),
        Err(ManagerError::SnapshotExists { table: "t".to_string(), snapshot_id: 4 })
    );
    assert_eq!(catalog.load_table("ns1", "t"), Ok(before));
}

#[test]
fn commit_to_a_missing_table_is_not_found() {
    let mut catalog = catalog_with_table();
    assert_eq!(
        catalog.commit_snapshot("ns1", "u", None, 0, Vec::new()),
        Err(ManagerError::TableNotFound { namespace: "ns1".to_string(), table: "u".to_string() })
    );
}

#[test]
fn commit_leaves_other_tables_alone() {
    let mut catalog = catalog_with_table();
    catalog.create_table("ns1", "u", catalog_fields()).unwrap();
    catalog.commit_snapshot("ns1", "u", None, 0, vec![catalog_file("g", 5)]).unwrap();
    let other = catalog.load_table("ns1", "u").unwrap();
    catalog.commit_snapshot("ns1", "t", None, 0, vec![catalog_file("f", 1)]).unwrap();
    assert_eq!(catalog.load_table("ns1", "u"), Ok(other));
}

#[test]
fn creation_refusal_tests_the_namespace_first() {
    assert_eq!(creation_refusal(true, false, "ns1", "t"), None);
    assert_eq!(
        creation_refusal(false, false, "ns1", "t"),
        Some(ManagerError::NamespaceNotFound { namespace: "ns1".to_string() })
    );
    assert_eq!(
        creation_refusal(false, true, "ns1", "t"),
        Some(ManagerError::NamespaceNotFound { namespace: "ns1".to_string() })
    );
    assert_eq!(
        creation_refusal(true, true, "ns1", "t"),
        Some(ManagerError::AlreadyExists { name: "t".to_string() })
    );
}

#[test]
fn tables_are_listed_in_the_order_of_their_registration() {
    let mut catalog = catalog_with_table();
    catalog.create_namespace("ns2".to_string()).unwrap();
    catalog.create_table("ns1", "b", catalog_fields()).unwrap();
    catalog.create_table("ns2", "z", catalog_fields()).unwrap();
    catalog.create_table("ns1", "a", catalog_fields()).unwrap();
    assert_eq!(catalog.list_tables("ns1"), Ok(vec!["t".to_string(), "b".to_string(), "a".to_string()]));
    catalog.commit_snapshot("ns1", "t", None, 0, vec![catalog_file("f", 1)]).unwrap();
    assert_eq!(catalog.list_tables("ns1"), Ok(vec!["t".to_string(), "b".to_string(), "a".to_string()]));
    catalog.drop_table("ns1", "t").unwrap();
    assert_eq!(catalog.list_tables("ns1"), Ok(vec!["b".to_string(), "a".to_string()]));
    catalog.create_table("ns1", "t", catalog_fields()).unwrap();
    assert_eq!(catalog.list_tables("ns1"), Ok(vec!["b".to_string(), "a".to_string(), "t".to_string()]));
    assert_eq!(catalog.list_tables("ns2"), Ok(vec!["z".to_string()]));
}

#[test]
fn lookup_refusal_reports_the_missing_table() {
    assert_eq!(lookup_refusal(true, "ns1", "t"), None);
    assert_eq!(
        lookup_refusal(false, "ns1", "t"),
        Some(ManagerError::TableNotFound { namespace: "ns1".to_string(), table: "t".to_string() })
    );
}
