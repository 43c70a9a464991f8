//! The table manager: the write path, the read path and introspection.
//!
//! A write captures the table's metadata once, validates the rows, lays them
//! out in columns, writes one data file where no file is stored, and commits
//! that file as a new snapshot. The file is named after a token that the
//! caller draws for the write. It happens in two steps, so that writers can
//! race: [`IcebergManager::begin_write`] does everything up to the finished
//! file, [`IcebergManager::commit_write`] asks the catalog to append the
//! snapshot. A read pins one snapshot and opens a stream of the batches of
//! its files.

use vstd::prelude::*;
use vstd::string::*;
use crate::catalog::{lookup_refusal, Catalog, CatalogView};
use crate::error::{ErrorView, ManagerError};
use crate::location::{
    data_dir,
    data_dir_spec,
    data_file_path_spec,
    file_location,
    file_name,
    file_name_spec,
    FileFormat,
};
use crate::model::views;
use crate::row::{capped, cell_count, first_misfit, rows_fit, Row, RowBatch, ValueView};
use crate::stream::{RowStream, StreamView};
use crate::schema::{default_fields, fields_valid, FieldView, Schema};
use crate::store::{FileStore, StoreView};
use crate::table::{DataFile, DataFileView, TableMetadata, TableView};

verus! {

/// The mathematical value of an [`IcebergManager`].
pub struct ManagerView {
    pub catalog_uri: Seq<char>,
    pub warehouse_name: Seq<char>,
    pub namespace: Seq<char>,
    pub file_prefix: Seq<char>,
    pub schema: Seq<FieldView>,
}

/// The mathematical value of a [`PendingCommit`].
pub struct PendingView {
    pub table: Seq<char>,
    pub base: Option<i64>,
    pub snapshot_id: i64,
    pub file: DataFileView,
}

/// A written data file that waits to be committed as a snapshot.
#[derive(Debug, PartialEq, Eq)]
pub struct PendingCommit {
    pub table: String,
    /// The table's current snapshot when the write began.
    pub base: Option<i64>,
    /// The id under which the snapshot is to be committed.
    pub snapshot_id: i64,
    pub file: DataFile,
}

impl View for PendingCommit {
    type V = PendingView;

    open spec fn view(&self) -> PendingView {
        PendingView {
            table: self.table@,
            base: self.base,
            snapshot_id: self.snapshot_id,
            file: self.file@,
        }
    }
}

/// What a write will do, before it touches the store or the catalog.
#[derive(Debug, PartialEq, Eq)]
pub struct WritePlan {
    /// The rows, laid out in columns.
    pub batch: RowBatch,
    /// The table's current snapshot, which the write starts from.
    pub base: Option<i64>,
    /// The id under which the snapshot is to be committed.
    pub snapshot_id: i64,
    /// The directory of the table's data files.
    pub dir: String,
    /// The name of the new data file.
    pub file_name: String,
    /// The location of the new data file: the name in the directory.
    pub path: String,
}

impl View for WritePlan {
    type V = PlanView;

    open spec fn view(&self) -> PlanView {
        PlanView {
            rows: self.batch@,
            base: self.base,
            snapshot_id: self.snapshot_id,
            dir: self.dir@,
            file_name: self.file_name@,
            path: self.path@,
        }
    }
}

/// The first row that does not fit the fields.
pub open spec fn first_misfit_row(rows: Seq<Seq<ValueView>>, fields: Seq<FieldView>) -> usize {
    choose|row: usize| first_misfit(rows, fields, row as int)
}

/// Where a write to the table puts its data file. The count in the file's
/// name is the token that the writer drew for this write.
pub open spec fn write_path(table: TableView, file_prefix: Seq<char>, file_token: u64) -> Seq<
    char,
> {
    data_file_path_spec(table.location, file_prefix, file_token as nat, FileFormat::Parquet)
}

/// Why a write of the rows to the table cannot be planned, if it cannot: the
/// table's schema is not the writer's, a row does not fit the schema, or no
/// id is left for the snapshot. The three are tested in this order.
pub open spec fn plan_refusal(manager: ManagerView, table: TableView, rows: Seq<Seq<ValueView>>) -> Option<
    ErrorView,
> {
    if table.schema != manager.schema {
        Some(ErrorView::SchemaMismatch { row: None })
    } else if !rows_fit(rows, manager.schema) {
        Some(ErrorView::SchemaMismatch { row: Some(first_misfit_row(rows, manager.schema)) })
    } else if table.next_snapshot_id() > i64::MAX {
        Some(ErrorView::SnapshotExists { table: table.name, snapshot_id: i64::MAX })
    } else {
        None
    }
}

/// The mathematical value of a [`WritePlan`].
pub struct PlanView {
    pub rows: Seq<Seq<ValueView>>,
    pub base: Option<i64>,
    pub snapshot_id: i64,
    pub dir: Seq<char>,
    pub file_name: Seq<char>,
    pub path: Seq<char>,
}

/// The plan of a write of the rows to the table: the snapshot that the
/// writer starts from, the id of the snapshot that it will commit, and the
/// directory, name and location of its data file.
pub open spec fn planned(
    manager: ManagerView,
    table: TableView,
    rows: Seq<Seq<ValueView>>,
    file_token: u64,
) -> PlanView {
    PlanView {
        rows,
        base: table.current_snapshot_id(),
        snapshot_id: table.next_snapshot_id() as i64,
        dir: data_dir_spec(table.location),
        file_name: file_name_spec(
            manager.file_prefix,
            file_token as nat,
            None,
            FileFormat::Parquet,
        ),
        path: write_path(table, manager.file_prefix, file_token),
    }
}

/// The write can get as far as a finished data file: the table exists, the
/// write can be planned, and no file is stored yet where the new one goes.
pub open spec fn can_begin(
    catalog: CatalogView,
    store: StoreView,
    manager: ManagerView,
    table: Seq<char>,
    rows: Seq<Seq<ValueView>>,
    file_token: u64,
) -> bool {
    &&& catalog.has_table(manager.namespace, table)
    &&& plan_refusal(manager, catalog.table(manager.namespace, table), rows) is None
    &&& !store.contains_key(
        write_path(catalog.table(manager.namespace, table), manager.file_prefix, file_token),
    )
}

/// Why the write cannot begin. The reasons are tested in this order: the
/// namespace, the table, the plan, the file's location.
pub open spec fn begin_refusal(
    catalog: CatalogView,
    store: StoreView,
    manager: ManagerView,
    table: Seq<char>,
    rows: Seq<Seq<ValueView>>,
    file_token: u64,
) -> ErrorView {
    if !catalog.namespaces.contains(manager.namespace) {
        ErrorView::NamespaceNotFound { namespace: manager.namespace }
    } else if !catalog.has_table(manager.namespace, table) {
        ErrorView::TableNotFound { namespace: manager.namespace, table }
    } else {
        match plan_refusal(manager, catalog.table(manager.namespace, table), rows) {
            Some(refusal) => refusal,
            None => ErrorView::FileWriteError {
                path: write_path(
                    catalog.table(manager.namespace, table),
                    manager.file_prefix,
                    file_token,
                ),
            },
        }
    }
}

/// The commit that a begun write waits for.
pub open spec fn begun_commit(
    catalog: CatalogView,
    manager: ManagerView,
    table: Seq<char>,
    rows: Seq<Seq<ValueView>>,
    file_token: u64,
) -> PendingView {
    let metadata = catalog.table(manager.namespace, table);
    PendingView {
        table,
        base: metadata.current_snapshot_id(),
        snapshot_id: metadata.next_snapshot_id() as i64,
        file: DataFileView {
            path: write_path(metadata, manager.file_prefix, file_token),
            file_size: capped(cell_count(rows)),
            record_count: rows.len() as u64,
        },
    }
}

/// The store after a begun write: the rows stand in a new file.
pub open spec fn begun_store(
    catalog: CatalogView,
    store: StoreView,
    manager: ManagerView,
    table: Seq<char>,
    rows: Seq<Seq<ValueView>>,
    file_token: u64,
) -> StoreView {
    store.insert(
        write_path(catalog.table(manager.namespace, table), manager.file_prefix, file_token),
        rows,
    )
}

/// What committing a pending write does to the catalog.
pub open spec fn commit_pending(catalog: CatalogView, namespace: Seq<char>, pending: PendingView) -> Result<
    CatalogView,
    ErrorView,
> {
    catalog.commit(
        namespace,
        pending.table,
        pending.base,
        pending.snapshot_id,
        seq![pending.file],
    )
}

/// The catalog after a whole write.
pub open spec fn written_catalog(
    catalog: CatalogView,
    manager: ManagerView,
    table: Seq<char>,
    rows: Seq<Seq<ValueView>>,
    file_token: u64,
) -> CatalogView {
    let pending = begun_commit(catalog, manager, table, rows, file_token);
    catalog.with_table(
        catalog.table(manager.namespace, table).append(pending.snapshot_id, seq![pending.file]),
    )
}

/// A write that can begin on a well-formed catalog is committed: nothing
/// comes between its two steps.
pub proof fn lemma_begun_write_commits(
    catalog: CatalogView,
    store: StoreView,
    manager: ManagerView,
    table: Seq<char>,
    rows: Seq<Seq<ValueView>>,
    file_token: u64,
)
    requires
        catalog.wf(),
        can_begin(catalog, store, manager, table, rows, file_token),
    ensures
        commit_pending(
            catalog,
            manager.namespace,
            begun_commit(catalog, manager, table, rows, file_token),
        ) == Ok::<CatalogView, ErrorView>(
            written_catalog(catalog, manager, table, rows, file_token),
        ),
{
    catalog.table(manager.namespace, table).lemma_next_id_is_new();
}

/// There is one first row that does not fit.
pub proof fn lemma_first_misfit_unique(
    rows: Seq<Seq<ValueView>>,
    fields: Seq<FieldView>,
    row: usize,
)
    requires
        first_misfit(rows, fields, row as int),
    ensures
        first_misfit_row(rows, fields) == row,
{
}

/// Why the data file cannot be written at `path`, if it cannot: a file is
/// stored there, and no file is ever written over.
pub fn location_refusal(taken: bool, path: &str) -> (refusal: Option<ManagerError>)
    ensures
        refusal is Some <==> taken,
        refusal matches Some(error) ==> error@ == (ErrorView::FileWriteError { path: path@ }),
{
    if taken {
        Some(ManagerError::FileWriteError { path: String::from_str(path) })
    } else {
        None
    }
}

/// The position of the first name that equals `wanted`.
pub fn find_table_name(names: &Vec<String>, wanted: &str) -> (found: Option<usize>)
    ensures
        found is Some <==> views(names@).contains(wanted@),
        found matches Some(i) ==> i < names@.len() && names@[i as int]@ == wanted@ && forall|
            k: int,
        | 0 <= k < i ==> (#[trigger] views(names@)[k]) != wanted@,
{
    let owned = String::from_str(wanted);
    let mut i: usize = 0;
    while i < names.len()
        invariant
            owned@ == wanted@,
            i <= names.len(),
            forall|k: int| 0 <= k < i ==> (#[trigger] views(names@)[k]) != wanted@,
        decreases names.len() - i,
    {
        if names[i] == owned {
            assert(views(names@)[i as int] == wanted@);
            return Some(i);
        }
        i += 1;
    }
    None
}

/// The manager of the tables of one namespace.
#[derive(Debug, PartialEq, Eq)]
pub struct IcebergManager {
    catalog_uri: String,
    warehouse_name: String,
    namespace_id: String,
    file_prefix: String,
    schema: Schema,
}

impl View for IcebergManager {
    type V = ManagerView;

    closed spec fn view(&self) -> ManagerView {
        ManagerView {
            catalog_uri: self.catalog_uri@,
            warehouse_name: self.warehouse_name@,
            namespace: self.namespace_id@,
            file_prefix: self.file_prefix@,
            schema: self.schema@,
        }
    }
}

impl IcebergManager {
    /// The manager's schema is valid.
    pub open spec fn wf(&self) -> bool {
        fields_valid(self@.schema)
    }

    /// A manager for the tables of the namespace, with the fixed schema and
    /// an empty file prefix. Nothing is asked of the catalog.
    pub fn configure(catalog_uri: String, namespace_id: String, warehouse_name: String) -> (manager:
        IcebergManager)
        ensures
            manager.wf(),
            manager@ == (ManagerView {
                catalog_uri: catalog_uri@,
                warehouse_name: warehouse_name@,
                namespace: namespace_id@,
                file_prefix: Seq::empty(),
                schema: default_fields(),
            }),
    {
        IcebergManager {
            catalog_uri,
            warehouse_name,
            namespace_id,
            file_prefix: String::new(),
            schema: Schema::default_schema(),
        }
    }

    /// A manager for the tables of the namespace, with the fixed schema and
    /// an empty file prefix. The namespace is registered where the catalog
    /// does not have it yet.
    pub fn new(
        catalog: &mut Catalog,
        catalog_uri: String,
        namespace_id: String,
        warehouse_name: String,
    ) -> (made: Result<IcebergManager, ManagerError>)
        requires
            old(catalog).wf(),
        ensures
            final(catalog).wf(),
            final(catalog)@ == (CatalogView {
                namespaces: old(catalog)@.namespaces.insert(namespace_id@),
                ..old(catalog)@
            }),
            made matches Ok(manager) && manager.wf() && manager@ == (ManagerView {
                catalog_uri: catalog_uri@,
                warehouse_name: warehouse_name@,
                namespace: namespace_id@,
                file_prefix: Seq::empty(),
                schema: default_fields(),
            }),
    {
        if !catalog.namespace_exists(namespace_id.as_str()) {
            match catalog.create_namespace(namespace_id.clone()) {
                Ok(()) => {},
                Err(error) => {
                    return Err(error);
                },
            }
        } else {
            assert(catalog@.namespaces.insert(namespace_id@) =~= catalog@.namespaces);
        }
        Ok(Self::configure(catalog_uri, namespace_id, warehouse_name))
    }

    /// The same manager, with `file_prefix` at the head of the names of the
    /// data files that it writes. Writers that race for one table need
    /// different prefixes.
    pub fn with_file_prefix(self, file_prefix: String) -> (manager: Self)
        ensures
            manager@ == (ManagerView { file_prefix: file_prefix@, ..self@ }),
    {
        IcebergManager {
            catalog_uri: self.catalog_uri,
            warehouse_name: self.warehouse_name,
            namespace_id: self.namespace_id,
            file_prefix,
            schema: self.schema,
        }
    }

    /// The address of the catalog service.
    pub fn catalog_uri(&self) -> (uri: &String)
        ensures
            uri@ == self@.catalog_uri,
    {
        &self.catalog_uri
    }

    /// The name of the warehouse.
    pub fn warehouse_name(&self) -> (name: &String)
        ensures
            name@ == self@.warehouse_name,
    {
        &self.warehouse_name
    }

    /// The namespace whose tables the manager works on.
    pub fn namespace_id(&self) -> (namespace: &String)
        ensures
            namespace@ == self@.namespace,
    {
        &self.namespace_id
    }

    /// What stands at the head of the names of the manager's data files.
    pub fn file_prefix(&self) -> (prefix: &String)
        ensures
            prefix@ == self@.file_prefix,
    {
        &self.file_prefix
    }

    /// The schema of the tables that the manager creates.
    pub fn schema(&self) -> (schema: &Schema)
        ensures
            schema@ == self@.schema,
    {
        &self.schema
    }

    /// Registers a table of that name, with the manager's schema and without
    /// snapshots, in the manager's namespace.
    pub fn create_table(&self, catalog: &mut Catalog, tbl_name: String) -> (created: Result<
        (),
        ManagerError,
    >)
        requires
            self.wf(),
            old(catalog).wf(),
        ensures
            final(catalog).wf(),
            created is Ok <==> old(catalog)@.namespaces.contains(self@.namespace) && !old(
                catalog,
            )@.has_table(self@.namespace, tbl_name@),
            created is Ok ==> final(catalog)@ == old(catalog)@.register(
                old(catalog)@.new_table(self@.namespace, tbl_name@, self@.schema),
            ),
            created matches Err(error) ==> final(catalog)@ == old(catalog)@ && error@ == (
            if !old(catalog)@.namespaces.contains(self@.namespace) {
                ErrorView::NamespaceNotFound { namespace: self@.namespace }
            } else {
                ErrorView::AlreadyExists { name: tbl_name@ }
            }),
    {
        let fields = self.schema.to_fields();
        match catalog.create_table(self.namespace_id.as_str(), tbl_name.as_str(), fields) {
            Ok(_) => Ok(()),
            Err(error) => Err(error),
        }
    }

    /// Whether the namespace has a table of that name.
    pub fn table_exists(&self, catalog: &Catalog, tbl_name: &str) -> (exists: bool)
        requires
            catalog.wf(),
        ensures
            exists == catalog@.has_table(self@.namespace, tbl_name@),
    {
        catalog.table_exists(self.namespace_id.as_str(), tbl_name)
    }

    /// The names of the tables of the manager's namespace, as the catalog
    /// lists them and in the catalog's order: none added, dropped or moved.
    pub fn list_tables(&self, catalog: &Catalog) -> (listed: Result<Vec<String>, ManagerError>)
        requires
            catalog.wf(),
        ensures
            listed is Ok <==> catalog@.namespaces.contains(self@.namespace),
            listed matches Ok(names) ==> views(names@) == catalog@.listing(self@.namespace),
            listed matches Ok(names) ==> views(names@).no_duplicates() && forall|name: Seq<char>|
                views(names@).contains(name) <==> catalog@.has_table(self@.namespace, name),
            listed matches Err(error) ==> error@ == (ErrorView::NamespaceNotFound {
                namespace: self@.namespace,
            }),
    {
        catalog.list_tables(self.namespace_id.as_str())
    }

    /// Picks the table of that name out of the names that the catalog
    /// listed for the manager's namespace: the position of the first name
    /// that equals `tbl_name`, or that the table is not found.
    pub fn pick_table(&self, names: &Vec<String>, tbl_name: &str) -> (picked: Result<
        usize,
        ManagerError,
    >)
        ensures
            picked is Ok <==> views(names@).contains(tbl_name@),
            picked matches Ok(i) ==> i < names@.len() && names@[i as int]@ == tbl_name@ && forall|
                k: int,
            | 0 <= k < i ==> (#[trigger] views(names@)[k]) != tbl_name@,
            picked matches Err(error) ==> error@ == (ErrorView::TableNotFound {
                namespace: self@.namespace,
                table: tbl_name@,
            }),
    {
        let found = find_table_name(names, tbl_name);
        match lookup_refusal(found.is_some(), self.namespace_id.as_str(), tbl_name) {
            Some(error) => Err(error),
            None => Ok(found.unwrap()),
        }
    }

    /// The table of that name with its full metadata. The table is looked
    /// for by name among the tables that the catalog lists.
    pub fn load_table(&self, catalog: &Catalog, tbl_name: &str) -> (loaded: Result<
        TableMetadata,
        ManagerError,
    >)
        requires
            catalog.wf(),
        ensures
            loaded is Ok <==> catalog@.has_table(self@.namespace, tbl_name@),
            loaded matches Ok(table) ==> table.wf() && table@ == catalog@.table(
                self@.namespace,
                tbl_name@,
            ),
            loaded matches Err(error) ==> error@ == (if !catalog@.namespaces.contains(
                self@.namespace,
            ) {
                ErrorView::NamespaceNotFound { namespace: self@.namespace }
            } else {
                ErrorView::TableNotFound { namespace: self@.namespace, table: tbl_name@ }
            }),
    {
        proof {
            catalog.lemma_view_wf();
        }
        let names = match catalog.list_tables(self.namespace_id.as_str()) {
            Ok(names) => names,
            Err(error) => {
                return Err(error);
            },
        };
        match self.pick_table(&names, tbl_name) {
            Ok(i) => catalog.load_table(self.namespace_id.as_str(), names[i].as_str()),
            Err(error) => Err(error),
        }
    }

    /// Takes the table's record out of the catalog. Its data files stay.
    pub fn drop_table(&self, catalog: &mut Catalog, tbl_name: String) -> (dropped: Result<
        (),
        ManagerError,
    >)
        requires
            old(catalog).wf(),
        ensures
            final(catalog).wf(),
            dropped is Ok <==> old(catalog)@.has_table(self@.namespace, tbl_name@),
            dropped is Ok ==> final(catalog)@ == old(catalog)@.without_table(
                self@.namespace,
                tbl_name@,
            ),
            dropped matches Err(error) ==> final(catalog)@ == old(catalog)@ && error@
                == (ErrorView::TableNotFound { namespace: self@.namespace, table: tbl_name@ }),
    {
        catalog.drop_table(self.namespace_id.as_str(), tbl_name.as_str())
    }

    /// The id of a table's first snapshot: 0. Nothing is asked of the catalog
    /// or of the store, and no snapshot is added to any table.
    pub fn create_snapshot() -> (created: Result<i64, ManagerError>)
        ensures
            created == Ok::<i64, ManagerError>(0),
    {
        Ok(0)
    }

    /// Plans a write of the rows to the table whose metadata was captured:
    /// tests that the table has the manager's schema, validates the rows and
    /// lays them out in columns, takes the id that follows the largest id in
    /// the table's history, and names the data file after `file_token`.
    /// Nothing is written and nothing is committed.
    ///
    /// The token is what makes the file's name new: the caller draws one for
    /// each write, and never the same one twice for one table.
    pub fn plan_write(&self, metadata: &TableMetadata, rows: &Vec<Row>, file_token: u64) -> (plan:
        Result<WritePlan, ManagerError>)
        ensures
            plan is Ok <==> plan_refusal(self@, metadata@, views(rows@)) is None,
            plan matches Ok(plan) ==> plan.batch.wf() && plan@ == planned(
                self@,
                metadata@,
                views(rows@),
                file_token,
            ),
            plan matches Err(error) ==> Some(error@) == plan_refusal(
                self@,
                metadata@,
                views(rows@),
            ),
    {
        if !metadata.schema().same_as(&self.schema) {
            return Err(ManagerError::SchemaMismatch { row: None });
        }
        let batch = match RowBatch::from_rows(&self.schema, rows) {
            Ok(batch) => batch,
            Err(error) => {
                proof {
                    match error@ {
                        ErrorView::SchemaMismatch { row: Some(row) } => {
                            lemma_first_misfit_unique(views(rows@), self@.schema, row);
                        },
                        _ => {},
                    }
                }
                return Err(error);
            },
        };
        let snapshot_id = match metadata.next_snapshot_id() {
            Some(id) => id,
            None => {
                return Err(
                    ManagerError::SnapshotExists {
                        table: metadata.name().clone(),
                        snapshot_id: i64::MAX,
                    },
                );
            },
        };
        let dir = data_dir(metadata.location().as_str());
        let name = file_name(self.file_prefix.as_str(), file_token, None, FileFormat::Parquet);
        let path = file_location(dir.as_str(), name.as_str());
        Ok(
            WritePlan {
                batch,
                base: metadata.current_snapshot_id(),
                snapshot_id,
                dir,
                file_name: name,
                path,
            },
        )
    }

    /// The ids of the table's snapshots in commit order, oldest first, as the
    /// metadata records them.
    pub fn list_snapshots(&self, tbl_metadata: &TableMetadata) -> (listed: Result<
        Vec<i64>,
        ManagerError,
    >)
        ensures
            listed matches Ok(ids) && ids@ == tbl_metadata@.snapshot_ids(),
    {
        Ok(tbl_metadata.snapshot_ids())
    }

    /// The first step of a write: captures the table's metadata, plans the
    /// write, tests that no file is stored where the new one goes, and writes
    /// the rows to one new data file named after `file_token`. It changes the
    /// store only where it succeeds, and never the catalog; it never writes
    /// where a file is stored.
    pub fn begin_write(
        &self,
        catalog: &Catalog,
        store: &mut FileStore,
        tbl_name: &str,
        rows: &Vec<Row>,
        file_token: u64,
    ) -> (begun: Result<PendingCommit, ManagerError>)
        requires
            self.wf(),
            catalog.wf(),
            old(store).wf(),
        ensures
            final(store).wf(),
            begun is Ok <==> can_begin(
                catalog@,
                old(store)@,
                self@,
                tbl_name@,
                views(rows@),
                file_token,
            ),
            begun matches Ok(pending) ==> pending@ == begun_commit(
                catalog@,
                self@,
                tbl_name@,
                views(rows@),
                file_token,
            ) && final(store)@ == begun_store(
                catalog@,
                old(store)@,
                self@,
                tbl_name@,
                views(rows@),
                file_token,
            ),
            begun matches Err(error) ==> final(store)@ == old(store)@ && error@ == begin_refusal(
                catalog@,
                old(store)@,
                self@,
                tbl_name@,
                views(rows@),
                file_token,
            ),
    {
        proof {
            catalog.lemma_view_wf();
        }
        let metadata = match self.load_table(catalog, tbl_name) {
            Ok(metadata) => metadata,
            Err(error) => {
                return Err(error);
            },
        };
        let plan = match self.plan_write(&metadata, rows, file_token) {
            Ok(plan) => plan,
            Err(error) => {
                return Err(error);
            },
        };
        match location_refusal(store.contains(plan.path.as_str()), plan.path.as_str()) {
            Some(error) => {
                return Err(error);
            },
            None => {},
        }
        let file = store.write(plan.path, plan.batch);
        Ok(
            PendingCommit {
                table: String::from_str(tbl_name),
                base: plan.base,
                snapshot_id: plan.snapshot_id,
                file,
            },
        )
    }

    /// The second step of a write: asks the catalog to append the snapshot.
    /// A refusal is handed to the caller as it is. Nothing is retried, and
    /// the data file of a refused write stays where it is.
    pub fn commit_write(&self, catalog: &mut Catalog, pending: PendingCommit) -> (committed:
        Result<i64, ManagerError>)
        requires
            old(catalog).wf(),
        ensures
            final(catalog).wf(),
            match commit_pending(old(catalog)@, self@.namespace, pending@) {
                Ok(after) => final(catalog)@ == after && committed == Ok::<i64, ManagerError>(
                    pending.snapshot_id,
                ),
                Err(refusal) => {
                    &&& final(catalog)@ == old(catalog)@
                    &&& committed matches Err(error)
                    &&& error@ == refusal
                },
            },
    {
        let snapshot_id = pending.snapshot_id;
        let base = pending.base;
        let mut files: Vec<DataFile> = Vec::new();
        files.push(pending.file);
        assert(views(files@) =~= seq![pending.file@]);
        match catalog.commit_snapshot(
            self.namespace_id.as_str(),
            pending.table.as_str(),
            base,
            snapshot_id,
            files,
        ) {
            Ok(_) => Ok(snapshot_id),
            Err(error) => Err(error),
        }
    }

    /// Writes the rows to the table as one new data file, named after
    /// `file_token`, and commits the file as a new snapshot, whose id it
    /// returns. The snapshot shows the new file besides the files that were
    /// visible before. Where the write fails, the catalog and the store are
    /// as they were.
    pub fn write_data(
        &self,
        catalog: &mut Catalog,
        store: &mut FileStore,
        tbl_name: &str,
        rows: &Vec<Row>,
        file_token: u64,
    ) -> (written: Result<i64, ManagerError>)
        requires
            self.wf(),
            old(catalog).wf(),
            old(store).wf(),
        ensures
            final(catalog).wf(),
            final(store).wf(),
            written is Ok <==> can_begin(
                old(catalog)@,
                old(store)@,
                self@,
                tbl_name@,
                views(rows@),
                file_token,
            ),
            written matches Ok(snapshot_id) ==> {
                &&& snapshot_id == begun_commit(
                    old(catalog)@,
                    self@,
                    tbl_name@,
                    views(rows@),
                    file_token,
                ).snapshot_id
                &&& final(catalog)@ == written_catalog(
                    old(catalog)@,
                    self@,
                    tbl_name@,
                    views(rows@),
                    file_token,
                )
                &&& final(store)@ == begun_store(
                    old(catalog)@,
                    old(store)@,
                    self@,
                    tbl_name@,
                    views(rows@),
                    file_token,
                )
            },
            written matches Err(error) ==> {
                &&& final(catalog)@ == old(catalog)@
                &&& final(store)@ == old(store)@
                &&& error@ == begin_refusal(
                    old(catalog)@,
                    old(store)@,
                    self@,
                    tbl_name@,
                    views(rows@),
                    file_token,
                )
            },
    {
        let pending = match self.begin_write(catalog, store, tbl_name, rows, file_token) {
            Ok(pending) => pending,
            Err(error) => {
                return Err(error);
            },
        };
        proof {
            catalog.lemma_view_wf();
            lemma_begun_write_commits(
                catalog@,
                old(store)@,
                self@,
                tbl_name@,
                views(rows@),
                file_token,
            );
        }
        self.commit_write(catalog, pending)
    }

    /// Opens a read of the table as of the snapshot `version`. The id is
    /// matched exactly: a read never falls back to another snapshot.
    pub fn read_table_at_version(&self, tbl: &TableMetadata, version: i64) -> (opened: Result<
        RowStream,
        ManagerError,
    >)
        requires
            tbl.wf(),
        ensures
            opened is Ok <==> tbl@.has_snapshot(version),
            opened matches Ok(stream) ==> stream.wf() && stream@ == (StreamView {
                schema: tbl@.schema,
                files: tbl@.files_at(version),
                position: 0,
                failed: false,
            }),
            opened matches Err(error) ==> error@ == (ErrorView::SnapshotNotFound {
                table: tbl@.name,
                snapshot_id: version,
            }),
    {
        match tbl.files_at(version) {
            Ok(files) => Ok(RowStream::open(tbl.schema().clone(), files)),
            Err(error) => Err(error),
        }
    }
}

} // verus!
