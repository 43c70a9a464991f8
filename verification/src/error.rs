//! The closed set of failures that the manager reports.

use vstd::prelude::*;

verus! {

/// The kinds of failure, without their context.
#[derive(Clone, Copy, Debug, PartialEq, Eq, Structural)]
pub enum ErrorKind {
    /// A namespace, table or snapshot is absent.
    NotFound,
    /// Something of that name or id was created before.
    AlreadyExists,
    /// Rows do not have the shape that the schema asks for.
    SchemaMismatch,
    /// The schema itself is not acceptable.
    SchemaInvalid,
    /// A concurrent snapshot append won the race.
    ConflictingCommit,
    /// A data file could not be read back.
    FileReadError,
    /// A data file could not be written.
    FileWriteError,
    /// The catalog could not be reached.
    TransportError,
}

/// A failure together with what is needed to diagnose it.
#[derive(Debug, PartialEq, Eq)]
pub enum ManagerError {
    /// The namespace is not registered in the catalog.
    NamespaceNotFound { namespace: String },
    /// No table of that name is registered in the namespace.
    TableNotFound { namespace: String, table: String },
    /// The table's history holds no snapshot with this id.
    SnapshotNotFound { table: String, snapshot_id: i64 },
    /// A namespace or a table of that name exists already.
    AlreadyExists { name: String },
    /// The table's history holds a snapshot with this id already.
    SnapshotExists { table: String, snapshot_id: i64 },
    /// `row` is the first row that does not fit the schema; `None` when the
    /// table's schema is not the writer's.
    SchemaMismatch { row: Option<usize> },
    /// `position` is the first field that repeats the id or the name of an
    /// earlier field.
    SchemaInvalid { position: usize },
    /// The table's current snapshot is `found`, not the `expected` one that
    /// the writer started from.
    ConflictingCommit { table: String, expected: Option<i64>, found: Option<i64> },
    /// The file at `path` is missing or does not hold what the schema asks for.
    FileReadError { path: String },
    /// The file at `path` could not be created.
    FileWriteError { path: String },
    /// The catalog did not answer.
    TransportError { detail: String },
}

/// The mathematical value of a [`ManagerError`].
pub enum ErrorView {
    NamespaceNotFound { namespace: Seq<char> },
    TableNotFound { namespace: Seq<char>, table: Seq<char> },
    SnapshotNotFound { table: Seq<char>, snapshot_id: i64 },
    AlreadyExists { name: Seq<char> },
    SnapshotExists { table: Seq<char>, snapshot_id: i64 },
    SchemaMismatch { row: Option<usize> },
    SchemaInvalid { position: usize },
    ConflictingCommit { table: Seq<char>, expected: Option<i64>, found: Option<i64> },
    FileReadError { path: Seq<char> },
    FileWriteError { path: Seq<char> },
    TransportError { detail: Seq<char> },
}

impl ErrorView {
    /// The kind of this failure.
    pub open spec fn kind(self) -> ErrorKind {
        match self {
            ErrorView::NamespaceNotFound { .. } => ErrorKind::NotFound,
            ErrorView::TableNotFound { .. } => ErrorKind::NotFound,
            ErrorView::SnapshotNotFound { .. } => ErrorKind::NotFound,
            ErrorView::AlreadyExists { .. } => ErrorKind::AlreadyExists,
            ErrorView::SnapshotExists { .. } => ErrorKind::AlreadyExists,
            ErrorView::SchemaMismatch { .. } => ErrorKind::SchemaMismatch,
            ErrorView::SchemaInvalid { .. } => ErrorKind::SchemaInvalid,
            ErrorView::ConflictingCommit { .. } => ErrorKind::ConflictingCommit,
            ErrorView::FileReadError { .. } => ErrorKind::FileReadError,
            ErrorView::FileWriteError { .. } => ErrorKind::FileWriteError,
            ErrorView::TransportError { .. } => ErrorKind::TransportError,
        }
    }
}

impl View for ManagerError {
    type V = ErrorView;

    open spec fn view(&self) -> ErrorView {
        match self {
            ManagerError::NamespaceNotFound { namespace } => ErrorView::NamespaceNotFound {
                namespace: namespace@,
            },
            ManagerError::TableNotFound { namespace, table } => ErrorView::TableNotFound {
                namespace: namespace@,
                table: table@,
            },
            ManagerError::SnapshotNotFound { table, snapshot_id } => ErrorView::SnapshotNotFound {
                table: table@,
                snapshot_id: *snapshot_id,
            },
            ManagerError::AlreadyExists { name } => ErrorView::AlreadyExists { name: name@ },
            ManagerError::SnapshotExists { table, snapshot_id } => ErrorView::SnapshotExists {
                table: table@,
                snapshot_id: *snapshot_id,
            },
            ManagerError::SchemaMismatch { row } => ErrorView::SchemaMismatch { row: *row },
            ManagerError::SchemaInvalid { position } => ErrorView::SchemaInvalid {
                position: *position,
            },
            ManagerError::ConflictingCommit { table, expected, found } => {
                ErrorView::ConflictingCommit { table: table@, expected: *expected, found: *found }
            },
            ManagerError::FileReadError { path } => ErrorView::FileReadError { path: path@ },
            ManagerError::FileWriteError { path } => ErrorView::FileWriteError { path: path@ },
            ManagerError::TransportError { detail } => ErrorView::TransportError {
                detail: detail@,
            },
        }
    }
}

impl ManagerError {
    /// The kind of this failure.
    pub fn kind(&self) -> (kind: ErrorKind)
        ensures
            kind == self@.kind(),
    {
        match self {
            ManagerError::NamespaceNotFound { .. } => ErrorKind::NotFound,
            ManagerError::TableNotFound { .. } => ErrorKind::NotFound,
            ManagerError::SnapshotNotFound { .. } => ErrorKind::NotFound,
            ManagerError::AlreadyExists { .. } => ErrorKind::AlreadyExists,
            ManagerError::SnapshotExists { .. } => ErrorKind::AlreadyExists,
            ManagerError::SchemaMismatch { .. } => ErrorKind::SchemaMismatch,
            ManagerError::SchemaInvalid { .. } => ErrorKind::SchemaInvalid,
            ManagerError::ConflictingCommit { .. } => ErrorKind::ConflictingCommit,
            ManagerError::FileReadError { .. } => ErrorKind::FileReadError,
            ManagerError::FileWriteError { .. } => ErrorKind::FileWriteError,
            ManagerError::TransportError { .. } => ErrorKind::TransportError,
        }
    }
}

} // verus!
