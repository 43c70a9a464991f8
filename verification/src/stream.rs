//! The read path: what a read of a run of data files gives, and the stream
//! that gives it batch by batch.
//!
//! A stream is lazy, single-pass and forward-only. It reads one file for
//! each batch that is asked of it. A file that cannot be read ends the
//! stream with an error: the files after it are not read, and the batches
//! that came out before stay with the caller.

use vstd::prelude::*;
use vstd::string::*;
use crate::error::{ErrorView, ManagerError};
use crate::model::views;
use crate::row::{rows_fit, Row, RowBatch, ValueView};
use crate::schema::{FieldView, Schema};
use crate::store::{FileStore, StoreView};
use crate::table::{DataFile, DataFileView, TableView};

verus! {

/// The rows of the first batch followed by the rest, and the failure that
/// ended the rest.
pub open spec fn prepend_rows(
    first: Seq<Seq<ValueView>>,
    rest: (Seq<Seq<ValueView>>, Option<ErrorView>),
) -> (Seq<Seq<ValueView>>, Option<ErrorView>) {
    (first + rest.0, rest.1)
}

/// What reading one data file gives: its rows, or a read error where the
/// file is missing or its rows do not fit the schema.
pub open spec fn read_file(store: StoreView, schema: Seq<FieldView>, file: DataFileView) -> Result<
    Seq<Seq<ValueView>>,
    ErrorView,
> {
    if store.contains_key(file.path) && rows_fit(store[file.path], schema) {
        Ok(store[file.path])
    } else {
        Err(ErrorView::FileReadError { path: file.path })
    }
}

/// What reading the files in order gives: the rows of the files up to the
/// first one that fails, and that failure. Nothing is read after a failure.
pub open spec fn read_files(store: StoreView, schema: Seq<FieldView>, files: Seq<DataFileView>) -> (
    Seq<Seq<ValueView>>,
    Option<ErrorView>,
)
    decreases files.len(),
{
    if files.len() == 0 {
        (Seq::empty(), None)
    } else {
        match read_file(store, schema, files.first()) {
            Ok(rows) => prepend_rows(rows, read_files(store, schema, files.drop_first())),
            Err(error) => (Seq::empty(), Some(error)),
        }
    }
}

/// What reading the file at `path` gives, from what the file reader made of
/// it: the batch, where the reader gave one and its rows fit the schema; a
/// read error that names the file, where the reader gave none or the rows do
/// not fit.
pub fn accept_file(schema: &Schema, path: &str, read: Option<RowBatch>) -> (accepted: Result<
    RowBatch,
    ManagerError,
>)
    requires
        read matches Some(batch) ==> batch.wf(),
    ensures
        accepted is Ok <==> (read matches Some(batch) && rows_fit(batch@, schema@)),
        accepted matches Ok(batch) ==> batch.wf() && batch@ == read->0@,
        accepted matches Err(error) ==> error@ == (ErrorView::FileReadError { path: path@ }),
{
    match read {
        Some(batch) => {
            if batch.conforms(schema) {
                Ok(batch)
            } else {
                Err(ManagerError::FileReadError { path: String::from_str(path) })
            }
        },
        None => Err(ManagerError::FileReadError { path: String::from_str(path) }),
    }
}

/// What a read of the table at the snapshot gives.
pub open spec fn rows_at(store: StoreView, table: TableView, snapshot_id: i64) -> (
    Seq<Seq<ValueView>>,
    Option<ErrorView>,
) {
    read_files(store, table.schema, table.files_at(snapshot_id))
}

/// The mathematical value of a [`RowStream`].
pub struct StreamView {
    pub schema: Seq<FieldView>,
    pub files: Seq<DataFileView>,
    /// How many files have been read.
    pub position: nat,
    /// Whether a file failed to read: nothing comes after that.
    pub failed: bool,
}

impl StreamView {
    /// Nothing more will come out of the stream.
    pub open spec fn is_done(self) -> bool {
        self.failed || self.position >= self.files.len()
    }

    /// The files that have not been read yet.
    pub open spec fn remaining(self) -> Seq<DataFileView> {
        if self.is_done() {
            Seq::empty()
        } else {
            self.files.skip(self.position as int)
        }
    }
}

/// A lazy, single-pass, forward-only sequence of row batches: one batch for
/// each file of a snapshot, in the order in which the snapshot names them.
#[derive(Debug, PartialEq, Eq)]
pub struct RowStream {
    schema: Schema,
    files: Vec<DataFile>,
    position: usize,
    failed: bool,
}

impl View for RowStream {
    type V = StreamView;

    closed spec fn view(&self) -> StreamView {
        StreamView {
            schema: self.schema@,
            files: views(self.files@),
            position: self.position as nat,
            failed: self.failed,
        }
    }
}

impl RowStream {
    /// The stream has not read more files than there are.
    pub closed spec fn wf(&self) -> bool {
        self.position <= self.files@.len()
    }

    /// A stream over the files, none of which has been read yet.
    pub fn open(schema: Schema, files: Vec<DataFile>) -> (stream: Self)
        ensures
            stream.wf(),
            stream@ == (StreamView {
                schema: schema@,
                files: views(files@),
                position: 0,
                failed: false,
            }),
    {
        RowStream { schema, files, position: 0, failed: false }
    }

    /// Whether nothing more will come out of the stream.
    pub fn is_done(&self) -> (done: bool)
        ensures
            done == self@.is_done(),
    {
        self.failed || self.position >= self.files.len()
    }

    /// Reads the next file. A file that is missing, or whose rows do not fit
    /// the table's schema, gives a read error and ends the stream: the files
    /// after it are not read. Batches that were handed out before stay with
    /// the caller.
    pub fn next_batch(&mut self, store: &FileStore) -> (next: Option<Result<RowBatch, ManagerError>>)
        requires
            old(self).wf(),
            store.wf(),
        ensures
            final(self).wf(),
            old(self)@.is_done() ==> next is None && final(self)@ == old(self)@,
            !old(self)@.is_done() ==> match read_file(
                store@,
                old(self)@.schema,
                old(self)@.files[old(self)@.position as int],
            ) {
                Ok(rows) => {
                    &&& next matches Some(Ok(batch))
                    &&& batch.wf()
                    &&& batch@ == rows
                    &&& final(self)@ == (StreamView {
                        position: old(self)@.position + 1,
                        ..old(self)@
                    })
                },
                Err(failure) => {
                    &&& next matches Some(Err(error))
                    &&& error@ == failure
                    &&& final(self)@ == (StreamView { failed: true, ..old(self)@ })
                },
            },
    {
        if self.failed || self.position >= self.files.len() {
            return None;
        }
        let read = match store.read(self.files[self.position].path.as_str()) {
            Ok(batch) => Some(batch),
            Err(_) => None,
        };
        match accept_file(&self.schema, self.files[self.position].path.as_str(), read) {
            Ok(batch) => {
                self.position = self.position + 1;
                Some(Ok(batch))
            },
            Err(error) => {
                self.failed = true;
                Some(Err(error))
            },
        }
    }

    /// Reads the stream to its end and returns the rows of the batches that
    /// came out, in order, and the failure that ended the stream, if one did.
    pub fn read_rows(&mut self, store: &FileStore) -> (read: (Vec<Row>, Option<ManagerError>))
        requires
            old(self).wf(),
            store.wf(),
        ensures
            final(self).wf(),
            final(self)@.is_done(),
            final(self)@.schema == old(self)@.schema,
            final(self)@.files == old(self)@.files,
            views(read.0@) == read_files(store@, old(self)@.schema, old(self)@.remaining()).0,
            match read_files(store@, old(self)@.schema, old(self)@.remaining()).1 {
                Some(failure) => read.1 matches Some(error) && error@ == failure,
                None => read.1 is None,
            },
    {
        let ghost schema = self@.schema;
        let ghost whole = read_files(store@, schema, self@.remaining());
        let mut rows: Vec<Row> = Vec::new();
        let mut failure: Option<ManagerError> = None;
        loop
            invariant
                self.wf(),
                store.wf(),
                self@.schema == schema,
                self@.files == old(self)@.files,
                failure is Some ==> self@.is_done(),
                whole == prepend_rows(
                    views(rows@),
                    if failure is Some {
                        (Seq::empty(), Some(failure->0@))
                    } else {
                        read_files(store@, schema, self@.remaining())
                    },
                ),
            ensures
                self.wf(),
                self@.is_done(),
                self@.schema == schema,
                self@.files == old(self)@.files,
                whole == prepend_rows(
                    views(rows@),
                    (
                        Seq::empty(),
                        match failure {
                            Some(error) => Some(error@),
                            None => None,
                        },
                    ),
                ),
            decreases
                    if self@.is_done() {
                        0
                    } else {
                        self@.files.len() - self@.position + 1
                    },
        {
            let ghost before = self@;
            match self.next_batch(store) {
                None => {
                    break ;
                },
                Some(Err(error)) => {
                    failure = Some(error);
                },
                Some(Ok(batch)) => {
                    let mut batch_rows = batch.to_rows();
                    rows.append(&mut batch_rows);
                    proof {
                        let rest = before.remaining();
                        assert(rest.drop_first() =~= self@.remaining());
                    }
                },
            }
        }
        (rows, failure)
    }
}

} // verus!
