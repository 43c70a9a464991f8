//! An executable model of the storage that holds the data files.
//!
//! The store holds one file at a location: what was written there last. It
//! is for the writers never to write where a file is.

use vstd::prelude::*;
use vstd::string::*;
use crate::error::{ErrorView, ManagerError};
use crate::model::{assoc, lemma_assoc_lookup, lemma_assoc_push, lemma_assoc_update};
use crate::row::{capped, cell_count, RowBatch, ValueView};
use crate::table::{DataFile, DataFileView};

verus! {

/// One stored data file: its location and the row batch it holds.
#[derive(Debug, PartialEq, Eq)]
struct StoredFile {
    path: String,
    batch: RowBatch,
}

/// The data files, by location. Its view maps each location to the rows of
/// the file that is stored there.
#[derive(Debug, PartialEq, Eq)]
pub struct FileStore {
    files: Vec<StoredFile>,
}

/// The mathematical value of a [`FileStore`].
pub type StoreView = Map<Seq<char>, Seq<Seq<ValueView>>>;

impl View for FileStore {
    type V = StoreView;

    closed spec fn view(&self) -> StoreView {
        assoc(self.paths(), self.contents())
    }
}

impl FileStore {
    /// The locations of the stored files, in the order in which they were
    /// written.
    closed spec fn paths(&self) -> Seq<Seq<char>> {
        Seq::new(self.files@.len(), |i: int| self.files@[i].path@)
    }

    /// The rows of the stored files, in the order in which they were written.
    closed spec fn contents(&self) -> Seq<Seq<Seq<ValueView>>> {
        Seq::new(self.files@.len(), |i: int| self.files@[i].batch@)
    }

    /// No location is used twice, and every stored batch is well-formed.
    pub closed spec fn wf(&self) -> bool {
        &&& self.paths().no_duplicates()
        &&& forall|i: int| 0 <= i < self.files@.len() ==> (#[trigger] self.files@[i]).batch.wf()
    }

    /// A store without files.
    pub fn new() -> (store: Self)
        ensures
            store.wf(),
            store@ == Map::<Seq<char>, Seq<Seq<ValueView>>>::empty(),
    {
        let store = FileStore { files: Vec::new() };
        store
    }

    /// Where the file with this location is kept, if there is one.
    fn find(&self, path: &str) -> (found: Option<usize>)
        requires
            self.wf(),
        ensures
            found is Some <==> self@.contains_key(path@),
            found matches Some(i) ==> i < self.files@.len() && self.files@[i as int].path@
                == path@ && self@[path@] == self.files@[i as int].batch@,
    {
        let wanted = String::from_str(path);
        let mut i: usize = 0;
        while i < self.files.len()
            invariant
                self.wf(),
                wanted@ == path@,
                i <= self.files.len(),
                forall|k: int| 0 <= k < i ==> (#[trigger] self.paths()[k]) != path@,
            decreases self.files.len() - i,
        {
            if self.files[i].path == wanted {
                proof {
                    lemma_assoc_lookup(self.paths(), self.contents(), i as int);
                }
                return Some(i);
            }
            i += 1;
        }
        None
    }

    /// Whether a file is stored at this location.
    pub fn contains(&self, path: &str) -> (stored: bool)
        requires
            self.wf(),
        ensures
            stored == self@.contains_key(path@),
    {
        self.find(path).is_some()
    }

    /// Writes the batch to the file at `path` and returns the finished file's
    /// descriptor: its location, its size, counted in values, and the number
    /// of its rows. The store keeps what was written last at a location: a
    /// writer that must not replace a file tests with [`FileStore::contains`]
    /// before it writes.
    pub fn write(&mut self, path: String, batch: RowBatch) -> (file: DataFile)
        requires
            old(self).wf(),
            batch.wf(),
        ensures
            final(self).wf(),
            final(self)@ == old(self)@.insert(path@, batch@),
            file@ == (DataFileView {
                path: path@,
                file_size: capped(cell_count(batch@)),
                record_count: batch@.len() as u64,
            }),
    {
        let file = DataFile {
            path: path.clone(),
            file_size: batch.size(),
            record_count: batch.num_rows() as u64,
        };
        let ghost before = *self;
        match self.find(path.as_str()) {
            Some(i) => {
                proof {
                    lemma_assoc_update(before.paths(), before.contents(), i as int, batch@);
                }
                self.files.set(i, StoredFile { path, batch });
                proof {
                    assert(self.paths() =~= before.paths());
                    assert(self.contents() =~= before.contents().update(i as int, batch@));
                }
            },
            None => {
                self.files.push(StoredFile { path, batch });
                proof {
                    lemma_assoc_push(before.paths(), before.contents(), path@, batch@);
                    assert(self.paths() =~= before.paths().push(path@));
                    assert(self.contents() =~= before.contents().push(batch@));
                }
            },
        }
        file
    }

    /// Reads back the batch that is stored at `path`.
    pub fn read(&self, path: &str) -> (read: Result<RowBatch, ManagerError>)
        requires
            self.wf(),
        ensures
            read is Ok <==> self@.contains_key(path@),
            read matches Ok(batch) ==> batch.wf() && batch@ == self@[path@],
            read matches Err(error) ==> error@ == (ErrorView::FileReadError { path: path@ }),
    {
        match self.find(path) {
            Some(i) => Ok(self.files[i].batch.clone()),
            None => Err(ManagerError::FileReadError { path: String::from_str(path) }),
        }
    }
}

} // verus!
