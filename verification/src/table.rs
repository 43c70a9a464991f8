//! Tables and their snapshot history.
//!
//! A table owns a schema, a location and an ordered history of snapshots,
//! oldest first. A snapshot is never changed once it stands in the history:
//! the only way to add visible data is to add a snapshot.

use vstd::prelude::*;
use crate::error::{ErrorView, ManagerError};
use crate::model::views;
use crate::schema::{fields_valid, FieldView, Schema};

verus! {

/// A reference to an immutable data file.
#[derive(Debug, PartialEq, Eq)]
pub struct DataFile {
    pub path: String,
    /// The size of the file, in the unit in which its writer counts.
    pub file_size: u64,
    pub record_count: u64,
}

/// The mathematical value of a [`DataFile`].
pub struct DataFileView {
    pub path: Seq<char>,
    pub file_size: u64,
    pub record_count: u64,
}

impl View for DataFile {
    type V = DataFileView;

    open spec fn view(&self) -> DataFileView {
        DataFileView {
            path: self.path@,
            file_size: self.file_size,
            record_count: self.record_count,
        }
    }
}

impl Clone for DataFile {
    fn clone(&self) -> (copy: Self)
        ensures
            copy@ == self@,
    {
        DataFile {
            path: self.path.clone(),
            file_size: self.file_size,
            record_count: self.record_count,
        }
    }
}

/// One point in a table's history: the files that are visible as of it.
#[derive(Debug, PartialEq, Eq)]
pub struct Snapshot {
    pub snapshot_id: i64,
    /// The snapshot that was current when this one was committed.
    pub parent_id: Option<i64>,
    pub files: Vec<DataFile>,
}

/// The mathematical value of a [`Snapshot`].
pub struct SnapshotView {
    pub snapshot_id: i64,
    pub parent_id: Option<i64>,
    pub files: Seq<DataFileView>,
}

impl View for Snapshot {
    type V = SnapshotView;

    open spec fn view(&self) -> SnapshotView {
        SnapshotView {
            snapshot_id: self.snapshot_id,
            parent_id: self.parent_id,
            files: views(self.files@),
        }
    }
}

impl Clone for Snapshot {
    fn clone(&self) -> (copy: Self)
        ensures
            copy@ == self@,
    {
        let files = self.files.clone();
        assert(views(files@) =~= views(self.files@));
        Snapshot { snapshot_id: self.snapshot_id, parent_id: self.parent_id, files }
    }
}

/// The largest of the ids, or -1 where there is none.
pub open spec fn largest(ids: Seq<i64>) -> int
    decreases ids.len(),
{
    if ids.len() == 0 {
        -1
    } else {
        let rest = largest(ids.drop_last());
        if ids.last() > rest {
            ids.last() as int
        } else {
            rest
        }
    }
}

/// No id is larger than the largest.
pub proof fn lemma_largest_bounds(ids: Seq<i64>)
    ensures
        -1 <= largest(ids) <= i64::MAX,
        forall|i: int| 0 <= i < ids.len() ==> ids[i] <= largest(ids),
    decreases ids.len(),
{
    if ids.len() > 0 {
        lemma_largest_bounds(ids.drop_last());
        assert forall|i: int| 0 <= i < ids.len() implies ids[i] <= largest(ids) by {
            if i < ids.len() - 1 {
                assert(ids.drop_last()[i] == ids[i]);
            }
        }
    }
}

/// The mathematical value of a [`TableMetadata`].
pub struct TableView {
    pub namespace: Seq<char>,
    pub name: Seq<char>,
    pub location: Seq<char>,
    pub schema: Seq<FieldView>,
    /// The history, oldest snapshot first.
    pub snapshots: Seq<SnapshotView>,
}

impl TableView {
    /// The ids of the snapshots, in commit order.
    pub open spec fn snapshot_ids(self) -> Seq<i64> {
        Seq::new(self.snapshots.len(), |i: int| self.snapshots[i].snapshot_id)
    }

    /// The history holds a snapshot with this id.
    pub open spec fn has_snapshot(self, snapshot_id: i64) -> bool {
        exists|i: int|
            0 <= i < self.snapshots.len() && (#[trigger] self.snapshots[i]).snapshot_id
                == snapshot_id
    }

    /// Where in the history the snapshot with this id stands.
    pub open spec fn position_of(self, snapshot_id: i64) -> int {
        choose|i: int|
            0 <= i < self.snapshots.len() && (#[trigger] self.snapshots[i]).snapshot_id
                == snapshot_id
    }

    /// The files that are visible as of the snapshot with this id.
    pub open spec fn files_at(self, snapshot_id: i64) -> Seq<DataFileView> {
        self.snapshots[self.position_of(snapshot_id)].files
    }

    /// The id of the newest snapshot.
    pub open spec fn current_snapshot_id(self) -> Option<i64> {
        if self.snapshots.len() == 0 {
            None
        } else {
            Some(self.snapshots.last().snapshot_id)
        }
    }

    /// The files that are visible as of the newest snapshot.
    pub open spec fn current_files(self) -> Seq<DataFileView> {
        if self.snapshots.len() == 0 {
            Seq::empty()
        } else {
            self.snapshots.last().files
        }
    }

    /// The id that the next snapshot gets: one more than the largest id in
    /// the history, and 0 for the first snapshot.
    pub open spec fn next_snapshot_id(self) -> int {
        largest(self.snapshot_ids()) + 1
    }

    /// The schema is valid, no snapshot id occurs twice, and each snapshot
    /// names the one before it as its parent.
    pub open spec fn wf(self) -> bool {
        &&& fields_valid(self.schema)
        &&& forall|i: int, j: int|
            0 <= i < j < self.snapshots.len() ==> (#[trigger] self.snapshots[i]).snapshot_id != (
            #[trigger] self.snapshots[j]).snapshot_id
        &&& self.snapshots.len() > 0 ==> self.snapshots[0].parent_id == None::<i64>
        &&& forall|i: int, j: int|
            0 <= i && j == i + 1 && j < self.snapshots.len() ==> (
            #[trigger] self.snapshots[j]).parent_id == Some(
                (#[trigger] self.snapshots[i]).snapshot_id,
            )
    }

    /// The table after a snapshot with this id and these visible files has
    /// been added to its history.
    pub open spec fn record(self, snapshot_id: i64, files: Seq<DataFileView>) -> TableView {
        TableView {
            snapshots: self.snapshots.push(
                SnapshotView { snapshot_id, parent_id: self.current_snapshot_id(), files },
            ),
            ..self
        }
    }

    /// The table after a snapshot with this id has been added that shows
    /// `new_files` besides what was visible before.
    pub open spec fn append(self, snapshot_id: i64, new_files: Seq<DataFileView>) -> TableView {
        self.record(snapshot_id, self.current_files() + new_files)
    }

    /// Why a snapshot with this id cannot be appended by a writer that
    /// started from `base`, if it cannot: the writer did not start from the
    /// table's current snapshot, or the id is in the history already.
    pub open spec fn commit_refusal(self, base: Option<i64>, snapshot_id: i64) -> Option<
        ErrorView,
    > {
        if self.current_snapshot_id() != base {
            Some(
                ErrorView::ConflictingCommit {
                    table: self.name,
                    expected: base,
                    found: self.current_snapshot_id(),
                },
            )
        } else if self.has_snapshot(snapshot_id) {
            Some(ErrorView::SnapshotExists { table: self.name, snapshot_id })
        } else {
            None
        }
    }

    /// In a well-formed table a snapshot is found where it stands.
    pub proof fn lemma_position(self, i: int)
        requires
            self.wf(),
            0 <= i < self.snapshots.len(),
        ensures
            self.has_snapshot(self.snapshots[i].snapshot_id),
            self.position_of(self.snapshots[i].snapshot_id) == i,
            self.files_at(self.snapshots[i].snapshot_id) == self.snapshots[i].files,
    {
    }

    /// The id that the next snapshot gets is not in the history.
    pub proof fn lemma_next_id_is_new(self)
        ensures
            0 <= self.next_snapshot_id(),
            self.next_snapshot_id() <= i64::MAX ==> !self.has_snapshot(
                self.next_snapshot_id() as i64,
            ),
    {
        lemma_largest_bounds(self.snapshot_ids());
        if self.next_snapshot_id() <= i64::MAX {
            let next = self.next_snapshot_id() as i64;
            if self.has_snapshot(next) {
                let i = self.position_of(next);
                assert(self.snapshot_ids()[i] == next);
            }
        }
    }

    /// Adding a snapshot under a new id leaves every older snapshot as it
    /// was: it is still found, at the same place, with the same files.
    pub proof fn lemma_record_keeps_history(self, snapshot_id: i64, files: Seq<DataFileView>)
        requires
            self.wf(),
            !self.has_snapshot(snapshot_id),
        ensures
            self.record(snapshot_id, files).wf(),
            self.record(snapshot_id, files).snapshot_ids() == self.snapshot_ids().push(
                snapshot_id,
            ),
            self.record(snapshot_id, files).has_snapshot(snapshot_id),
            self.record(snapshot_id, files).files_at(snapshot_id) == files,
            self.record(snapshot_id, files).current_snapshot_id() == Some(snapshot_id),
            self.record(snapshot_id, files).current_files() == files,
            forall|older: i64| #[trigger]
                self.has_snapshot(older) ==> self.record(snapshot_id, files).has_snapshot(older)
                    && self.record(snapshot_id, files).files_at(older) == self.files_at(older)
                    && self.record(snapshot_id, files).position_of(older) == self.position_of(
                    older,
                ),
            forall|other: i64|
                other != snapshot_id && #[trigger] self.record(snapshot_id, files).has_snapshot(
                    other,
                ) ==> self.has_snapshot(other),
    {
        let after = self.record(snapshot_id, files);
        assert forall|older: i64| #[trigger] self.has_snapshot(older) implies after.has_snapshot(
            older,
        ) && after.files_at(older) == self.files_at(older) && after.position_of(older)
            == self.position_of(older) by {
            let i = self.position_of(older);
            after.lemma_position(i);
        }
    }
}

/// A table as the catalog describes it: its identity, schema, location and
/// snapshot history.
#[derive(Debug, PartialEq, Eq)]
pub struct TableMetadata {
    namespace: String,
    name: String,
    location: String,
    schema: Schema,
    snapshots: Vec<Snapshot>,
}

impl View for TableMetadata {
    type V = TableView;

    closed spec fn view(&self) -> TableView {
        TableView {
            namespace: self.namespace@,
            name: self.name@,
            location: self.location@,
            schema: self.schema@,
            snapshots: views(self.snapshots@),
        }
    }
}

impl Clone for TableMetadata {
    fn clone(&self) -> (copy: Self)
        ensures
            copy@ == self@,
    {
        let snapshots = self.snapshots.clone();
        assert(views(snapshots@) =~= views(self.snapshots@));
        TableMetadata {
            namespace: self.namespace.clone(),
            name: self.name.clone(),
            location: self.location.clone(),
            schema: self.schema.clone(),
            snapshots,
        }
    }
}

impl TableMetadata {
    /// The table is well-formed: see [`TableView::wf`].
    pub open spec fn wf(&self) -> bool {
        self@.wf()
    }

    /// A table without snapshots.
    pub fn new(namespace: String, name: String, location: String, schema: Schema) -> (table: Self)
        requires
            schema.wf(),
        ensures
            table.wf(),
            table@ == (TableView {
                namespace: namespace@,
                name: name@,
                location: location@,
                schema: schema@,
                snapshots: Seq::empty(),
            }),
    {
        let table = TableMetadata { namespace, name, location, schema, snapshots: Vec::new() };
        assert(views(table.snapshots@) =~= Seq::empty());
        table
    }

    /// The namespace that the table is registered in.
    pub fn namespace(&self) -> (namespace: &String)
        ensures
            namespace@ == self@.namespace,
    {
        &self.namespace
    }

    /// The name of the table within its namespace.
    pub fn name(&self) -> (name: &String)
        ensures
            name@ == self@.name,
    {
        &self.name
    }

    /// The root of the table's storage.
    pub fn location(&self) -> (location: &String)
        ensures
            location@ == self@.location,
    {
        &self.location
    }

    /// The table's schema.
    pub fn schema(&self) -> (schema: &Schema)
        ensures
            schema@ == self@.schema,
    {
        &self.schema
    }

    /// The history, oldest snapshot first.
    pub fn snapshots(&self) -> (snapshots: &Vec<Snapshot>)
        ensures
            views(snapshots@) == self@.snapshots,
    {
        &self.snapshots
    }

    /// The ids of the snapshots in commit order, oldest first.
    pub fn snapshot_ids(&self) -> (ids: Vec<i64>)
        ensures
            ids@ == self@.snapshot_ids(),
    {
        let mut ids: Vec<i64> = Vec::new();
        let mut i: usize = 0;
        while i < self.snapshots.len()
            invariant
                i <= self.snapshots.len(),
                ids@.len() == i,
                forall|k: int| 0 <= k < i ==> ids@[k] == self@.snapshots[k].snapshot_id,
            decreases self.snapshots.len() - i,
        {
            ids.push(self.snapshots[i].snapshot_id);
            i += 1;
        }
        ids
    }

    /// The id of the newest snapshot, if the table has one.
    pub fn current_snapshot_id(&self) -> (current: Option<i64>)
        ensures
            current == self@.current_snapshot_id(),
    {
        let n = self.snapshots.len();
        if n == 0 {
            None
        } else {
            Some(self.snapshots[n - 1].snapshot_id)
        }
    }

    /// The id that the next snapshot gets, or `None` where the largest id in
    /// the history is the largest there is.
    pub fn next_snapshot_id(&self) -> (next: Option<i64>)
        ensures
            next matches Some(id) ==> id == self@.next_snapshot_id(),
            next is None <==> self@.next_snapshot_id() > i64::MAX,
    {
        let ghost ids = self@.snapshot_ids();
        let mut largest_id: i64 = -1;
        let mut i: usize = 0;
        while i < self.snapshots.len()
            invariant
                i <= self.snapshots.len(),
                ids == self@.snapshot_ids(),
                largest_id == largest(ids.take(i as int)),
            decreases self.snapshots.len() - i,
        {
            assert(ids.take(i + 1).drop_last() =~= ids.take(i as int));
            if self.snapshots[i].snapshot_id > largest_id {
                largest_id = self.snapshots[i].snapshot_id;
            }
            i += 1;
        }
        assert(ids.take(i as int) =~= ids);
        if largest_id == i64::MAX {
            None
        } else {
            Some(largest_id + 1)
        }
    }

    /// Where in the history the snapshot with this id stands.
    pub fn position_of(&self, snapshot_id: i64) -> (position: Option<usize>)
        requires
            self.wf(),
        ensures
            position is Some <==> self@.has_snapshot(snapshot_id),
            position matches Some(i) ==> i == self@.position_of(snapshot_id) && i
                < self@.snapshots.len(),
    {
        let mut i: usize = 0;
        while i < self.snapshots.len()
            invariant
                self.wf(),
                i <= self.snapshots.len(),
                forall|k: int| 0 <= k < i ==> (#[trigger] self@.snapshots[k]).snapshot_id
                    != snapshot_id,
            decreases self.snapshots.len() - i,
        {
            if self.snapshots[i].snapshot_id == snapshot_id {
                proof {
                    self@.lemma_position(i as int);
                }
                return Some(i);
            }
            i += 1;
        }
        None
    }

    /// The sequence number of the snapshot with this id: its place in the
    /// history, counted from 1.
    pub fn sequence_number(&self, snapshot_id: i64) -> (number: Option<u64>)
        requires
            self.wf(),
        ensures
            number is Some <==> self@.has_snapshot(snapshot_id),
            number matches Some(n) ==> n == self@.position_of(snapshot_id) + 1,
    {
        match self.position_of(snapshot_id) {
            Some(i) => {
                assert(i < self.snapshots.len());
                Some(i as u64 + 1)
            },
            None => None,
        }
    }

    /// The files that are visible as of the snapshot with this id. The id is
    /// matched exactly: there is no falling back to the newest snapshot.
    pub fn files_at(&self, snapshot_id: i64) -> (files: Result<Vec<DataFile>, ManagerError>)
        requires
            self.wf(),
        ensures
            files is Ok <==> self@.has_snapshot(snapshot_id),
            files matches Ok(found) ==> views(found@) == self@.files_at(snapshot_id),
            files matches Err(error) ==> error@ == (ErrorView::SnapshotNotFound {
                table: self@.name,
                snapshot_id,
            }),
    {
        match self.position_of(snapshot_id) {
            Some(i) => {
                let found = self.snapshots[i].files.clone();
                Ok(found)
            },
            None => Err(
                ManagerError::SnapshotNotFound { table: self.name.clone(), snapshot_id },
            ),
        }
    }

    /// Tests whether a writer that started from `base` may append a snapshot
    /// with this id. The writer must have started from the table's current
    /// snapshot: history is a total order, and a writer that lost a race is
    /// told so.
    pub fn check_commit(&self, base: Option<i64>, snapshot_id: i64) -> (checked: Result<
        (),
        ManagerError,
    >)
        requires
            self.wf(),
        ensures
            checked is Ok <==> self@.commit_refusal(base, snapshot_id) is None,
            checked matches Err(error) ==> Some(error@) == self@.commit_refusal(
                base,
                snapshot_id,
            ),
    {
        let found = self.current_snapshot_id();
        let same = match (found, base) {
            (None, None) => true,
            (Some(a), Some(b)) => a == b,
            _ => false,
        };
        if !same {
            return Err(
                ManagerError::ConflictingCommit {
                    table: self.name.clone(),
                    expected: base,
                    found,
                },
            );
        }
        if self.position_of(snapshot_id).is_some() {
            return Err(ManagerError::SnapshotExists { table: self.name.clone(), snapshot_id });
        }
        Ok(())
    }

    /// Adds a snapshot with this id and these visible files to the history,
    /// with the newest snapshot as its parent. Fails, and changes nothing,
    /// where the id is in the history already.
    pub fn record_snapshot(&mut self, snapshot_id: i64, files: Vec<DataFile>) -> (recorded: Result<
        (),
        ManagerError,
    >)
        requires
            old(self).wf(),
        ensures
            final(self).wf(),
            recorded is Ok <==> !old(self)@.has_snapshot(snapshot_id),
            recorded is Ok ==> final(self)@ == old(self)@.record(snapshot_id, views(files@)),
            recorded matches Err(error) ==> final(self)@ == old(self)@ && error@
                == (ErrorView::SnapshotExists { table: old(self)@.name, snapshot_id }),
    {
        if self.position_of(snapshot_id).is_some() {
            return Err(ManagerError::SnapshotExists { table: self.name.clone(), snapshot_id });
        }
        let parent_id = self.current_snapshot_id();
        proof {
            crate::model::lemma_views_push(
                self.snapshots@,
                Snapshot { snapshot_id, parent_id, files },
            );
        }
        self.snapshots.push(Snapshot { snapshot_id, parent_id, files });
        Ok(())
    }

    /// Adds a snapshot with this id that shows `new_files` besides the files
    /// that were visible before. Fails, and changes nothing, where the id is
    /// in the history already.
    pub fn append_snapshot(&mut self, snapshot_id: i64, new_files: Vec<DataFile>) -> (appended:
        Result<(), ManagerError>)
        requires
            old(self).wf(),
        ensures
            final(self).wf(),
            appended is Ok <==> !old(self)@.has_snapshot(snapshot_id),
            appended is Ok ==> final(self)@ == old(self)@.append(snapshot_id, views(new_files@)),
            appended matches Err(error) ==> final(self)@ == old(self)@ && error@
                == (ErrorView::SnapshotExists { table: old(self)@.name, snapshot_id }),
    {
        let n = self.snapshots.len();
        let mut files: Vec<DataFile> = if n == 0 {
            Vec::new()
        } else {
            self.snapshots[n - 1].files.clone()
        };
        let mut new_files = new_files;
        let ghost added = views(new_files@);
        files.append(&mut new_files);
        assert(views(files@) =~= self@.current_files() + added);
        self.record_snapshot(snapshot_id, files)
    }
}

} // verus!
