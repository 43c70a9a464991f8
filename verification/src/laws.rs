//! What holds of the manager, the catalog and the store together.

use vstd::prelude::*;
use crate::catalog::CatalogView;
use crate::error::ErrorView;
use crate::manager::{
    begun_commit,
    begun_store,
    can_begin,
    commit_pending,
    write_path,
    written_catalog,
    ManagerView,
};
use crate::stream::{prepend_rows, read_file, read_files, rows_at};
use crate::location::{lemma_data_file_paths_differ, FileFormat};
use crate::row::{rows_fit, ValueView};
use crate::schema::FieldView;
use crate::store::StoreView;
use crate::table::{DataFileView, TableView};

verus! {

/// The catalog and the store at one moment.
pub struct World {
    pub catalog: CatalogView,
    pub store: StoreView,
}

/// One call of `write_data`: who writes, to which table, and what.
pub struct WriteRequest {
    pub manager: ManagerView,
    pub table: Seq<char>,
    pub rows: Seq<Seq<ValueView>>,
    /// The token that the writer drew to name the data file.
    pub file_token: u64,
}

/// The world after the write: changed where the write can begin, and as it
/// was where it is refused.
pub open spec fn write(world: World, request: WriteRequest) -> World {
    if can_begin(world.catalog, world.store, request.manager, request.table, request.rows, request.file_token) {
        World {
            catalog: written_catalog(world.catalog, request.manager, request.table, request.rows, request.file_token),
            store: begun_store(
                world.catalog,
                world.store,
                request.manager,
                request.table,
                request.rows,
                request.file_token,
            ),
        }
    } else {
        world
    }
}

/// The world after the writes, one after the other.
pub open spec fn write_all(world: World, requests: Seq<WriteRequest>) -> World
    decreases requests.len(),
{
    if requests.len() == 0 {
        world
    } else {
        write(write_all(world, requests.drop_last()), requests.last())
    }
}

/// Every file that `store` holds, `later` holds with the same rows.
pub open spec fn keeps_files(store: StoreView, later: StoreView) -> bool {
    forall|path: Seq<char>| #[trigger]
        store.contains_key(path) ==> later.contains_key(path) && later[path] == store[path]
}

/// Reading two runs of files in a row gives the rows of the first run and,
/// where the first run did not fail, the rows of the second run behind them.
pub proof fn lemma_read_files_in_a_row(
    store: StoreView,
    schema: Seq<FieldView>,
    first: Seq<DataFileView>,
    second: Seq<DataFileView>,
)
    ensures
        read_files(store, schema, first + second) == (if read_files(store, schema, first).1
            is None {
            prepend_rows(read_files(store, schema, first).0, read_files(store, schema, second))
        } else {
            read_files(store, schema, first)
        }),
    decreases first.len(),
{
    if first.len() > 0 {
        assert((first + second).drop_first() =~= first.drop_first() + second);
        lemma_read_files_in_a_row(store, schema, first.drop_first(), second);
        if read_file(store, schema, first.first()) is Ok {
            let rows = read_file(store, schema, first.first())->Ok_0;
            let rest = read_files(store, schema, first.drop_first());
            let tail = read_files(store, schema, second);
            assert(rows + (rest.0 + tail.0) =~= (rows + rest.0) + tail.0);
        }
    }
}

/// The file at `path` cannot be read from the store: it is missing, or its
/// rows do not fit the schema.
pub open spec fn unreadable(store: StoreView, schema: Seq<FieldView>, path: Seq<char>) -> bool {
    !(store.contains_key(path) && rows_fit(store[path], schema))
}

/// A read gives the same rows, and ends in the same way, from any later
/// store that keeps the files, unless it failed on a file that the later
/// store can read.
pub proof fn lemma_read_files_from_later_store(
    store: StoreView,
    later: StoreView,
    schema: Seq<FieldView>,
    files: Seq<DataFileView>,
)
    requires
        keeps_files(store, later),
        read_files(store, schema, files).1 matches Some(ErrorView::FileReadError { path })
            ==> unreadable(later, schema, path),
    ensures
        read_files(later, schema, files) == read_files(store, schema, files),
    decreases files.len(),
{
    if files.len() > 0 {
        if read_file(store, schema, files.first()) is Ok {
            lemma_read_files_from_later_store(store, later, schema, files.drop_first());
        }
    }
}

/// A write changes the catalog in one place: the table that it writes to
/// gets one more snapshot, under a new id, which shows the new file behind
/// the files that were visible before.
pub proof fn lemma_write_appends(world: World, request: WriteRequest)
    requires
        world.catalog.wf(),
        can_begin(world.catalog, world.store, request.manager, request.table, request.rows, request.file_token),
    ensures
        write(world, request).catalog.wf(),
        keeps_files(world.store, write(world, request).store),
        write(world, request).catalog.namespaces == world.catalog.namespaces,
        write(world, request).catalog.tables.dom() == world.catalog.tables.dom(),
        forall|namespace: Seq<char>, name: Seq<char>|
            (namespace, name) != (request.manager.namespace, request.table)
                ==> #[trigger] write(world, request).catalog.table(namespace, name)
                == world.catalog.table(namespace, name),
        write(world, request).catalog.table(request.manager.namespace, request.table)
            == world.catalog.table(request.manager.namespace, request.table).append(
            begun_commit(
                world.catalog,
                request.manager,
                request.table,
                request.rows,
                request.file_token,
            ).snapshot_id,
            seq![
                begun_commit(world.catalog, request.manager, request.table, request.rows, request.file_token).file,
            ],
        ),
        !world.catalog.table(request.manager.namespace, request.table).has_snapshot(
            begun_commit(
                world.catalog,
                request.manager,
                request.table,
                request.rows,
                request.file_token,
            ).snapshot_id,
        ),
{
    let namespace = request.manager.namespace;
    let table = world.catalog.table(namespace, request.table);
    table.lemma_next_id_is_new();
}

/// **Round trip.** Rows that are written to a table which showed no rows
/// before are exactly what a read of the resulting snapshot gives, and the
/// read does not fail.
pub proof fn law_round_trip(world: World, request: WriteRequest)
    requires
        world.catalog.wf(),
        can_begin(world.catalog, world.store, request.manager, request.table, request.rows, request.file_token),
        read_files(
            world.store,
            world.catalog.table(request.manager.namespace, request.table).schema,
            world.catalog.table(request.manager.namespace, request.table).current_files(),
        ) == (Seq::<Seq<ValueView>>::empty(), None::<ErrorView>),
    ensures
        rows_at(
            write(world, request).store,
            write(world, request).catalog.table(request.manager.namespace, request.table),
            begun_commit(
                world.catalog,
                request.manager,
                request.table,
                request.rows,
                request.file_token,
            ).snapshot_id,
        ) == (request.rows, None::<ErrorView>),
{
    law_write_then_read(world, request);
}

/// **Write, then read.** Where a read of the table's current snapshot finds
/// every file, a read of the snapshot that a write commits gives the rows
/// that were visible before, followed by the rows that were written.
pub proof fn law_write_then_read(world: World, request: WriteRequest)
    requires
        world.catalog.wf(),
        can_begin(world.catalog, world.store, request.manager, request.table, request.rows, request.file_token),
        read_files(
            world.store,
            world.catalog.table(request.manager.namespace, request.table).schema,
            world.catalog.table(request.manager.namespace, request.table).current_files(),
        ).1 is None,
    ensures
        rows_at(
            write(world, request).store,
            write(world, request).catalog.table(request.manager.namespace, request.table),
            begun_commit(
                world.catalog,
                request.manager,
                request.table,
                request.rows,
                request.file_token,
            ).snapshot_id,
        ) == (
            read_files(
                world.store,
                world.catalog.table(request.manager.namespace, request.table).schema,
                world.catalog.table(request.manager.namespace, request.table).current_files(),
            ).0 + request.rows,
            None::<ErrorView>,
        ),
{
    let table = world.catalog.table(request.manager.namespace, request.table);
    let pending = begun_commit(world.catalog, request.manager, request.table, request.rows, request.file_token);
    let later = write(world, request).store;
    let new_file = seq![pending.file];
    lemma_write_appends(world, request);
    table.lemma_record_keeps_history(pending.snapshot_id, table.current_files() + new_file);
    lemma_read_files_in_a_row(later, table.schema, table.current_files(), new_file);
    lemma_read_files_from_later_store(world.store, later, table.schema, table.current_files());
    assert(read_files(later, table.schema, new_file.drop_first()) == (
        Seq::<Seq<ValueView>>::empty(),
        None::<ErrorView>,
    ));
}

/// **Snapshot immutability.** No write changes the files of a snapshot that
/// was committed before it: after any number of later writes, to any tables,
/// the snapshot is still in its table's history and shows the same files.
pub proof fn law_snapshots_are_immutable(
    world: World,
    requests: Seq<WriteRequest>,
    namespace: Seq<char>,
    name: Seq<char>,
    snapshot_id: i64,
)
    requires
        world.catalog.wf(),
        world.catalog.has_table(namespace, name),
        world.catalog.table(namespace, name).has_snapshot(snapshot_id),
    ensures
        write_all(world, requests).catalog.wf(),
        keeps_files(world.store, write_all(world, requests).store),
        write_all(world, requests).catalog.has_table(namespace, name),
        write_all(world, requests).catalog.table(namespace, name).has_snapshot(snapshot_id),
        write_all(world, requests).catalog.table(namespace, name).files_at(snapshot_id)
            == world.catalog.table(namespace, name).files_at(snapshot_id),
        write_all(world, requests).catalog.table(namespace, name).schema == world.catalog.table(
            namespace,
            name,
        ).schema,
    decreases requests.len(),
{
    if requests.len() > 0 {
        let before = write_all(world, requests.drop_last());
        let request = requests.last();
        law_snapshots_are_immutable(world, requests.drop_last(), namespace, name, snapshot_id);
        if can_begin(before.catalog, before.store, request.manager, request.table, request.rows, request.file_token) {
            lemma_write_appends(before, request);
            let table = before.catalog.table(request.manager.namespace, request.table);
            let pending = begun_commit(
                before.catalog,
                request.manager,
                request.table,
                request.rows,
                request.file_token,
            );
            table.lemma_record_keeps_history(
                pending.snapshot_id,
                table.current_files() + seq![pending.file],
            );
        }
    }
}

/// **Snapshot immutability, for every append.** An append to any table,
/// by whatever writer, leaves every snapshot that was committed before it in
/// its table's history, with the same files.
pub proof fn law_commit_keeps_snapshots(
    catalog: CatalogView,
    commit_namespace: Seq<char>,
    commit_table: Seq<char>,
    base: Option<i64>,
    new_id: i64,
    new_files: Seq<DataFileView>,
    namespace: Seq<char>,
    name: Seq<char>,
    snapshot_id: i64,
)
    requires
        catalog.wf(),
        catalog.has_table(namespace, name),
        catalog.table(namespace, name).has_snapshot(snapshot_id),
        catalog.commit(commit_namespace, commit_table, base, new_id, new_files) is Ok,
    ensures
        catalog.commit(commit_namespace, commit_table, base, new_id, new_files)->Ok_0.has_table(
            namespace,
            name,
        ),
        catalog.commit(commit_namespace, commit_table, base, new_id, new_files)->Ok_0.table(
            namespace,
            name,
        ).has_snapshot(snapshot_id),
        catalog.commit(commit_namespace, commit_table, base, new_id, new_files)->Ok_0.table(
            namespace,
            name,
        ).files_at(snapshot_id) == catalog.table(namespace, name).files_at(snapshot_id),
{
    let table = catalog.table(commit_namespace, commit_table);
    table.lemma_record_keeps_history(new_id, table.current_files() + new_files);
}

/// **Exact version pinning.** A read of a snapshot gives the same rows, and
/// ends in the same way, after any number of further writes: never the rows
/// of a later snapshot. The one exception is a read that failed on a file
/// where a later write has put a file that can be read.
pub proof fn law_reads_are_pinned(
    world: World,
    requests: Seq<WriteRequest>,
    namespace: Seq<char>,
    name: Seq<char>,
    snapshot_id: i64,
)
    requires
        world.catalog.wf(),
        world.catalog.has_table(namespace, name),
        world.catalog.table(namespace, name).has_snapshot(snapshot_id),
        rows_at(world.store, world.catalog.table(namespace, name), snapshot_id).1 matches Some(
            ErrorView::FileReadError { path },
        ) ==> unreadable(
            write_all(world, requests).store,
            world.catalog.table(namespace, name).schema,
            path,
        ),
    ensures
        rows_at(
            write_all(world, requests).store,
            write_all(world, requests).catalog.table(namespace, name),
            snapshot_id,
        ) == rows_at(world.store, world.catalog.table(namespace, name), snapshot_id),
{
    let table = world.catalog.table(namespace, name);
    law_snapshots_are_immutable(world, requests, namespace, name, snapshot_id);
    lemma_read_files_from_later_store(
        world.store,
        write_all(world, requests).store,
        table.schema,
        table.files_at(snapshot_id),
    );
}

/// **Idempotent introspection.** The list of a table's snapshot ids changes
/// only by a write to that table that succeeds, which adds the id of the new
/// snapshot at the end. A refused write, and a write to another table, leave
/// the list as it was: listing twice with no write between gives the same
/// ids in the same order.
pub proof fn law_listing_changes_only_by_writes(
    world: World,
    request: WriteRequest,
    namespace: Seq<char>,
    name: Seq<char>,
)
    requires
        world.catalog.wf(),
        world.catalog.has_table(namespace, name),
    ensures
        write(world, request).catalog.table(namespace, name).snapshot_ids() == (if can_begin(
            world.catalog,
            world.store,
            request.manager,
            request.table,
            request.rows,
            request.file_token,
        ) && (namespace, name) == (request.manager.namespace, request.table) {
            world.catalog.table(namespace, name).snapshot_ids().push(
                begun_commit(
                    world.catalog,
                    request.manager,
                    request.table,
                    request.rows,
                    request.file_token,
                ).snapshot_id,
            )
        } else {
            world.catalog.table(namespace, name).snapshot_ids()
        }),
{
    if can_begin(world.catalog, world.store, request.manager, request.table, request.rows, request.file_token) {
        let table = world.catalog.table(request.manager.namespace, request.table);
        let pending = begun_commit(world.catalog, request.manager, request.table, request.rows, request.file_token);
        lemma_write_appends(world, request);
        table.lemma_record_keeps_history(
            pending.snapshot_id,
            table.current_files() + seq![pending.file],
        );
    }
}

/// **Conflict surfacing.** Of two appends that start from the same current
/// snapshot of a table, and that the catalog would each accept alone, the
/// one that comes second is refused with a conflict that names the snapshot
/// of the first; the catalog then holds the first one's snapshot and nothing
/// of the second.
pub proof fn law_second_commit_conflicts(
    catalog: CatalogView,
    namespace: Seq<char>,
    name: Seq<char>,
    base: Option<i64>,
    first_id: i64,
    first_files: Seq<DataFileView>,
    second_id: i64,
    second_files: Seq<DataFileView>,
)
    requires
        catalog.wf(),
        catalog.commit(namespace, name, base, first_id, first_files) is Ok,
        catalog.commit(namespace, name, base, second_id, second_files) is Ok,
    ensures
        catalog.commit(namespace, name, base, first_id, first_files)->Ok_0.wf(),
        catalog.commit(namespace, name, base, first_id, first_files)->Ok_0.commit(
            namespace,
            name,
            base,
            second_id,
            second_files,
        ) == Err::<CatalogView, ErrorView>(
            ErrorView::ConflictingCommit { table: name, expected: base, found: Some(first_id) },
        ),
        catalog.commit(namespace, name, base, first_id, first_files)->Ok_0.table(
            namespace,
            name,
        ).snapshot_ids() == catalog.table(namespace, name).snapshot_ids().push(first_id),
{
    let table = catalog.table(namespace, name);
    let after = catalog.commit(namespace, name, base, first_id, first_files)->Ok_0;
    table.lemma_record_keeps_history(first_id, table.current_files() + first_files);
    assert(after.table(namespace, name) == table.append(first_id, first_files));
    assert(after.table(namespace, name).current_snapshot_id() == Some(first_id));
}

/// **Conflict surfacing, for writers.** Two writers that begin on the same
/// state of a table cannot both commit: whichever commits first succeeds,
/// and the other is refused with a conflict. Exactly one snapshot is added.
pub proof fn law_racing_writers(
    catalog: CatalogView,
    first: WriteRequest,
    second: WriteRequest,
)
    requires
        catalog.wf(),
        first.manager.namespace == second.manager.namespace,
        first.table == second.table,
        catalog.has_table(first.manager.namespace, first.table),
        catalog.table(first.manager.namespace, first.table).next_snapshot_id() <= i64::MAX,
    ensures
        commit_pending(
            catalog,
            first.manager.namespace,
            begun_commit(catalog, first.manager, first.table, first.rows, first.file_token),
        ) is Ok,
        commit_pending(
            commit_pending(
                catalog,
                first.manager.namespace,
                begun_commit(catalog, first.manager, first.table, first.rows, first.file_token),
            )->Ok_0,
            second.manager.namespace,
            begun_commit(catalog, second.manager, second.table, second.rows, second.file_token),
        ) matches Err(ErrorView::ConflictingCommit { .. }),
        commit_pending(
            catalog,
            first.manager.namespace,
            begun_commit(catalog, first.manager, first.table, first.rows, first.file_token),
        )->Ok_0.table(first.manager.namespace, first.table).snapshot_ids() == catalog.table(
            first.manager.namespace,
            first.table,
        ).snapshot_ids().push(
            begun_commit(catalog, first.manager, first.table, first.rows, first.file_token).snapshot_id,
        ),
{
    let namespace = first.manager.namespace;
    let one = begun_commit(catalog, first.manager, first.table, first.rows, first.file_token);
    let two = begun_commit(catalog, second.manager, second.table, second.rows, second.file_token);
    catalog.table(namespace, first.table).lemma_next_id_is_new();
    law_second_commit_conflicts(
        catalog,
        namespace,
        first.table,
        one.base,
        one.snapshot_id,
        seq![one.file],
        two.snapshot_id,
        seq![two.file],
    );
}

/// **No file is written twice.** However many writes follow one another,
/// every file that was stored before them is stored after them, with the
/// same rows: a write goes only where no file is.
pub proof fn law_writes_keep_every_file(world: World, requests: Seq<WriteRequest>)
    requires
        world.catalog.wf(),
    ensures
        write_all(world, requests).catalog.wf(),
        keeps_files(world.store, write_all(world, requests).store),
    decreases requests.len(),
{
    if requests.len() > 0 {
        law_writes_keep_every_file(world, requests.drop_last());
        let before = write_all(world, requests.drop_last());
        let request = requests.last();
        if can_begin(
            before.catalog,
            before.store,
            request.manager,
            request.table,
            request.rows,
            request.file_token,
        ) {
            lemma_write_appends(before, request);
        }
    }
}

/// **Tokens name files.** Writes of one writer to one table that are named
/// after different tokens go to different locations.
pub proof fn law_tokens_name_different_files(
    table: TableView,
    file_prefix: Seq<char>,
    one: u64,
    other: u64,
)
    requires
        one != other,
    ensures
        write_path(table, file_prefix, one) != write_path(table, file_prefix, other),
{
    lemma_data_file_paths_differ(
        table.location,
        file_prefix,
        one as nat,
        other as nat,
        FileFormat::Parquet,
    );
}

/// **Writers do not meet before the commit.** Of two writes to one table
/// that could each begin, and that are named after different tokens under
/// one prefix, either can still begin after the other has begun: they meet
/// at the commit, where one of them is told of the conflict.
pub proof fn law_different_tokens_both_begin(world: World, first: WriteRequest, second: WriteRequest)
    requires
        first.manager.namespace == second.manager.namespace,
        first.manager.file_prefix == second.manager.file_prefix,
        first.table == second.table,
        first.file_token != second.file_token,
        can_begin(
            world.catalog,
            world.store,
            first.manager,
            first.table,
            first.rows,
            first.file_token,
        ),
        can_begin(
            world.catalog,
            world.store,
            second.manager,
            second.table,
            second.rows,
            second.file_token,
        ),
    ensures
        can_begin(
            world.catalog,
            begun_store(
                world.catalog,
                world.store,
                first.manager,
                first.table,
                first.rows,
                first.file_token,
            ),
            second.manager,
            second.table,
            second.rows,
            second.file_token,
        ),
{
    law_tokens_name_different_files(
        world.catalog.table(first.manager.namespace, first.table),
        first.manager.file_prefix,
        first.file_token,
        second.file_token,
    );
}

/// **Files fit their table.** The data file that a write commits holds rows
/// that fit the schema of the table.
pub proof fn law_written_files_fit_the_schema(world: World, request: WriteRequest)
    requires
        world.catalog.wf(),
        can_begin(world.catalog, world.store, request.manager, request.table, request.rows, request.file_token),
    ensures
        read_file(
            write(world, request).store,
            write(world, request).catalog.table(request.manager.namespace, request.table).schema,
            begun_commit(world.catalog, request.manager, request.table, request.rows, request.file_token).file,
        ) == Ok::<Seq<Seq<ValueView>>, ErrorView>(request.rows),
{
}

} // verus!
