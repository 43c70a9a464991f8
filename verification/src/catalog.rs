//! An executable model of the catalog: the registry of namespaces and tables
//! that the manager works against.
//!
//! The catalog alone creates and drops table records, and it alone appends
//! snapshots. An append is atomic: it either adds the snapshot, or fails and
//! leaves every table as it was. A writer that did not start from the
//! table's current snapshot is refused.

use vstd::prelude::*;
use vstd::string::*;
use crate::error::{ErrorView, ManagerError};
use crate::location::{file_location, file_location_spec};
use crate::model::{
    assoc,
    lemma_assoc_lookup,
    lemma_assoc_push,
    lemma_assoc_remove,
    lemma_assoc_update,
    lemma_views_push,
    lemma_views_remove,
    views,
};
use crate::schema::{fields_valid, first_clash, Field, FieldView, Schema};
use crate::table::{DataFile, DataFileView, TableMetadata, TableView};

verus! {

/// What identifies a table: its namespace and its name.
pub type TableKey = (Seq<char>, Seq<char>);

/// The mathematical value of a [`Catalog`].
pub struct CatalogView {
    /// The location under which the catalog places its tables.
    pub warehouse: Seq<char>,
    pub namespaces: Set<Seq<char>>,
    /// The keys of the tables, in the order in which they were registered.
    pub order: Seq<TableKey>,
    pub tables: Map<TableKey, TableView>,
}

/// The names of the tables of `namespace` among `order`, in that order.
pub open spec fn names_in(order: Seq<TableKey>, namespace: Seq<char>) -> Seq<Seq<char>>
    decreases order.len(),
{
    if order.len() == 0 {
        Seq::empty()
    } else if order.last().0 == namespace {
        names_in(order.drop_last(), namespace).push(order.last().1)
    } else {
        names_in(order.drop_last(), namespace)
    }
}

/// The location of the table `name` of `namespace` in the warehouse.
pub open spec fn table_location_spec(
    warehouse: Seq<char>,
    namespace: Seq<char>,
    name: Seq<char>,
) -> Seq<char> {
    file_location_spec(file_location_spec(warehouse, namespace), name)
}

impl CatalogView {
    /// A table of that name is registered in the namespace.
    pub open spec fn has_table(self, namespace: Seq<char>, name: Seq<char>) -> bool {
        self.tables.contains_key((namespace, name))
    }

    /// The table of that name in the namespace.
    pub open spec fn table(self, namespace: Seq<char>, name: Seq<char>) -> TableView {
        self.tables[(namespace, name)]
    }

    /// The names of the tables of the namespace, in the order in which the
    /// tables were registered: what the catalog lists.
    pub open spec fn listing(self, namespace: Seq<char>) -> Seq<Seq<char>> {
        names_in(self.order, namespace)
    }

    /// Every table is well-formed, is registered under its own namespace and
    /// name, and lives in a namespace that exists; the order names each
    /// table once.
    pub open spec fn wf(self) -> bool {
        &&& self.order.no_duplicates()
        &&& forall|key: TableKey| self.order.contains(key) <==> self.tables.contains_key(key)
        &&& forall|key: TableKey| #[trigger]
            self.tables.contains_key(key) ==> {
                &&& self.tables[key].wf()
                &&& self.tables[key].namespace == key.0
                &&& self.tables[key].name == key.1
                &&& self.namespaces.contains(key.0)
            }
    }

    /// The table that `create_table` registers.
    pub open spec fn new_table(
        self,
        namespace: Seq<char>,
        name: Seq<char>,
        fields: Seq<FieldView>,
    ) -> TableView {
        TableView {
            namespace,
            name,
            location: table_location_spec(self.warehouse, namespace, name),
            schema: fields,
            snapshots: Seq::empty(),
        }
    }

    /// The catalog with `table` in the place of the table that is registered
    /// under its namespace and name.
    pub open spec fn with_table(self, table: TableView) -> CatalogView {
        CatalogView { tables: self.tables.insert((table.namespace, table.name), table), ..self }
    }

    /// The catalog with `table` registered as its newest table.
    pub open spec fn register(self, table: TableView) -> CatalogView {
        CatalogView {
            order: self.order.push((table.namespace, table.name)),
            tables: self.tables.insert((table.namespace, table.name), table),
            ..self
        }
    }

    /// The catalog without the record of the table.
    pub open spec fn without_table(self, namespace: Seq<char>, name: Seq<char>) -> CatalogView {
        CatalogView {
            order: self.order.remove(self.order.index_of((namespace, name))),
            tables: self.tables.remove((namespace, name)),
            ..self
        }
    }

    /// What an attempt to append a snapshot does: the catalog afterwards, or
    /// why nothing was changed. `base` is the snapshot that the writer
    /// started from; the append is refused unless it is still the table's
    /// current snapshot.
    pub open spec fn commit(
        self,
        namespace: Seq<char>,
        name: Seq<char>,
        base: Option<i64>,
        snapshot_id: i64,
        new_files: Seq<DataFileView>,
    ) -> Result<CatalogView, ErrorView> {
        if !self.has_table(namespace, name) {
            Err(ErrorView::TableNotFound { namespace, table: name })
        } else {
            match self.table(namespace, name).commit_refusal(base, snapshot_id) {
                Some(refusal) => Err(refusal),
                None => Ok(
                    self.with_table(self.table(namespace, name).append(snapshot_id, new_files)),
                ),
            }
        }
    }
}

/// Why a table cannot be registered, if it cannot: its namespace is absent,
/// or the namespace has a table of that name. The namespace is tested first.
pub open spec fn creation_refusal_spec(
    namespace_exists: bool,
    table_exists: bool,
    namespace: Seq<char>,
    name: Seq<char>,
) -> Option<ErrorView> {
    if !namespace_exists {
        Some(ErrorView::NamespaceNotFound { namespace })
    } else if table_exists {
        Some(ErrorView::AlreadyExists { name })
    } else {
        None
    }
}

/// Why a table cannot be loaded or dropped, if it cannot: it is not
/// registered.
pub open spec fn lookup_refusal_spec(table_exists: bool, namespace: Seq<char>, name: Seq<char>) -> Option<
    ErrorView,
> {
    if table_exists {
        None
    } else {
        Some(ErrorView::TableNotFound { namespace, table: name })
    }
}

/// Why a table cannot be loaded or dropped, if it cannot.
pub fn lookup_refusal(table_exists: bool, namespace: &str, name: &str) -> (refusal: Option<
    ManagerError,
>)
    ensures
        refusal is Some <==> !table_exists,
        refusal matches Some(error) ==> Some(error@) == lookup_refusal_spec(
            table_exists,
            namespace@,
            name@,
        ),
{
    if table_exists {
        None
    } else {
        Some(
            ManagerError::TableNotFound {
                namespace: String::from_str(namespace),
                table: String::from_str(name),
            },
        )
    }
}

/// Why a table cannot be registered, if it cannot.
pub fn creation_refusal(namespace_exists: bool, table_exists: bool, namespace: &str, name: &str) -> (
    refusal: Option<ManagerError>)
    ensures
        refusal is Some <==> creation_refusal_spec(
            namespace_exists,
            table_exists,
            namespace@,
            name@,
        ) is Some,
        refusal matches Some(error) ==> Some(error@) == creation_refusal_spec(
            namespace_exists,
            table_exists,
            namespace@,
            name@,
        ),
{
    if !namespace_exists {
        Some(ManagerError::NamespaceNotFound { namespace: String::from_str(namespace) })
    } else if table_exists {
        Some(ManagerError::AlreadyExists { name: String::from_str(name) })
    } else {
        None
    }
}

/// The keys under which the tables are registered.
pub open spec fn table_keys(tables: Seq<TableView>) -> Seq<TableKey> {
    Seq::new(tables.len(), |i: int| (tables[i].namespace, tables[i].name))
}

/// The registry of namespaces and tables.
#[derive(Debug, PartialEq, Eq)]
pub struct Catalog {
    warehouse: String,
    namespaces: Vec<String>,
    tables: Vec<TableMetadata>,
}

impl View for Catalog {
    type V = CatalogView;

    closed spec fn view(&self) -> CatalogView {
        CatalogView {
            warehouse: self.warehouse@,
            namespaces: views(self.namespaces@).to_set(),
            order: table_keys(views(self.tables@)),
            tables: assoc(table_keys(views(self.tables@)), views(self.tables@)),
        }
    }
}

impl Catalog {
    /// No namespace and no table is registered twice, every table is
    /// well-formed, and every table lives in a registered namespace.
    pub closed spec fn wf(&self) -> bool {
        &&& views(self.namespaces@).no_duplicates()
        &&& table_keys(views(self.tables@)).no_duplicates()
        &&& forall|i: int| 0 <= i < self.tables@.len() ==> (#[trigger] self.tables@[i]).wf()
        &&& forall|i: int|
            0 <= i < self.tables@.len() ==> views(self.namespaces@).contains(
                (#[trigger] self.tables@[i])@.namespace,
            )
    }

    /// The view of a well-formed catalog is well-formed.
    pub proof fn lemma_view_wf(&self)
        requires
            self.wf(),
        ensures
            self@.wf(),
    {
    }

    /// A catalog without namespaces and tables.
    pub fn new(warehouse: String) -> (catalog: Self)
        ensures
            catalog.wf(),
            catalog@ == (CatalogView {
                warehouse: warehouse@,
                namespaces: Set::empty(),
                order: Seq::empty(),
                tables: Map::empty(),
            }),
    {
        let catalog = Catalog { warehouse, namespaces: Vec::new(), tables: Vec::new() };
        assert(catalog@.namespaces =~= Set::empty());
        assert(catalog@.order =~= Seq::empty());
        assert(catalog@.tables =~= Map::empty());
        catalog
    }

    /// Where the namespace is registered, if it is.
    fn find_namespace(&self, name: &str) -> (found: Option<usize>)
        ensures
            found is Some <==> self@.namespaces.contains(name@),
            found matches Some(i) ==> i < self.namespaces@.len() && self.namespaces@[i as int]@
                == name@,
    {
        let wanted = String::from_str(name);
        let mut i: usize = 0;
        while i < self.namespaces.len()
            invariant
                wanted@ == name@,
                i <= self.namespaces.len(),
                forall|k: int| 0 <= k < i ==> (#[trigger] views(self.namespaces@)[k]) != name@,
            decreases self.namespaces.len() - i,
        {
            if self.namespaces[i] == wanted {
                assert(views(self.namespaces@)[i as int] == name@);
                return Some(i);
            }
            i += 1;
        }
        None
    }

    /// Where the table is registered, if it is.
    fn find_table(&self, namespace: &str, name: &str) -> (found: Option<usize>)
        requires
            self.wf(),
        ensures
            found is Some <==> self@.has_table(namespace@, name@),
            found matches Some(i) ==> i < self.tables@.len() && self.tables@[i as int]@
                == self@.table(namespace@, name@) && table_keys(views(self.tables@))[i as int]
                == (namespace@, name@),
    {
        let wanted_namespace = String::from_str(namespace);
        let wanted_name = String::from_str(name);
        let ghost keys = table_keys(views(self.tables@));
        let mut i: usize = 0;
        while i < self.tables.len()
            invariant
                self.wf(),
                wanted_namespace@ == namespace@,
                wanted_name@ == name@,
                keys == table_keys(views(self.tables@)),
                i <= self.tables.len(),
                forall|k: int| 0 <= k < i ==> (#[trigger] keys[k]) != (namespace@, name@),
            decreases self.tables.len() - i,
        {
            let table = &self.tables[i];
            if *table.namespace() == wanted_namespace && *table.name() == wanted_name {
                proof {
                    lemma_assoc_lookup(keys, views(self.tables@), i as int);
                }
                return Some(i);
            }
            i += 1;
        }
        None
    }

    /// Whether the namespace is registered.
    pub fn namespace_exists(&self, name: &str) -> (exists: bool)
        ensures
            exists == self@.namespaces.contains(name@),
    {
        self.find_namespace(name).is_some()
    }

    /// Registers a namespace. Creating a namespace that exists already is the
    /// caller's error: it fails and changes nothing.
    pub fn create_namespace(&mut self, name: String) -> (created: Result<(), ManagerError>)
        requires
            old(self).wf(),
        ensures
            final(self).wf(),
            created is Ok <==> !old(self)@.namespaces.contains(name@),
            created is Ok ==> final(self)@ == (CatalogView {
                namespaces: old(self)@.namespaces.insert(name@),
                ..old(self)@
            }),
            created matches Err(error) ==> final(self)@ == old(self)@ && error@
                == (ErrorView::AlreadyExists { name: name@ }),
    {
        if self.find_namespace(name.as_str()).is_some() {
            return Err(ManagerError::AlreadyExists { name });
        }
        let ghost before = views(self.namespaces@);
        self.namespaces.push(name);
        proof {
            let after = views(self.namespaces@);
            let n = before.len() as int;
            assert forall|i: int, j: int|
                0 <= i < after.len() && 0 <= j < after.len() && i != j implies after[i]
                != after[j] by {
                if i < n && j < n {
                    assert(before[i] != before[j]);
                } else if i < n {
                    assert(before.contains(before[i]));
                } else {
                    assert(before.contains(before[j]));
                }
            }
            assert forall|x: Seq<char>| after.to_set().contains(x) <==> before.to_set().insert(
                name@,
            ).contains(x) by {
                if before.contains(x) {
                    let i = before.index_of(x);
                    assert(after[i] == x);
                }
                if x == name@ {
                    assert(after[n] == x);
                }
                if after.contains(x) && x != name@ {
                    let i = after.index_of(x);
                    assert(before[i] == x);
                }
            }
            assert(after.to_set() =~= before.to_set().insert(name@));
            assert forall|i: int| 0 <= i < self.tables@.len() implies after.contains(
                (#[trigger] self.tables@[i])@.namespace,
            ) by {
                let k = before.index_of(self.tables@[i]@.namespace);
                assert(after[k] == self.tables@[i]@.namespace);
            }
        }
        Ok(())
    }

    /// Whether a table of that name is registered in the namespace.
    pub fn table_exists(&self, namespace: &str, name: &str) -> (exists: bool)
        requires
            self.wf(),
        ensures
            exists == self@.has_table(namespace@, name@),
    {
        self.find_table(namespace, name).is_some()
    }

    /// The location of the table `name` of `namespace` in the warehouse.
    fn table_location(&self, namespace: &str, name: &str) -> (location: String)
        ensures
            location@ == table_location_spec(self@.warehouse, namespace@, name@),
    {
        let dir = file_location(self.warehouse.as_str(), namespace);
        file_location(dir.as_str(), name)
    }

    /// Registers a table without snapshots. It fails, and changes nothing,
    /// where the namespace is absent, where the namespace has a table of
    /// that name, and where the fields do not make a valid schema; the three
    /// are tested in this order.
    pub fn create_table(&mut self, namespace: &str, name: &str, fields: Vec<Field>) -> (created:
        Result<TableMetadata, ManagerError>)
        requires
            old(self).wf(),
        ensures
            final(self).wf(),
            created is Ok <==> old(self)@.namespaces.contains(namespace@) && !old(self)@.has_table(
                namespace@,
                name@,
            ) && fields_valid(views(fields@)),
            created matches Ok(table) ==> table.wf() && table@ == old(self)@.new_table(
                namespace@,
                name@,
                views(fields@),
            ) && final(self)@ == old(self)@.register(table@),
            created is Err ==> final(self)@ == old(self)@,
            created matches Err(error) ==> match creation_refusal_spec(
                old(self)@.namespaces.contains(namespace@),
                old(self)@.has_table(namespace@, name@),
                namespace@,
                name@,
            ) {
                Some(refusal) => error@ == refusal,
                None => error@ matches ErrorView::SchemaInvalid { position } && first_clash(
                    views(fields@),
                    position as int,
                ),
            },
    {
        let namespace_exists = self.find_namespace(namespace).is_some();
        let table_exists = self.find_table(namespace, name).is_some();
        match creation_refusal(namespace_exists, table_exists, namespace, name) {
            Some(error) => {
                return Err(error);
            },
            None => {},
        }
        let schema = match Schema::new(fields) {
            Ok(schema) => schema,
            Err(error) => {
                return Err(error);
            },
        };
        let location = self.table_location(namespace, name);
        let table = TableMetadata::new(
            String::from_str(namespace),
            String::from_str(name),
            location,
            schema,
        );
        let registered = table.clone();
        proof {
            let keys = table_keys(views(self.tables@));
            lemma_assoc_push(keys, views(self.tables@), (namespace@, name@), table@);
            lemma_views_push(self.tables@, table);
            assert(table_keys(views(self.tables@.push(table))) =~= keys.push(
                (namespace@, name@),
            ));
        }
        self.tables.push(table);
        Ok(registered)
    }

    /// The names of the tables of the namespace, in the order in which the
    /// tables were registered. Each table of the namespace is named once.
    pub fn list_tables(&self, namespace: &str) -> (listed: Result<Vec<String>, ManagerError>)
        requires
            self.wf(),
        ensures
            listed is Ok <==> self@.namespaces.contains(namespace@),
            listed matches Ok(names) ==> views(names@) == self@.listing(namespace@),
            listed matches Ok(names) ==> views(names@).no_duplicates() && forall|name: Seq<char>|
                views(names@).contains(name) <==> self@.has_table(namespace@, name),
            listed matches Err(error) ==> error@ == (ErrorView::NamespaceNotFound {
                namespace: namespace@,
            }),
    {
        if self.find_namespace(namespace).is_none() {
            return Err(
                ManagerError::NamespaceNotFound { namespace: String::from_str(namespace) },
            );
        }
        let wanted = String::from_str(namespace);
        let ghost keys = table_keys(views(self.tables@));
        let mut names: Vec<String> = Vec::new();
        let ghost mut origin: Seq<int> = Seq::empty();
        let mut i: usize = 0;
        while i < self.tables.len()
            invariant
                self.wf(),
                wanted@ == namespace@,
                keys == table_keys(views(self.tables@)),
                i <= self.tables.len(),
                views(names@) == names_in(keys.take(i as int), namespace@),
                origin.len() == names@.len(),
                forall|k: int|
                    0 <= k < origin.len() ==> 0 <= #[trigger] origin[k] < i && keys[origin[k]] == (
                        namespace@,
                        views(names@)[k],
                    ),
                forall|a: int, b: int|
                    0 <= a < b < origin.len() ==> #[trigger] origin[a] < #[trigger] origin[b],
                forall|t: int|
                    0 <= t < i && (#[trigger] keys[t]).0 == namespace@ ==> views(names@).contains(
                        keys[t].1,
                    ),
            decreases self.tables.len() - i,
        {
            let table = &self.tables[i];
            proof {
                assert(keys.take(i + 1).drop_last() =~= keys.take(i as int));
                assert(keys.take(i + 1).last() == keys[i as int]);
            }
            if *table.namespace() == wanted {
                let name = table.name().clone();
                let ghost old_names = views(names@);
                names.push(name);
                proof {
                    assert(views(names@) =~= old_names.push(keys[i as int].1));
                    origin = origin.push(i as int);
                    assert forall|t: int|
                        0 <= t < i + 1 && (#[trigger] keys[t]).0 == namespace@ implies views(
                        names@,
                    ).contains(keys[t].1) by {
                        if t < i {
                            let k = old_names.index_of(keys[t].1);
                            assert(views(names@)[k] == keys[t].1);
                        } else {
                            assert(views(names@)[old_names.len() as int] == keys[t].1);
                        }
                    }
                }
            }
            i += 1;
        }
        proof {
            let listed = views(names@);
            assert(keys.take(i as int) =~= keys);
            assert forall|a: int, b: int|
                0 <= a < listed.len() && 0 <= b < listed.len() && a != b implies listed[a]
                != listed[b] by {
                assert(keys[origin[a]] != keys[origin[b]]);
            }
            assert forall|name: Seq<char>| listed.contains(name) <==> self@.has_table(
                namespace@,
                name,
            ) by {
                if listed.contains(name) {
                    let k = listed.index_of(name);
                    assert(keys[origin[k]] == (namespace@, name));
                }
            }
        }
        Ok(names)
    }

    /// The table with its full metadata, snapshot history included.
    pub fn load_table(&self, namespace: &str, name: &str) -> (loaded: Result<
        TableMetadata,
        ManagerError,
    >)
        requires
            self.wf(),
        ensures
            loaded is Ok <==> self@.has_table(namespace@, name@),
            loaded matches Ok(table) ==> table.wf() && table@ == self@.table(namespace@, name@),
            loaded matches Err(error) ==> error@ == (ErrorView::TableNotFound {
                namespace: namespace@,
                table: name@,
            }),
    {
        let found = self.find_table(namespace, name);
        match lookup_refusal(found.is_some(), namespace, name) {
            Some(error) => Err(error),
            None => Ok(self.tables[found.unwrap()].clone()),
        }
    }

    /// Takes the table's record out of the registry. The data files that its
    /// snapshots name are not touched.
    pub fn drop_table(&mut self, namespace: &str, name: &str) -> (dropped: Result<
        (),
        ManagerError,
    >)
        requires
            old(self).wf(),
        ensures
            final(self).wf(),
            dropped is Ok <==> old(self)@.has_table(namespace@, name@),
            dropped is Ok ==> final(self)@ == old(self)@.without_table(namespace@, name@),
            dropped matches Err(error) ==> final(self)@ == old(self)@ && error@
                == (ErrorView::TableNotFound { namespace: namespace@, table: name@ }),
    {
        let found = self.find_table(namespace, name);
        match lookup_refusal(found.is_some(), namespace, name) {
            Some(error) => {
                return Err(error);
            },
            None => {},
        }
        let i = found.unwrap();
        let ghost before = self.tables@;
        proof {
            let keys = table_keys(views(before));
            lemma_assoc_lookup(keys, views(before), i as int);
            lemma_assoc_remove(keys, views(before), i as int);
            lemma_views_remove(before, i as int);
            assert(table_keys(views(before.remove(i as int))) =~= keys.remove(i as int));
        }
        let _ = self.tables.remove(i);
        Ok(())
    }

    /// Appends a snapshot that shows `new_files` besides what the table's
    /// current snapshot shows. `base` is the snapshot that the writer started
    /// from. The append is atomic: either the new snapshot is in the table's
    /// history afterwards, or the call fails and the catalog is unchanged.
    /// See [`CatalogView::commit`] for when it fails.
    pub fn commit_snapshot(
        &mut self,
        namespace: &str,
        name: &str,
        base: Option<i64>,
        snapshot_id: i64,
        new_files: Vec<DataFile>,
    ) -> (committed: Result<TableMetadata, ManagerError>)
        requires
            old(self).wf(),
        ensures
            final(self).wf(),
            match old(self)@.commit(namespace@, name@, base, snapshot_id, views(new_files@)) {
                Ok(after) => {
                    &&& final(self)@ == after
                    &&& committed matches Ok(table)
                    &&& table.wf()
                    &&& table@ == after.table(namespace@, name@)
                },
                Err(refusal) => {
                    &&& final(self)@ == old(self)@
                    &&& committed matches Err(error)
                    &&& error@ == refusal
                },
            },
    {
        let found = self.find_table(namespace, name);
        match lookup_refusal(found.is_some(), namespace, name) {
            Some(error) => {
                return Err(error);
            },
            None => {},
        }
        let i = found.unwrap();
        match self.tables[i].check_commit(base, snapshot_id) {
            Err(error) => {
                return Err(error);
            },
            Ok(()) => {},
        }
        let ghost before = self.tables@;
        let ghost keys = table_keys(views(before));
        let mut table = self.tables[i].clone();
        let _ = table.append_snapshot(snapshot_id, new_files);
        let committed = table.clone();
        proof {
            lemma_assoc_update(keys, views(before), i as int, table@);
            assert(views(before.update(i as int, table)) =~= views(before).update(
                i as int,
                table@,
            ));
            assert(table_keys(views(before.update(i as int, table))) =~= keys);
        }
        self.tables.set(i, table);
        Ok(committed)
    }
}

} // verus!
