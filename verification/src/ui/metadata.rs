//! What the user interface knows of the connected database: its tables,
//! the foreign keys and indexes of each table, its roles and their table
//! privileges.
//!
//! Foreign keys and indexes are kept per table under the key
//! `schema.table`, filled in table order, so that where two tables give the
//! same key the later one is kept, as a map would keep it.

use vstd::prelude::*;

use crate::text::{push_str, str_eq, string_from_chars};
use crate::types::{
    copy_all, views, ForeignKeyInfo, ForeignKeyView, IndexInfo, IndexView, PrivilegeView, RoleInfo,
    TableInfo, TablePrivilege, TableView,
};

verus! {

/// What was fetched for one table.
pub struct TableMetadata {
    pub table: TableInfo,
    pub foreign_keys: Vec<ForeignKeyInfo>,
    pub indexes: Vec<IndexInfo>,
}

/// The model of a [`TableMetadata`].
pub ghost struct TableMetadataView {
    pub table: TableView,
    pub foreign_keys: Seq<ForeignKeyView>,
    pub indexes: Seq<IndexView>,
}

impl View for TableMetadata {
    type V = TableMetadataView;

    open spec fn view(&self) -> TableMetadataView {
        TableMetadataView {
            table: self.table@,
            foreign_keys: views(self.foreign_keys@),
            indexes: views(self.indexes@),
        }
    }
}

/// Everything one fetch of the database's metadata brings back.
pub struct FetchedMetadata {
    pub tables: Vec<TableMetadata>,
    pub roles: Vec<RoleInfo>,
    pub table_privileges: Vec<TablePrivilege>,
}

/// The metadata store.
pub struct DbStore {
    pub is_connected: bool,
    pub tables: Vec<TableInfo>,
    pub foreign_keys: Vec<(String, Vec<ForeignKeyInfo>)>,
    pub indexes: Vec<(String, Vec<IndexInfo>)>,
    pub roles: Vec<RoleInfo>,
    pub table_privileges: Vec<TablePrivilege>,
    pub is_loading: bool,
    pub error: Option<String>,
}

/// The key of a table: `schema.table`.
pub open spec fn key_text(schema: Seq<char>, name: Seq<char>) -> Seq<char> {
    schema + seq!['.'] + name
}

/// The map that inserting the entries in order makes: a later entry for a
/// key replaces an earlier one.
pub open spec fn map_of<V>(e: Seq<(Seq<char>, Seq<V>)>) -> Map<Seq<char>, Seq<V>>
    decreases e.len(),
{
    if e.len() == 0 {
        Map::empty()
    } else {
        map_of(e.drop_last()).insert(e.last().0, e.last().1)
    }
}

/// The list under `key`, or the empty list where there is none.
pub open spec fn lookup<V>(m: Map<Seq<char>, Seq<V>>, key: Seq<char>) -> Seq<V> {
    if m.contains_key(key) {
        m[key]
    } else {
        Seq::empty()
    }
}

/// The models of the foreign-key entries.
pub open spec fn fk_entries(e: Seq<(String, Vec<ForeignKeyInfo>)>) -> Seq<
    (Seq<char>, Seq<ForeignKeyView>),
> {
    e.map_values(|p: (String, Vec<ForeignKeyInfo>)| (p.0@, views(p.1@)))
}

/// The models of the index entries.
pub open spec fn index_entries(e: Seq<(String, Vec<IndexInfo>)>) -> Seq<
    (Seq<char>, Seq<IndexView>),
> {
    e.map_values(|p: (String, Vec<IndexInfo>)| (p.0@, views(p.1@)))
}

/// The foreign-key entries a fetch gives: one per table, in table order.
pub open spec fn fetched_fk_entries(t: Seq<TableMetadataView>) -> Seq<
    (Seq<char>, Seq<ForeignKeyView>),
> {
    t.map_values(|m: TableMetadataView| (key_text(m.table.schema, m.table.name), m.foreign_keys))
}

/// The index entries a fetch gives: one per table, in table order.
pub open spec fn fetched_index_entries(t: Seq<TableMetadataView>) -> Seq<
    (Seq<char>, Seq<IndexView>),
> {
    t.map_values(|m: TableMetadataView| (key_text(m.table.schema, m.table.name), m.indexes))
}

/// `{prefix}{e}`.
pub open spec fn prefixed(prefix: Seq<char>, e: Seq<char>) -> Seq<char> {
    prefix + e
}

impl DbStore {
    /// The foreign keys, per table key.
    pub open spec fn fk_map(&self) -> Map<Seq<char>, Seq<ForeignKeyView>> {
        map_of(fk_entries(self.foreign_keys@))
    }

    /// The indexes, per table key.
    pub open spec fn index_map(&self) -> Map<Seq<char>, Seq<IndexView>> {
        map_of(index_entries(self.indexes@))
    }

    /// Not connected, nothing known, not loading, no error.
    pub fn init() -> (s: DbStore)
        ensures
            !s.is_connected,
            s.tables@.len() == 0,
            s.fk_map() == Map::<Seq<char>, Seq<ForeignKeyView>>::empty(),
            s.index_map() == Map::<Seq<char>, Seq<IndexView>>::empty(),
            s.roles@.len() == 0,
            s.table_privileges@.len() == 0,
            !s.is_loading,
            s.error is None,
    {
        let s = DbStore {
            is_connected: false,
            tables: Vec::new(),
            foreign_keys: Vec::new(),
            indexes: Vec::new(),
            roles: Vec::new(),
            table_privileges: Vec::new(),
            is_loading: false,
            error: None,
        };
        assert(fk_entries(s.foreign_keys@) =~= Seq::empty());
        assert(index_entries(s.indexes@) =~= Seq::empty());
        s
    }

    /// A fetch starts: loading, and the last error is cleared.
    pub fn fetch_database_metadata(&mut self)
        ensures
            final(self).is_loading,
            final(self).error is None,
            final(self).is_connected == old(self).is_connected,
            views(final(self).tables@) == views(old(self).tables@),
            final(self).fk_map() == old(self).fk_map(),
            final(self).index_map() == old(self).index_map(),
            views(final(self).roles@) == views(old(self).roles@),
            views(final(self).table_privileges@) == views(old(self).table_privileges@),
    {
        self.is_loading = true;
        self.error = None;
    }

    /// Records the outcome of a fetch. What was fetched replaces everything
    /// known, and the store is connected; an error is kept as
    /// `Failed to fetch database metadata: {e}`, and the store is not
    /// connected. Either way loading is over.
    pub fn finish_fetch(&mut self, result: Result<FetchedMetadata, String>)
        ensures
            !final(self).is_loading,
            match result {
                Ok(f) => {
                    &&& final(self).is_connected
                    &&& views(final(self).tables@) == views(f.tables@).map_values(
                        |m: TableMetadataView| m.table,
                    )
                    &&& final(self).fk_map() == map_of(fetched_fk_entries(views(f.tables@)))
                    &&& final(self).index_map() == map_of(fetched_index_entries(views(f.tables@)))
                    &&& views(final(self).roles@) == views(f.roles@)
                    &&& views(final(self).table_privileges@) == views(f.table_privileges@)
                    &&& final(self).error == old(self).error
                },
                Err(e) => {
                    &&& !final(self).is_connected
                    &&& final(self).error matches Some(m) && m@ == prefixed(
                        "Failed to fetch database metadata: "@,
                        e@,
                    )
                    &&& views(final(self).tables@) == views(old(self).tables@)
                    &&& final(self).fk_map() == old(self).fk_map()
                    &&& final(self).index_map() == old(self).index_map()
                    &&& views(final(self).roles@) == views(old(self).roles@)
                    &&& views(final(self).table_privileges@) == views(
                        old(self).table_privileges@,
                    )
                },
            },
    {
        match result {
            Ok(f) => {
                let ghost fv = views(f.tables@);
                let mut tables: Vec<TableInfo> = Vec::new();
                let mut fks: Vec<(String, Vec<ForeignKeyInfo>)> = Vec::new();
                let mut idxs: Vec<(String, Vec<IndexInfo>)> = Vec::new();
                let mut i: usize = 0;
                while i < f.tables.len()
                    invariant
                        i <= f.tables@.len(),
                        fv == views(f.tables@),
                        views(tables@) == fv.take(i as int).map_values(
                            |m: TableMetadataView| m.table,
                        ),
                        fk_entries(fks@) == fetched_fk_entries(fv.take(i as int)),
                        index_entries(idxs@) == fetched_index_entries(fv.take(i as int)),
                    decreases f.tables@.len() - i,
                {
                    let t = &f.tables[i];
                    let key = metadata_key(t.table.schema.as_str(), t.table.name.as_str());
                    let ghost before_t = views(tables@);
                    let ghost before_f = fk_entries(fks@);
                    let ghost before_i = index_entries(idxs@);
                    tables.push(t.table.copy());
                    fks.push((key.clone(), copy_all(&t.foreign_keys)));
                    idxs.push((key, copy_all(&t.indexes)));
                    proof {
                        let m = fv[i as int];
                        assert(m == f.tables@[i as int]@);
                        assert(fv.take(i + 1) =~= fv.take(i as int).push(m));
                        assert(views(tables@) =~= before_t.push(m.table));
                        assert(fk_entries(fks@) =~= before_f.push(
                            (key_text(m.table.schema, m.table.name), m.foreign_keys),
                        ));
                        assert(index_entries(idxs@) =~= before_i.push(
                            (key_text(m.table.schema, m.table.name), m.indexes),
                        ));
                        assert(fv.take(i + 1).map_values(|m: TableMetadataView| m.table)
                            =~= fv.take(i as int).map_values(|m: TableMetadataView| m.table).push(
                            m.table,
                        ));
                        assert(fetched_fk_entries(fv.take(i + 1)) =~= fetched_fk_entries(
                            fv.take(i as int),
                        ).push((key_text(m.table.schema, m.table.name), m.foreign_keys)));
                        assert(fetched_index_entries(fv.take(i + 1)) =~= fetched_index_entries(
                            fv.take(i as int),
                        ).push((key_text(m.table.schema, m.table.name), m.indexes)));
                    }
                    i = i + 1;
                }
                assert(fv.take(fv.len() as int) =~= fv);
                self.tables = tables;
                self.foreign_keys = fks;
                self.indexes = idxs;
                self.roles = f.roles;
                self.table_privileges = f.table_privileges;
                self.is_connected = true;
                self.is_loading = false;
            },
            Err(e) => {
                let mut m: Vec<char> = Vec::new();
                push_str(&mut m, "Failed to fetch database metadata: ");
                push_str(&mut m, e.as_str());
                self.error = Some(string_from_chars(m.as_slice()));
                self.is_connected = false;
                self.is_loading = false;
            },
        }
    }

    /// Records the outcome of disconnecting: on success everything known
    /// is forgotten and the error cleared; on failure the error is kept as
    /// `Failed to disconnect: {e}` and nothing else changes.
    pub fn finish_disconnect(&mut self, result: Result<(), String>)
        ensures
            final(self).is_loading == old(self).is_loading,
            match result {
                Ok(()) => {
                    &&& !final(self).is_connected
                    &&& final(self).tables@.len() == 0
                    &&& final(self).fk_map() == Map::<Seq<char>, Seq<ForeignKeyView>>::empty()
                    &&& final(self).index_map() == Map::<Seq<char>, Seq<IndexView>>::empty()
                    &&& final(self).roles@.len() == 0
                    &&& final(self).table_privileges@.len() == 0
                    &&& final(self).error is None
                },
                Err(e) => {
                    &&& final(self).is_connected == old(self).is_connected
                    &&& final(self).error matches Some(m) && m@ == prefixed(
                        "Failed to disconnect: "@,
                        e@,
                    )
                    &&& views(final(self).tables@) == views(old(self).tables@)
                    &&& final(self).fk_map() == old(self).fk_map()
                    &&& final(self).index_map() == old(self).index_map()
                    &&& views(final(self).roles@) == views(old(self).roles@)
                    &&& views(final(self).table_privileges@) == views(
                        old(self).table_privileges@,
                    )
                },
            },
    {
        match result {
            Ok(()) => {
                self.is_connected = false;
                self.tables = Vec::new();
                self.foreign_keys = Vec::new();
                self.indexes = Vec::new();
                self.roles = Vec::new();
                self.table_privileges = Vec::new();
                self.error = None;
                assert(fk_entries(self.foreign_keys@) =~= Seq::empty());
                assert(index_entries(self.indexes@) =~= Seq::empty());
            },
            Err(e) => {
                let mut m: Vec<char> = Vec::new();
                push_str(&mut m, "Failed to disconnect: ");
                push_str(&mut m, e.as_str());
                self.error = Some(string_from_chars(m.as_slice()));
            },
        }
    }

    /// The foreign keys of table `schema.table_name`, or none where the
    /// table is not known.
    pub fn get_foreign_keys_for_table(&self, table_name: &str, schema: &str) -> (r: Vec<
        ForeignKeyInfo,
    >)
        ensures
            views(r@) == lookup(self.fk_map(), key_text(schema@, table_name@)),
    {
        let key = metadata_key(schema, table_name);
        let ghost e = fk_entries(self.foreign_keys@);
        let mut i: usize = self.foreign_keys.len();
        assert(e.take(e.len() as int) =~= e);
        while i > 0
            invariant
                i <= self.foreign_keys@.len(),
                key@ == key_text(schema@, table_name@),
                e == fk_entries(self.foreign_keys@),
                map_of(e).contains_key(key@) == map_of(e.take(i as int)).contains_key(key@),
                map_of(e).contains_key(key@) ==> map_of(e)[key@] == map_of(e.take(i as int))[key@],
            decreases i,
        {
            let j = i - 1;
            proof {
                assert(e.take(i as int).drop_last() =~= e.take(j as int));
                assert(e[j as int] == (self.foreign_keys@[j as int].0@, views(self.foreign_keys@[j as int].1@)));
            }
            if str_eq(self.foreign_keys[j].0.as_str(), key.as_str()) {
                proof {
                    let t = e.take(i as int);
                    assert(t.last() == e[j as int]);
                    assert(map_of(t) == map_of(t.drop_last()).insert(t.last().0, t.last().1));
                    assert(map_of(t).contains_key(key@));
                    assert(map_of(t)[key@] == e[j as int].1);
                }
                let r = copy_all(&self.foreign_keys[j].1);
                assert(views(r@) == e[j as int].1);
                return r;
            }
            i = j;
        }
        assert(e.take(0) =~= Seq::<(Seq<char>, Seq<ForeignKeyView>)>::empty());
        Vec::new()
    }

    /// The indexes of table `schema.table_name`, or none where the table is
    /// not known.
    pub fn get_indexes_for_table(&self, table_name: &str, schema: &str) -> (r: Vec<IndexInfo>)
        ensures
            views(r@) == lookup(self.index_map(), key_text(schema@, table_name@)),
    {
        let key = metadata_key(schema, table_name);
        let ghost e = index_entries(self.indexes@);
        let mut i: usize = self.indexes.len();
        assert(e.take(e.len() as int) =~= e);
        while i > 0
            invariant
                i <= self.indexes@.len(),
                key@ == key_text(schema@, table_name@),
                e == index_entries(self.indexes@),
                map_of(e).contains_key(key@) == map_of(e.take(i as int)).contains_key(key@),
                map_of(e).contains_key(key@) ==> map_of(e)[key@] == map_of(e.take(i as int))[key@],
            decreases i,
        {
            let j = i - 1;
            proof {
                assert(e.take(i as int).drop_last() =~= e.take(j as int));
                assert(e[j as int] == (self.indexes@[j as int].0@, views(self.indexes@[j as int].1@)));
            }
            if str_eq(self.indexes[j].0.as_str(), key.as_str()) {
                proof {
                    let t = e.take(i as int);
                    assert(t.last() == e[j as int]);
                    assert(map_of(t) == map_of(t.drop_last()).insert(t.last().0, t.last().1));
                    assert(map_of(t).contains_key(key@));
                    assert(map_of(t)[key@] == e[j as int].1);
                }
                let r = copy_all(&self.indexes[j].1);
                assert(views(r@) == e[j as int].1);
                return r;
            }
            i = j;
        }
        assert(e.take(0) =~= Seq::<(Seq<char>, Seq<IndexView>)>::empty());
        Vec::new()
    }

    /// The table privileges granted to `role_name`, in the order they were
    /// fetched.
    pub fn get_privileges_for_role(&self, role_name: &str) -> (r: Vec<TablePrivilege>)
        ensures
            views(r@) == privileges_of(views(self.table_privileges@), role_name@),
    {
        let ghost l = views(self.table_privileges@);
        let mut out: Vec<TablePrivilege> = Vec::new();
        let mut i: usize = 0;
        while i < self.table_privileges.len()
            invariant
                i <= self.table_privileges@.len(),
                l == views(self.table_privileges@),
                views(out@) == privileges_of(l.take(i as int), role_name@),
            decreases self.table_privileges@.len() - i,
        {
            proof {
                assert(l.take(i + 1).drop_last() =~= l.take(i as int));
                assert(l[i as int] == self.table_privileges@[i as int]@);
            }
            if str_eq(self.table_privileges[i].grantee.as_str(), role_name) {
                let ghost before = views(out@);
                out.push(self.table_privileges[i].copy());
                assert(views(out@) =~= before.push(l[i as int]));
            }
            i = i + 1;
        }
        assert(l.take(l.len() as int) =~= l);
        out
    }
}

/// The privileges granted to `role`, in order.
pub open spec fn privileges_of(l: Seq<PrivilegeView>, role: Seq<char>) -> Seq<PrivilegeView>
    decreases l.len(),
{
    if l.len() == 0 {
        l
    } else if l.last().grantee == role {
        privileges_of(l.drop_last(), role).push(l.last())
    } else {
        privileges_of(l.drop_last(), role)
    }
}

/// The key of table `schema.name`.
pub fn metadata_key(schema: &str, name: &str) -> (r: String)
    ensures
        r@ == key_text(schema@, name@),
{
    let mut v: Vec<char> = Vec::new();
    push_str(&mut v, schema);
    v.push('.');
    push_str(&mut v, name);
    assert(v@ =~= key_text(schema@, name@));
    string_from_chars(v.as_slice())
}

/// In the map that inserting entries in order makes, a key holds the list
/// of its last entry.
proof fn lemma_map_of_last<V>(e: Seq<(Seq<char>, Seq<V>)>, i: int)
    requires
        0 <= i < e.len(),
        forall|j: int| i < j < e.len() ==> (#[trigger] e[j]).0 != e[i].0,
    ensures
        map_of(e).contains_key(e[i].0),
        map_of(e)[e[i].0] == e[i].1,
    decreases e.len(),
{
    if i < e.len() - 1 {
        let d = e.drop_last();
        assert forall|j: int| i < j < d.len() implies (#[trigger] d[j]).0 != d[i].0 by {
            assert(d[j] == e[j]);
        }
        lemma_map_of_last(d, i);
        assert(e[e.len() - 1].0 != e[i].0);
    }
}

/// A key no entry has is not in the map.
proof fn lemma_map_of_absent<V>(e: Seq<(Seq<char>, Seq<V>)>, k: Seq<char>)
    requires
        forall|j: int| 0 <= j < e.len() ==> (#[trigger] e[j]).0 != k,
    ensures
        !map_of(e).contains_key(k),
    decreases e.len(),
{
    if e.len() > 0 {
        let d = e.drop_last();
        assert forall|j: int| 0 <= j < d.len() implies (#[trigger] d[j]).0 != k by {
            assert(d[j] == e[j]);
        }
        lemma_map_of_absent(d, k);
        assert(e[e.len() - 1].0 != k);
    }
}

/// What a fetch stores is what reading gives back: the foreign keys and
/// indexes of a table are the lists fetched for it, where no later table
/// of the fetch has the same key; a table that was not fetched has none.
pub proof fn law_read_after_fetch(t: Seq<TableMetadataView>, schema: Seq<char>, name: Seq<char>)
    ensures
        forall|i: int|
            0 <= i < t.len() && key_text(t[i].table.schema, t[i].table.name) == key_text(schema, name)
                && (forall|j: int|
                i < j < t.len() ==> key_text(t[j].table.schema, t[j].table.name) != key_text(
                    schema,
                    name,
                )) ==> lookup(map_of(fetched_fk_entries(t)), key_text(schema, name))
                == t[i].foreign_keys && lookup(
                map_of(fetched_index_entries(t)),
                key_text(schema, name),
            ) == t[i].indexes,
        (forall|i: int|
            0 <= i < t.len() ==> key_text(t[i].table.schema, t[i].table.name) != key_text(
                schema,
                name,
            )) ==> lookup(map_of(fetched_fk_entries(t)), key_text(schema, name)).len() == 0
            && lookup(map_of(fetched_index_entries(t)), key_text(schema, name)).len() == 0,
{
    let k = key_text(schema, name);
    let fe = fetched_fk_entries(t);
    let ie = fetched_index_entries(t);
    assert forall|i: int|
        0 <= i < t.len() && key_text(t[i].table.schema, t[i].table.name) == k && (forall|j: int|
            i < j < t.len() ==> key_text(t[j].table.schema, t[j].table.name) != k) implies lookup(
        map_of(fe),
        k,
    ) == t[i].foreign_keys && lookup(map_of(ie), k) == t[i].indexes by {
        assert forall|j: int| i < j < fe.len() implies (#[trigger] fe[j]).0 != fe[i].0 by {
            assert(key_text(t[j].table.schema, t[j].table.name) != k);
        }
        assert forall|j: int| i < j < ie.len() implies (#[trigger] ie[j]).0 != ie[i].0 by {
            assert(key_text(t[j].table.schema, t[j].table.name) != k);
        }
        lemma_map_of_last(fe, i);
        lemma_map_of_last(ie, i);
    }
    if forall|i: int| 0 <= i < t.len() ==> key_text(t[i].table.schema, t[i].table.name) != k {
        assert forall|j: int| 0 <= j < fe.len() implies (#[trigger] fe[j]).0 != k by {
            assert(key_text(t[j].table.schema, t[j].table.name) != k);
        }
        assert forall|j: int| 0 <= j < ie.len() implies (#[trigger] ie[j]).0 != k by {
            assert(key_text(t[j].table.schema, t[j].table.name) != k);
        }
        lemma_map_of_absent(fe, k);
        lemma_map_of_absent(ie, k);
    }
}

} // verus!
