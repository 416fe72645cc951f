//! Saved connections: the ten most recently used, newest first.
//!
//! Saving a connection that is already in the list (same host, port,
//! database and user) moves it to the front with a fresh time; otherwise a
//! new entry goes to the front. The list keeps at most ten entries. The
//! caller persists the list it is given and, once that succeeded, keeps it.
//!
//! Times are milliseconds since the epoch; identifiers are drawn by the
//! caller from the clock and a random number (see [`generate_id`]).

use vstd::prelude::*;

use crate::text::{hex, push_hex, str_eq, string_from_chars};

verus! {

/// How many connections are kept.
pub const MAX_SAVED: usize = 10;

/// A connection the user made before, without its password.
pub struct SavedConnection {
    pub id: String,
    pub host: String,
    pub port: String,
    pub database: String,
    pub username: String,
    pub saved_at: u64,
}

/// The model of a [`SavedConnection`].
pub ghost struct SavedView {
    pub id: Seq<char>,
    pub host: Seq<char>,
    pub port: Seq<char>,
    pub database: Seq<char>,
    pub username: Seq<char>,
    pub saved_at: u64,
}

/// What tells two saved connections apart: host, port, database and user.
pub ghost struct ConnKey {
    pub host: Seq<char>,
    pub port: Seq<char>,
    pub database: Seq<char>,
    pub username: Seq<char>,
}

impl View for SavedConnection {
    type V = SavedView;

    open spec fn view(&self) -> SavedView {
        SavedView {
            id: self.id@,
            host: self.host@,
            port: self.port@,
            database: self.database@,
            username: self.username@,
            saved_at: self.saved_at,
        }
    }
}

impl SavedConnection {
    /// An independent copy.
    pub fn copy(&self) -> (r: SavedConnection)
        ensures
            r@ == self@,
    {
        SavedConnection {
            id: self.id.clone(),
            host: self.host.clone(),
            port: self.port.clone(),
            database: self.database.clone(),
            username: self.username.clone(),
            saved_at: self.saved_at,
        }
    }

    /// Whether this is the connection to `host:port/database` as `username`.
    fn is_for(&self, host: &str, port: &str, database: &str, username: &str) -> (r: bool)
        ensures
            r == (key_of(self@) == ConnKey {
                host: host@,
                port: port@,
                database: database@,
                username: username@,
            }),
    {
        str_eq(self.host.as_str(), host) && str_eq(self.port.as_str(), port) && str_eq(
            self.database.as_str(),
            database,
        ) && str_eq(self.username.as_str(), username)
    }
}

/// The key of a saved connection.
pub open spec fn key_of(c: SavedView) -> ConnKey {
    ConnKey { host: c.host, port: c.port, database: c.database, username: c.username }
}

/// The views of a list of saved connections.
pub open spec fn saved_view(v: Seq<SavedConnection>) -> Seq<SavedView> {
    v.map_values(|c: SavedConnection| c@)
}

/// The index of the first entry with key `k`.
pub open spec fn position_of(l: Seq<SavedView>, k: ConnKey) -> Option<int> {
    if exists|i: int| 0 <= i < l.len() && key_of(l[i]) == k {
        Some(
            choose|i: int|
                0 <= i < l.len() && key_of(l[i]) == k && forall|j: int|
                    0 <= j < i ==> key_of(l[j]) != k,
        )
    } else {
        None
    }
}

/// At most the first ten entries.
pub open spec fn keep_recent(l: Seq<SavedView>) -> Seq<SavedView> {
    if l.len() > MAX_SAVED {
        l.take(MAX_SAVED as int)
    } else {
        l
    }
}

/// The list after saving the connection with key `k` at time `now`: its
/// entry, or a new one with identifier `new_id`, goes to the front with
/// that time, and the list keeps its first ten entries.
pub open spec fn save_spec(l: Seq<SavedView>, k: ConnKey, new_id: Seq<char>, now: u64) -> Seq<
    SavedView,
> {
    keep_recent(
        match position_of(l, k) {
            Some(i) => seq![SavedView { saved_at: now, ..l[i] }] + l.remove(i),
            None => seq![
                SavedView {
                    id: new_id,
                    host: k.host,
                    port: k.port,
                    database: k.database,
                    username: k.username,
                    saved_at: now,
                },
            ] + l,
        },
    )
}

/// The list after removing the entries with identifier `id`.
pub open spec fn remove_spec(l: Seq<SavedView>, id: Seq<char>) -> Seq<SavedView>
    decreases l.len(),
{
    if l.len() == 0 {
        l
    } else if l.last().id == id {
        remove_spec(l.drop_last(), id)
    } else {
        remove_spec(l.drop_last(), id).push(l.last())
    }
}

/// `format!("{:x}-{:x}", now, rand)`.
pub open spec fn id_text(now: u64, rand: u64) -> Seq<char> {
    hex(now as nat) + seq!['-'] + hex(rand as nat)
}

/// An identifier for a new entry from the time in milliseconds and a random
/// number: both in lower-case hexadecimal, joined by `-`.
pub fn generate_id(now: u64, rand: u64) -> (r: String)
    ensures
        r@ == id_text(now, rand),
{
    let mut v: Vec<char> = Vec::new();
    push_hex(&mut v, now);
    v.push('-');
    push_hex(&mut v, rand);
    assert(v@ =~= id_text(now, rand));
    string_from_chars(v.as_slice())
}

/// The saved connections, and whether they were read from storage yet.
pub struct ConnectionStore {
    pub connections: Vec<SavedConnection>,
    pub is_loaded: bool,
}

proof fn lemma_position_is(l: Seq<SavedView>, k: ConnKey, i: int)
    requires
        0 <= i < l.len(),
        key_of(l[i]) == k,
        forall|j: int| 0 <= j < i ==> key_of(l[j]) != k,
    ensures
        position_of(l, k) == Some(i),
{
    let w = choose|w: int|
        0 <= w < l.len() && key_of(l[w]) == k && forall|j: int| 0 <= j < w ==> key_of(l[j]) != k;
    assert(w == i) by {
        if w < i {
            assert(key_of(l[w]) != k);
        }
        if i < w {
            assert(key_of(l[i]) != k);
        }
    }
}

/// A copy of a list of saved connections.
fn copy_list(v: &Vec<SavedConnection>) -> (r: Vec<SavedConnection>)
    ensures
        saved_view(r@) == saved_view(v@),
{
    let mut r: Vec<SavedConnection> = Vec::new();
    let mut i: usize = 0;
    while i < v.len()
        invariant
            i <= v@.len(),
            r@.len() == i,
            forall|j: int| 0 <= j < i ==> (#[trigger] r@[j])@ == v@[j]@,
        decreases v@.len() - i,
    {
        r.push(v[i].copy());
        i = i + 1;
    }
    assert(saved_view(r@) =~= saved_view(v@));
    r
}

/// The index of the first entry for `host:port/database` as `username`.
fn find_position(
    conns: &Vec<SavedConnection>,
    host: &str,
    port: &str,
    database: &str,
    username: &str,
) -> (r: Option<usize>)
    ensures
        ({
            let k = ConnKey { host: host@, port: port@, database: database@, username: username@ };
            match r {
                Some(i) => i < conns@.len() && position_of(saved_view(conns@), k) == Some(i as int),
                None => position_of(saved_view(conns@), k) is None,
            }
        }),
{
    let ghost l = saved_view(conns@);
    let ghost k = ConnKey { host: host@, port: port@, database: database@, username: username@ };
    let mut i: usize = 0;
    while i < conns.len()
        invariant
            i <= conns@.len(),
            l == saved_view(conns@),
            k == (ConnKey { host: host@, port: port@, database: database@, username: username@ }),
            forall|j: int| 0 <= j < i ==> key_of(l[j]) != k,
        decreases conns@.len() - i,
    {
        assert(l[i as int] == conns@[i as int]@);
        if conns[i].is_for(host, port, database, username) {
            proof {
                lemma_position_is(l, k, i as int);
            }
            return Some(i);
        }
        i = i + 1;
    }
    None
}

impl ConnectionStore {
    /// Nothing saved, nothing read yet.
    pub fn init() -> (s: ConnectionStore)
        ensures
            s.connections@.len() == 0,
            !s.is_loaded,
    {
        ConnectionStore { connections: Vec::new(), is_loaded: false }
    }

    /// Records the outcome of reading the saved list from storage: the list
    /// where there was one; either way reading is done.
    pub fn finish_loading(&mut self, loaded: Option<Vec<SavedConnection>>)
        ensures
            final(self).is_loaded,
            saved_view(final(self).connections@) == match loaded {
                Some(l) => saved_view(l@),
                None => saved_view(old(self).connections@),
            },
    {
        match loaded {
            Some(l) => self.connections = l,
            None => {},
        }
        self.is_loaded = true;
    }

    /// The list to store after saving a connection at time `now`; see
    /// [`save_spec`]. `new_id` is used only where the connection is new.
    pub fn save_connection(
        &self,
        host: String,
        port: String,
        database: String,
        username: String,
        new_id: String,
        now: u64,
    ) -> (r: Vec<SavedConnection>)
        ensures
            saved_view(r@) == save_spec(
                saved_view(self.connections@),
                ConnKey { host: host@, port: port@, database: database@, username: username@ },
                new_id@,
                now,
            ),
    {
        let ghost l = saved_view(self.connections@);
        let ghost k = ConnKey { host: host@, port: port@, database: database@, username: username@ };
        let mut conns = copy_list(&self.connections);
        let found = find_position(&conns, host.as_str(), port.as_str(), database.as_str(), username.as_str());
        match found {
            Some(idx) => {
                let mut existing = conns.remove(idx);
                existing.saved_at = now;
                let ghost rest = conns@;
                conns.insert(0, existing);
                assert(saved_view(conns@) =~= seq![SavedView { saved_at: now, ..l[idx as int] }]
                    + l.remove(idx as int)) by {
                    assert(saved_view(rest) =~= l.remove(idx as int));
                }
            },
            None => {
                let entry = SavedConnection { id: new_id, host, port, database, username, saved_at: now };
                let ghost e = entry@;
                conns.insert(0, entry);
                assert(saved_view(conns@) =~= seq![e] + l);
            },
        }
        let ghost full = saved_view(conns@);
        conns.truncate(MAX_SAVED);
        assert(saved_view(conns@) =~= keep_recent(full));
        conns
    }

    /// The list to store after removing the connection with identifier
    /// `id`; see [`remove_spec`].
    pub fn remove_connection(&self, id: &str) -> (r: Vec<SavedConnection>)
        ensures
            saved_view(r@) == remove_spec(saved_view(self.connections@), id@),
    {
        let ghost l = saved_view(self.connections@);
        let mut kept: Vec<SavedConnection> = Vec::new();
        let mut i: usize = 0;
        while i < self.connections.len()
            invariant
                i <= self.connections@.len(),
                l == saved_view(self.connections@),
                saved_view(kept@) == remove_spec(l.take(i as int), id@),
            decreases self.connections@.len() - i,
        {
            proof {
                assert(l.take(i + 1).drop_last() =~= l.take(i as int));
                assert(l[i as int] == self.connections@[i as int]@);
            }
            if !str_eq(self.connections[i].id.as_str(), id) {
                let ghost before = saved_view(kept@);
                kept.push(self.connections[i].copy());
                assert(saved_view(kept@) =~= before.push(l[i as int]));
            }
            i = i + 1;
        }
        assert(l.take(l.len() as int) =~= l);
        kept
    }
}

/// Whether two different entries may stand in one list: their identifiers
/// and their keys differ.
pub open spec fn distinct_entries(a: SavedView, b: SavedView) -> bool {
    a.id != b.id && key_of(a) != key_of(b)
}

/// Whether every two entries of a list are distinct.
pub open spec fn all_distinct(l: Seq<SavedView>) -> bool {
    forall|i: int, j: int|
        0 <= i < l.len() && 0 <= j < l.len() && i != j ==> distinct_entries(
            #[trigger] l[i],
            #[trigger] l[j],
        )
}

/// Whether some entry has identifier `id`.
pub open spec fn id_in_use(l: Seq<SavedView>, id: Seq<char>) -> bool {
    exists|i: int| 0 <= i < l.len() && l[i].id == id
}

/// What `position_of` gives: the first entry with the key, or `None` where
/// no entry has it.
proof fn lemma_position(l: Seq<SavedView>, k: ConnKey)
    ensures
        match position_of(l, k) {
            Some(i) => 0 <= i < l.len() && key_of(l[i]) == k,
            None => forall|j: int| 0 <= j < l.len() ==> key_of(l[j]) != k,
        },
{
    if exists|i: int| 0 <= i < l.len() && key_of(l[i]) == k {
        let i = choose|i: int| 0 <= i < l.len() && key_of(l[i]) == k;
        lemma_least(l, k, i);
    }
}

proof fn lemma_least(l: Seq<SavedView>, k: ConnKey, i: int)
    requires
        0 <= i < l.len(),
        key_of(l[i]) == k,
    ensures
        exists|w: int|
            0 <= w < l.len() && key_of(l[w]) == k && forall|j: int|
                0 <= j < w ==> key_of(l[j]) != k,
    decreases i,
{
    if exists|j: int| 0 <= j < i && key_of(l[j]) == k {
        let j = choose|j: int| 0 <= j < i && key_of(l[j]) == k;
        lemma_least(l, k, j);
    } else {
        assert(forall|j: int| 0 <= j < i ==> key_of(l[j]) != k);
    }
}

/// After a save the connection is first in the list, with the time of the
/// save, under its old identifier if it was in the list and under `new_id`
/// otherwise; the list holds at most ten entries.
pub proof fn law_save_puts_it_first(l: Seq<SavedView>, k: ConnKey, new_id: Seq<char>, now: u64)
    ensures
        ({
            let r = save_spec(l, k, new_id, now);
            &&& 1 <= r.len() <= MAX_SAVED
            &&& key_of(r[0]) == k
            &&& r[0].saved_at == now
            &&& match position_of(l, k) {
                Some(i) => r[0].id == l[i].id,
                None => r[0].id == new_id,
            }
        }),
{
    lemma_position(l, k);
}

/// Saving keeps the entries distinct: no two share an identifier or a key,
/// given an identifier for a new entry that no entry has.
pub proof fn law_save_keeps_entries_distinct(
    l: Seq<SavedView>,
    k: ConnKey,
    new_id: Seq<char>,
    now: u64,
)
    requires
        all_distinct(l),
        !id_in_use(l, new_id),
    ensures
        all_distinct(save_spec(l, k, new_id, now)),
{
    lemma_position(l, k);
    let full = match position_of(l, k) {
        Some(i) => seq![SavedView { saved_at: now, ..l[i] }] + l.remove(i),
        None => seq![
            SavedView {
                id: new_id,
                host: k.host,
                port: k.port,
                database: k.database,
                username: k.username,
                saved_at: now,
            },
        ] + l,
    };
    // Each entry of `full` after the first is an entry of `l`, at `src(j)`.
    assert forall|a: int, b: int|
        0 <= a < full.len() && 0 <= b < full.len() && a != b implies distinct_entries(
        #[trigger] full[a],
        #[trigger] full[b],
    ) by {
        match position_of(l, k) {
            Some(i) => {
                let sa = if a == 0 { i } else if a - 1 < i { a - 1 } else { a };
                let sb = if b == 0 { i } else if b - 1 < i { b - 1 } else { b };
                assert(key_of(full[a]) == key_of(l[sa]) && full[a].id == l[sa].id);
                assert(key_of(full[b]) == key_of(l[sb]) && full[b].id == l[sb].id);
                assert(distinct_entries(l[sa], l[sb]));
            },
            None => {
                if a == 0 {
                    assert(full[b] == l[b - 1]);
                    assert(l[b - 1].id != new_id);
                } else if b == 0 {
                    assert(full[a] == l[a - 1]);
                    assert(l[a - 1].id != new_id);
                } else {
                    assert(full[a] == l[a - 1] && full[b] == l[b - 1]);
                    assert(distinct_entries(l[a - 1], l[b - 1]));
                }
            },
        }
    }
    let r = save_spec(l, k, new_id, now);
    assert forall|a: int, b: int|
        0 <= a < r.len() && 0 <= b < r.len() && a != b implies distinct_entries(
        #[trigger] r[a],
        #[trigger] r[b],
    ) by {
        assert(r[a] == full[a] && r[b] == full[b]);
    }
}

/// Refreshing the time of the first entry of a kept list is refreshing it
/// before keeping.
proof fn lemma_refresh_first(f: Seq<SavedView>, t: u64)
    requires
        f.len() >= 1,
    ensures
        ({
            let r = keep_recent(f);
            keep_recent(seq![SavedView { saved_at: t, ..r[0] }] + r.remove(0)) == keep_recent(
                seq![SavedView { saved_at: t, ..f[0] }] + f.skip(1),
            )
        }),
{
    let r = keep_recent(f);
    let g = seq![SavedView { saved_at: t, ..r[0] }] + r.remove(0);
    let h = seq![SavedView { saved_at: t, ..f[0] }] + f.skip(1);
    if f.len() > MAX_SAVED {
        assert(g =~= h.take(MAX_SAVED as int));
    } else {
        assert(g =~= h);
    }
}

/// Saving a connection a second time only refreshes its time: the list is
/// what one save at the later time would have made.
pub proof fn law_save_twice(
    l: Seq<SavedView>,
    k: ConnKey,
    id1: Seq<char>,
    t1: u64,
    id2: Seq<char>,
    t2: u64,
)
    ensures
        save_spec(save_spec(l, k, id1, t1), k, id2, t2) == save_spec(l, k, id1, t2),
{
    let r1 = save_spec(l, k, id1, t1);
    law_save_puts_it_first(l, k, id1, t1);
    lemma_position_is(r1, k, 0);
    let f1 = match position_of(l, k) {
        Some(i) => seq![SavedView { saved_at: t1, ..l[i] }] + l.remove(i),
        None => seq![
            SavedView {
                id: id1,
                host: k.host,
                port: k.port,
                database: k.database,
                username: k.username,
                saved_at: t1,
            },
        ] + l,
    };
    let f2 = match position_of(l, k) {
        Some(i) => seq![SavedView { saved_at: t2, ..l[i] }] + l.remove(i),
        None => seq![
            SavedView {
                id: id1,
                host: k.host,
                port: k.port,
                database: k.database,
                username: k.username,
                saved_at: t2,
            },
        ] + l,
    };
    assert(r1 == keep_recent(f1));
    lemma_refresh_first(f1, t2);
    assert(seq![SavedView { saved_at: t2, ..f1[0] }] + f1.skip(1) =~= f2);
}

/// What removing a connection leaves: no entry with that identifier, every
/// other entry, in the same order.
pub proof fn law_remove(l: Seq<SavedView>, id: Seq<char>)
    ensures
        !id_in_use(remove_spec(l, id), id),
        forall|x: SavedView| #[trigger] remove_spec(l, id).contains(x) <==> (l.contains(x) && x.id != id),
    decreases l.len(),
{
    if l.len() > 0 {
        let d = l.drop_last();
        law_remove(d, id);
        let r = remove_spec(l, id);
        let rd = remove_spec(d, id);
        assert(d.push(l.last()) =~= l);
        assert forall|x: SavedView| #[trigger] r.contains(x) <==> (l.contains(x) && x.id != id) by {
            if r.contains(x) {
                let k = choose|k: int| 0 <= k < r.len() && r[k] == x;
                if l.last().id == id || k < rd.len() {
                    assert(rd[k] == x);
                    assert(rd.contains(x));
                    let m = choose|m: int| 0 <= m < d.len() && d[m] == x;
                    assert(l[m] == x);
                } else {
                    assert(l[l.len() - 1] == x);
                }
            }
            if l.contains(x) && x.id != id {
                let k = choose|k: int| 0 <= k < l.len() && l[k] == x;
                if k < d.len() {
                    assert(d[k] == x);
                    assert(rd.contains(x));
                    let m = choose|m: int| 0 <= m < rd.len() && rd[m] == x;
                    if l.last().id != id {
                        assert(r[m] == x);
                    }
                } else {
                    assert(r[r.len() - 1] == x);
                }
            }
        }
        assert(!id_in_use(r, id)) by {
            if id_in_use(r, id) {
                let k = choose|k: int| 0 <= k < r.len() && r[k].id == id;
                assert(r.contains(r[k]));
            }
        }
    }
}

} // verus!
