//! The indexes page: every index of every known table, in one list ordered
//! by schema, table and index name.

use vstd::prelude::*;

use crate::text::{chars_of, push_str, string_from_chars};
use crate::types::{views, IndexInfo, IndexView};
use crate::ui::metadata::{key_text, lookup, DbStore};
use crate::ui::roles::{counted, counted_text};

verus! {

/// Whether text `a` sorts before text `b`, character by character, a
/// proper prefix first: the order of `str`'s `<`.
pub open spec fn text_before(a: Seq<char>, b: Seq<char>) -> bool
    decreases a.len(),
{
    if a.len() == 0 {
        b.len() > 0
    } else if b.len() == 0 {
        false
    } else if a[0] != b[0] {
        a[0] < b[0]
    } else {
        text_before(a.drop_first(), b.drop_first())
    }
}

/// Whether index `x` sorts before index `y`: by schema, then table, then
/// index name.
pub open spec fn index_before(x: IndexView, y: IndexView) -> bool {
    if x.table_schema != y.table_schema {
        text_before(x.table_schema, y.table_schema)
    } else if x.table_name != y.table_name {
        text_before(x.table_name, y.table_name)
    } else {
        text_before(x.index_name, y.index_name)
    }
}

/// `s` with `x` inserted after every element that `x` does not sort
/// before.
pub open spec fn insert_sorted(s: Seq<IndexView>, x: IndexView) -> Seq<IndexView>
    decreases s.len(),
{
    if s.len() == 0 || !index_before(x, s.last()) {
        s.push(x)
    } else {
        insert_sorted(s.drop_last(), x).push(s.last())
    }
}

/// The stable sort of `l` by [`index_before`]: each element is inserted
/// after the equal ones that came before it.
pub open spec fn sort_indexes(l: Seq<IndexView>) -> Seq<IndexView>
    decreases l.len(),
{
    if l.len() == 0 {
        l
    } else {
        insert_sorted(sort_indexes(l.drop_last()), l.last())
    }
}

/// Whether no element sorts before an earlier one.
pub open spec fn is_sorted(s: Seq<IndexView>) -> bool {
    forall|i: int, j: int| 0 <= i < j < s.len() ==> !index_before(#[trigger] s[j], #[trigger] s[i])
}

/// The indexes of the tables, in table order: for each table, the list the
/// store holds under its key.
pub open spec fn flattened(tables: Seq<(Seq<char>, Seq<char>)>, m: Map<Seq<char>, Seq<IndexView>>) -> Seq<IndexView>
    decreases tables.len(),
{
    if tables.len() == 0 {
        Seq::empty()
    } else {
        flattened(tables.drop_last(), m) + lookup(m, key_text(tables.last().0, tables.last().1))
    }
}

/// The (schema, name) of each known table.
pub open spec fn table_keys(db: &DbStore) -> Seq<(Seq<char>, Seq<char>)> {
    views(db.tables@).map_values(|t: crate::types::TableView| (t.schema, t.name))
}

/// Whether text `a` sorts before text `b`; see [`text_before`].
pub fn text_lt(a: &str, b: &str) -> (r: bool)
    ensures
        r == text_before(a@, b@),
{
    let x = chars_of(a);
    let y = chars_of(b);
    let mut i: usize = 0;
    assert(a@.skip(0) =~= a@);
    assert(b@.skip(0) =~= b@);
    while i < x.len() && i < y.len()
        invariant
            x@ == a@,
            y@ == b@,
            i <= x@.len(),
            i <= y@.len(),
            x@.take(i as int) == y@.take(i as int),
            text_before(a@, b@) == text_before(a@.skip(i as int), b@.skip(i as int)),
        decreases x@.len() - i,
    {
        proof {
            assert(a@.skip(i as int).drop_first() =~= a@.skip(i + 1));
            assert(b@.skip(i as int).drop_first() =~= b@.skip(i + 1));
            assert(a@.skip(i as int)[0] == x@[i as int]);
            assert(b@.skip(i as int)[0] == y@[i as int]);
        }
        if x[i] != y[i] {
            return x[i] < y[i];
        }
        assert(x@.take(i + 1) =~= x@.take(i as int).push(x@[i as int]));
        assert(y@.take(i + 1) =~= y@.take(i as int).push(y@[i as int]));
        i = i + 1;
    }
    proof {
        assert(a@.skip(i as int).len() == 0 || b@.skip(i as int).len() == 0);
    }
    i < y.len()
}

/// Whether index `x` sorts before index `y`; see [`index_before`].
fn index_lt(x: &IndexInfo, y: &IndexInfo) -> (r: bool)
    ensures
        r == index_before(x@, y@),
{
    if !crate::text::str_eq(x.table_schema.as_str(), y.table_schema.as_str()) {
        text_lt(x.table_schema.as_str(), y.table_schema.as_str())
    } else if !crate::text::str_eq(x.table_name.as_str(), y.table_name.as_str()) {
        text_lt(x.table_name.as_str(), y.table_name.as_str())
    } else {
        text_lt(x.index_name.as_str(), y.index_name.as_str())
    }
}

/// Inserting at the place found from the end.
proof fn lemma_insert_sorted_at(s: Seq<IndexView>, x: IndexView, p: int)
    requires
        0 <= p <= s.len(),
        forall|k: int| p <= k < s.len() ==> index_before(x, #[trigger] s[k]),
        p == 0 || !index_before(x, s[p - 1]),
    ensures
        insert_sorted(s, x) == s.insert(p, x),
    decreases s.len(),
{
    if p == s.len() {
        assert(s.insert(p, x) =~= s.push(x));
    } else {
        let d = s.drop_last();
        assert(index_before(x, s[s.len() - 1]));
        assert forall|k: int| p <= k < d.len() implies index_before(x, #[trigger] d[k]) by {
            assert(d[k] == s[k]);
        }
        if p > 0 {
            assert(d[p - 1] == s[p - 1]);
        }
        lemma_insert_sorted_at(d, x, p);
        assert(d.insert(p, x).push(s.last()) =~= s.insert(p, x));
    }
}

/// Sorts a list of indexes; see [`sort_indexes`].
pub fn sort_index_list(list: Vec<IndexInfo>) -> (r: Vec<IndexInfo>)
    ensures
        views(r@) == sort_indexes(views(list@)),
{
    let ghost l = views(list@);
    let mut out: Vec<IndexInfo> = Vec::new();
    let mut rest = list;
    let mut pending: Vec<IndexInfo> = Vec::new();
    // Take the elements in order: reverse `rest` into `pending`, then pop.
    while rest.len() > 0
        invariant
            views(rest@) + views(pending@).reverse() == l,
        decreases rest@.len(),
    {
        let ghost before_p = views(pending@);
        let ghost before_r = views(rest@);
        let x = rest.pop().unwrap();
        pending.push(x);
        proof {
            assert(views(rest@) =~= before_r.drop_last());
            assert(views(pending@) =~= before_p.push(before_r.last()));
            assert(views(pending@).reverse() =~= seq![before_r.last()] + before_p.reverse());
            assert(views(rest@) + views(pending@).reverse() =~= before_r + before_p.reverse());
        }
    }
    assert(views(pending@).reverse() =~= l) by {
        assert(views(rest@) =~= Seq::<IndexView>::empty());
    }
    let ghost n = l.len();
    while pending.len() > 0
        invariant
            n == l.len(),
            views(pending@).len() + views(out@).len() == n,
            views(out@) == sort_indexes(l.take(views(out@).len() as int)),
            views(pending@).reverse() == l.skip(views(out@).len() as int),
        decreases pending@.len(),
    {
        let ghost m = views(out@).len() as int;
        let ghost before_p = views(pending@);
        let x = pending.pop().unwrap();
        proof {
            assert(views(pending@) =~= before_p.drop_last());
            assert(before_p.reverse()[0] == before_p.last());
            assert(l.skip(m)[0] == l[m]);
            assert(x@ == l[m]);
            assert(views(pending@).reverse() =~= l.skip(m + 1)) by {
                assert(before_p.reverse().drop_first() =~= before_p.drop_last().reverse());
                assert(l.skip(m).drop_first() =~= l.skip(m + 1));
            }
            assert(l.take(m + 1).drop_last() =~= l.take(m));
        }
        let ghost s = views(out@);
        let mut p: usize = out.len();
        while p > 0 && index_lt(&x, &out[p - 1])
            invariant
                p <= out@.len(),
                s == views(out@),
                forall|k: int| p <= k < s.len() ==> index_before(x@, #[trigger] s[k]),
            decreases p,
        {
            assert(s[p - 1] == out@[p - 1]@);
            p = p - 1;
        }
        proof {
            if p > 0 {
                assert(s[p - 1] == out@[p - 1]@);
            }
            lemma_insert_sorted_at(s, x@, p as int);
        }
        out.insert(p, x);
        proof {
            assert(views(out@) =~= s.insert(p as int, l[m]));
        }
    }
    assert(l.take(n as int) =~= l);
    out
}

/// Every index of every known table, in table order, each table's indexes
/// as the store holds them, sorted by schema, table and index name.
pub fn collect_indexes(db: &DbStore) -> (r: Vec<IndexInfo>)
    ensures
        views(r@) == sort_indexes(flattened(table_keys(db), db.index_map())),
{
    let ghost keys = table_keys(db);
    let mut all: Vec<IndexInfo> = Vec::new();
    let mut i: usize = 0;
    while i < db.tables.len()
        invariant
            i <= db.tables@.len(),
            keys == table_keys(db),
            views(all@) == flattened(keys.take(i as int), db.index_map()),
        decreases db.tables@.len() - i,
    {
        let t = &db.tables[i];
        let mut found = db.get_indexes_for_table(t.name.as_str(), t.schema.as_str());
        let ghost before = views(all@);
        all.append(&mut found);
        proof {
            assert(keys.take(i + 1).drop_last() =~= keys.take(i as int));
            assert(keys[i as int] == (t@.schema, t@.name));
            assert(views(all@) =~= before + lookup(db.index_map(), key_text(t@.schema, t@.name)));
        }
        i = i + 1;
    }
    assert(keys.take(keys.len() as int) =~= keys);
    sort_index_list(all)
}

/// The heading of the indexes page: `{n} index(es) across {m} table(s)`.
pub fn indexes_header(index_count: usize, table_count: usize) -> (r: String)
    ensures
        r@ == counted(index_count as nat, "index"@, "es"@) + " across "@ + counted(
            table_count as nat,
            "table"@,
            "s"@,
        ),
{
    let indexes = counted_text(index_count, "index", "es");
    let tables = counted_text(table_count, "table", "s");
    let mut v: Vec<char> = Vec::new();
    push_str(&mut v, indexes.as_str());
    push_str(&mut v, " across ");
    push_str(&mut v, tables.as_str());
    string_from_chars(v.as_slice())
}

proof fn lemma_text_irreflexive(a: Seq<char>)
    ensures
        !text_before(a, a),
    decreases a.len(),
{
    if a.len() > 0 {
        lemma_text_irreflexive(a.drop_first());
    }
}

proof fn lemma_text_total(a: Seq<char>, b: Seq<char>)
    ensures
        a == b || text_before(a, b) || text_before(b, a),
    decreases a.len(),
{
    if a.len() > 0 && b.len() > 0 && a[0] == b[0] {
        lemma_text_total(a.drop_first(), b.drop_first());
        if a.drop_first() == b.drop_first() {
            assert(a =~= seq![a[0]] + a.drop_first());
            assert(b =~= seq![b[0]] + b.drop_first());
        }
    }
    if a.len() == 0 && b.len() == 0 {
        assert(a =~= b);
    }
}

proof fn lemma_text_transitive(a: Seq<char>, b: Seq<char>, c: Seq<char>)
    requires
        text_before(a, b),
        text_before(b, c),
    ensures
        text_before(a, c),
    decreases a.len(),
{
    if a.len() > 0 && b.len() > 0 && c.len() > 0 && a[0] == b[0] && b[0] == c[0] {
        lemma_text_transitive(a.drop_first(), b.drop_first(), c.drop_first());
    }
}

proof fn lemma_text_asymmetric(a: Seq<char>, b: Seq<char>)
    requires
        text_before(a, b),
    ensures
        !text_before(b, a),
{
    if text_before(b, a) {
        lemma_text_transitive(a, b, a);
        lemma_text_irreflexive(a);
    }
}

/// The sort key of an index.
pub open spec fn sort_key(x: IndexView) -> (Seq<char>, Seq<char>, Seq<char>) {
    (x.table_schema, x.table_name, x.index_name)
}

proof fn lemma_index_transitive(x: IndexView, y: IndexView, z: IndexView)
    requires
        index_before(x, y),
        index_before(y, z),
    ensures
        index_before(x, z),
{
    if x.table_schema != y.table_schema && y.table_schema != z.table_schema {
        lemma_text_transitive(x.table_schema, y.table_schema, z.table_schema);
        if x.table_schema == z.table_schema {
            lemma_text_asymmetric(x.table_schema, y.table_schema);
        }
    } else if x.table_schema == y.table_schema && y.table_schema == z.table_schema {
        if x.table_name != y.table_name && y.table_name != z.table_name {
            lemma_text_transitive(x.table_name, y.table_name, z.table_name);
            if x.table_name == z.table_name {
                lemma_text_asymmetric(x.table_name, y.table_name);
            }
        } else if x.table_name == y.table_name && y.table_name == z.table_name {
            lemma_text_transitive(x.index_name, y.index_name, z.index_name);
        }
    }
}

proof fn lemma_index_total(x: IndexView, y: IndexView)
    ensures
        sort_key(x) == sort_key(y) || index_before(x, y) || index_before(y, x),
{
    lemma_text_total(x.table_schema, y.table_schema);
    lemma_text_total(x.table_name, y.table_name);
    lemma_text_total(x.index_name, y.index_name);
}

proof fn lemma_index_asymmetric(x: IndexView, y: IndexView)
    requires
        index_before(x, y),
    ensures
        !index_before(y, x),
{
    if index_before(y, x) {
        lemma_index_transitive(x, y, x);
        lemma_text_irreflexive(x.index_name);
        lemma_text_irreflexive(x.table_name);
        lemma_text_irreflexive(x.table_schema);
    }
}

/// Not sorting before is transitive.
proof fn lemma_index_not_before(x: IndexView, y: IndexView, z: IndexView)
    requires
        !index_before(y, x),
        !index_before(z, y),
    ensures
        !index_before(z, x),
{
    if index_before(z, x) {
        lemma_index_total(x, y);
        if index_before(x, y) {
            lemma_index_transitive(z, x, y);
        } else {
            assert(sort_key(x) == sort_key(y));
            assert(index_before(z, y));
        }
    }
}

proof fn lemma_insert_sorted(s: Seq<IndexView>, x: IndexView)
    requires
        is_sorted(s),
    ensures
        is_sorted(insert_sorted(s, x)),
        insert_sorted(s, x).to_multiset() == s.to_multiset().insert(x),
    decreases s.len(),
{
    broadcast use vstd::seq_lib::group_to_multiset_ensures;

    if s.len() == 0 || !index_before(x, s.last()) {
        let r = s.push(x);
        assert forall|i: int, j: int| 0 <= i < j < r.len() implies !index_before(
            #[trigger] r[j],
            #[trigger] r[i],
        ) by {
            if j == s.len() {
                if i < s.len() - 1 {
                    assert(!index_before(s[s.len() - 1], s[i]));
                    lemma_index_not_before(s[i], s[s.len() - 1], x);
                }
            } else {
                assert(r[i] == s[i] && r[j] == s[j]);
            }
        }
    } else {
        let d = s.drop_last();
        assert(is_sorted(d)) by {
            assert forall|i: int, j: int| 0 <= i < j < d.len() implies !index_before(
                #[trigger] d[j],
                #[trigger] d[i],
            ) by {
                assert(d[i] == s[i] && d[j] == s[j]);
            }
        }
        lemma_insert_sorted(d, x);
        let t = insert_sorted(d, x);
        let last = s.last();
        assert(d.push(last) =~= s);
        assert(t.to_multiset() == d.to_multiset().insert(x));
        assert forall|k: int| 0 <= k < t.len() implies !index_before(last, #[trigger] t[k]) by {
            assert(t.to_multiset().count(t[k]) > 0);
            if t[k] == x {
                lemma_index_asymmetric(x, last);
            } else {
                assert(d.to_multiset().count(t[k]) > 0);
                assert(d.contains(t[k]));
                let m = choose|m: int| 0 <= m < d.len() && d[m] == t[k];
                assert(s[m] == d[m]);
                assert(!index_before(s[s.len() - 1], s[m]));
            }
        }
        let r = t.push(last);
        assert forall|i: int, j: int| 0 <= i < j < r.len() implies !index_before(
            #[trigger] r[j],
            #[trigger] r[i],
        ) by {
            if j == t.len() {
                assert(!index_before(last, t[i]));
            } else {
                assert(r[i] == t[i] && r[j] == t[j]);
            }
        }
        assert(r.to_multiset() =~= s.to_multiset().insert(x)) by {
            assert(r.to_multiset() == t.to_multiset().insert(last));
            assert(s.to_multiset() == d.to_multiset().insert(last));
        }
    }
}

/// The list of indexes is sorted, and holds exactly the indexes given.
pub proof fn law_sort_indexes(l: Seq<IndexView>)
    ensures
        is_sorted(sort_indexes(l)),
        sort_indexes(l).to_multiset() == l.to_multiset(),
    decreases l.len(),
{
    broadcast use vstd::seq_lib::group_to_multiset_ensures;

    if l.len() > 0 {
        law_sort_indexes(l.drop_last());
        lemma_insert_sorted(sort_indexes(l.drop_last()), l.last());
        assert(l.drop_last().push(l.last()) =~= l);
    } else {
        assert(l.to_multiset() =~= sort_indexes(l).to_multiset());
    }
}

} // verus!
