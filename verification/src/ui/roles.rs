//! The roles page: how roles, their limits and their table privileges are
//! summed up and labelled.

use vstd::prelude::*;

use crate::text::{decimal, push_decimal, push_signed_decimal, push_str, signed_decimal, str_eq,
    string_from_chars};
use crate::ui::metadata::{key_text, metadata_key, privileges_of, DbStore};
use crate::types::{copy_strings, strings_view, views, PrivilegeView, RoleInfo, RoleView,
    TablePrivilege};

verus! {

/// An em dash, shown where there is no value.
pub open spec fn em_dash() -> Seq<char> {
    seq!['\u{2014}']
}

/// `{n} {noun}`, with `plural` appended to the noun unless `n` is one.
pub open spec fn counted(n: nat, noun: Seq<char>, plural: Seq<char>) -> Seq<char> {
    decimal(n) + seq![' '] + noun + if n != 1 {
        plural
    } else {
        Seq::empty()
    }
}

/// `{n} {noun}` with the plural ending where `n` is not one; see
/// [`counted`].
pub fn counted_text(n: usize, noun: &str, plural: &str) -> (r: String)
    ensures
        r@ == counted(n as nat, noun@, plural@),
{
    let mut v: Vec<char> = Vec::new();
    push_decimal(&mut v, n as u64);
    v.push(' ');
    push_str(&mut v, noun);
    if n != 1 {
        push_str(&mut v, plural);
    }
    assert(v@ =~= counted(n as nat, noun@, plural@));
    string_from_chars(v.as_slice())
}

/// A connection limit: `unlimited` for -1, otherwise the number.
pub fn format_conn_limit(limit: i32) -> (r: String)
    ensures
        r@ == if limit == -1 {
            "unlimited"@
        } else {
            signed_decimal(limit as int)
        },
{
    if limit == -1 {
        "unlimited".to_owned()
    } else {
        let mut v: Vec<char> = Vec::new();
        push_signed_decimal(&mut v, limit as i64);
        assert(v@ =~= signed_decimal(limit as int));
        string_from_chars(v.as_slice())
    }
}

/// An expiry date as stored, or an em dash where there is none or it is
/// empty.
pub fn format_valid_until(val: &Option<String>) -> (r: String)
    ensures
        r@ == match val {
            Some(s) => if s@.len() > 0 {
                s@
            } else {
                em_dash()
            },
            None => em_dash(),
        },
{
    match val {
        Some(s) => if !s.as_str().is_empty() {
            s.clone()
        } else {
            string_from_chars(&['\u{2014}'])
        },
        None => string_from_chars(&['\u{2014}']),
    }
}

/// `Yes` or `No`.
pub fn yes_no(b: bool) -> (r: &'static str)
    ensures
        r@ == if b {
            "Yes"@
        } else {
            "No"@
        },
{
    if b {
        "Yes"
    } else {
        "No"
    }
}

/// A role's access to tables, summed up: a label and a kind, which picks the
/// badge.
pub struct PermSummary {
    pub label: String,
    pub kind: &'static str,
}

/// Whether a privilege list names `p`.
pub open spec fn names(privileges: Seq<Seq<char>>, p: Seq<char>) -> bool {
    exists|i: int| 0 <= i < privileges.len() && privileges[i] == p
}

/// Whether some grant reads.
pub open spec fn any_select(l: Seq<PrivilegeView>) -> bool {
    exists|i: int| 0 <= i < l.len() && names(l[i].privileges, "SELECT"@)
}

/// Whether some grant writes.
pub open spec fn any_write(l: Seq<PrivilegeView>) -> bool {
    exists|i: int|
        0 <= i < l.len() && (names(l[i].privileges, "INSERT"@) || names(
            l[i].privileges,
            "UPDATE"@,
        ) || names(l[i].privileges, "DELETE"@))
}

/// The summary's label and kind: a superuser is `superuser`; a role without
/// grants has `no table access`; otherwise reading and writing decide,
/// followed by the number of tables granted.
pub open spec fn summary_spec(l: Seq<PrivilegeView>, is_superuser: bool) -> (Seq<char>, Seq<char>) {
    if is_superuser {
        ("superuser"@, "superuser"@)
    } else if l.len() == 0 {
        ("no table access"@, "none"@)
    } else {
        let tables = counted(l.len(), "table"@, "s"@);
        if any_select(l) && any_write(l) {
            ("read-write ("@ + tables + ")"@, "read-write"@)
        } else if any_select(l) {
            ("read-only ("@ + tables + ")"@, "read-only"@)
        } else if any_write(l) {
            ("write-only ("@ + tables + ")"@, "mixed"@)
        } else {
            ("mixed ("@ + tables + ")"@, "mixed"@)
        }
    }
}

/// Whether a privilege list names `p`.
fn names_privilege(privileges: &Vec<String>, p: &str) -> (r: bool)
    ensures
        r == names(strings_view(*privileges), p@),
{
    let ghost l = strings_view(*privileges);
    let mut i: usize = 0;
    while i < privileges.len()
        invariant
            i <= privileges@.len(),
            l == strings_view(*privileges),
            forall|j: int| 0 <= j < i ==> l[j] != p@,
        decreases privileges@.len() - i,
    {
        assert(l[i as int] == privileges@[i as int]@);
        if str_eq(privileges[i].as_str(), p) {
            return true;
        }
        i = i + 1;
    }
    false
}

/// `{prefix}({tables})`.
fn labelled(prefix: &str, tables: &Vec<char>) -> (r: String)
    ensures
        r@ == prefix@ + tables@ + ")"@,
{
    let mut v: Vec<char> = Vec::new();
    push_str(&mut v, prefix);
    let mut i: usize = 0;
    while i < tables.len()
        invariant
            i <= tables@.len(),
            v@ == prefix@ + tables@.take(i as int),
        decreases tables@.len() - i,
    {
        v.push(tables[i]);
        assert(tables@.take(i + 1) =~= tables@.take(i as int).push(tables@[i as int]));
        i = i + 1;
    }
    assert(tables@.take(tables@.len() as int) =~= tables@);
    proof {
        reveal_strlit(")");
    }
    v.push(')');
    assert(v@ =~= prefix@ + tables@ + ")"@);
    string_from_chars(v.as_slice())
}

/// Sums up a role's table access; see [`summary_spec`].
pub fn permission_summary(privileges: &[TablePrivilege], is_superuser: bool) -> (r: PermSummary)
    ensures
        (r.label@, r.kind@) == summary_spec(views(privileges@), is_superuser),
{
    let ghost l = views(privileges@);
    if is_superuser {
        return PermSummary { label: "superuser".to_owned(), kind: "superuser" };
    }
    if privileges.len() == 0 {
        return PermSummary { label: "no table access".to_owned(), kind: "none" };
    }
    let mut has_select = false;
    let mut has_write = false;
    let mut i: usize = 0;
    while i < privileges.len()
        invariant
            i <= privileges@.len(),
            l == views(privileges@),
            has_select == exists|j: int| 0 <= j < i && names(l[j].privileges, "SELECT"@),
            has_write == exists|j: int|
                0 <= j < i && (names(l[j].privileges, "INSERT"@) || names(
                    l[j].privileges,
                    "UPDATE"@,
                ) || names(l[j].privileges, "DELETE"@)),
        decreases privileges@.len() - i,
    {
        let p = &privileges[i];
        assert(l[i as int] == p@);
        if names_privilege(&p.privileges, "SELECT") {
            has_select = true;
        }
        if names_privilege(&p.privileges, "INSERT") || names_privilege(&p.privileges, "UPDATE")
            || names_privilege(&p.privileges, "DELETE") {
            has_write = true;
        }
        i = i + 1;
    }
    let n = privileges.len();
    let mut tables: Vec<char> = Vec::new();
    push_decimal(&mut tables, n as u64);
    tables.push(' ');
    push_str(&mut tables, "table");
    if n != 1 {
        push_str(&mut tables, "s");
    }
    assert(tables@ =~= counted(n as nat, "table"@, "s"@));
    if has_select && has_write {
        PermSummary { label: labelled("read-write (", &tables), kind: "read-write" }
    } else if has_select {
        PermSummary { label: labelled("read-only (", &tables), kind: "read-only" }
    } else if has_write {
        PermSummary { label: labelled("write-only (", &tables), kind: "mixed" }
    } else {
        PermSummary { label: labelled("mixed (", &tables), kind: "mixed" }
    }
}

/// The badge classes of a summary kind.
pub fn perm_badge_class(kind: &str) -> (r: &'static str)
    ensures
        r@ == if kind@ == "superuser"@ {
            "badge badge-danger"@
        } else if kind@ == "read-write"@ {
            "badge badge-success"@
        } else if kind@ == "read-only"@ {
            "badge badge-info"@
        } else if kind@ == "none"@ {
            "badge"@
        } else {
            "badge badge-warn"@
        },
{
    if str_eq(kind, "superuser") {
        "badge badge-danger"
    } else if str_eq(kind, "read-write") {
        "badge badge-success"
    } else if str_eq(kind, "read-only") {
        "badge badge-info"
    } else if str_eq(kind, "none") {
        "badge"
    } else {
        "badge badge-warn"
    }
}

/// The badge classes of a privilege.
pub fn priv_badge_class(priv_name: &str) -> (r: &'static str)
    ensures
        r@ == if priv_name@ == "SELECT"@ {
            "badge badge-success"@
        } else if priv_name@ == "INSERT"@ {
            "badge badge-info"@
        } else if priv_name@ == "UPDATE"@ {
            "badge badge-warn"@
        } else if priv_name@ == "DELETE"@ {
            "badge badge-danger"@
        } else {
            "badge"@
        },
{
    if str_eq(priv_name, "SELECT") {
        "badge badge-success"
    } else if str_eq(priv_name, "INSERT") {
        "badge badge-info"
    } else if str_eq(priv_name, "UPDATE") {
        "badge badge-warn"
    } else if str_eq(priv_name, "DELETE") {
        "badge badge-danger"
    } else {
        "badge"
    }
}

/// The grants of one table, by key `schema.table`, with every privilege
/// granted on it.
pub type PrivilegeGroup = (String, Vec<String>);

/// The index of the group with key `k`, searching from the end.
pub open spec fn find_group(g: Seq<(Seq<char>, Seq<Seq<char>>)>, k: Seq<char>) -> Option<int>
    decreases g.len(),
{
    if g.len() == 0 {
        None
    } else if g.last().0 == k {
        Some(g.len() - 1)
    } else {
        find_group(g.drop_last(), k)
    }
}

/// Grants grouped by table, tables in the order of their first grant, and
/// each table's privileges in the order they were granted.
pub open spec fn group_spec(l: Seq<PrivilegeView>) -> Seq<(Seq<char>, Seq<Seq<char>>)>
    decreases l.len(),
{
    if l.len() == 0 {
        Seq::empty()
    } else {
        let g = group_spec(l.drop_last());
        let p = l.last();
        let k = key_text(p.table_schema, p.table_name);
        match find_group(g, k) {
            Some(i) => g.update(i, (k, g[i].1 + p.privileges)),
            None => g.push((k, p.privileges)),
        }
    }
}

/// The models of a list of groups.
pub open spec fn groups_view(g: Seq<PrivilegeGroup>) -> Seq<(Seq<char>, Seq<Seq<char>>)> {
    g.map_values(|e: PrivilegeGroup| (e.0@, strings_view(e.1)))
}

proof fn lemma_find_group(g: Seq<(Seq<char>, Seq<Seq<char>>)>, k: Seq<char>)
    ensures
        match find_group(g, k) {
            Some(i) => 0 <= i < g.len() && g[i].0 == k,
            None => forall|j: int| 0 <= j < g.len() ==> g[j].0 != k,
        },
    decreases g.len(),
{
    if g.len() > 0 {
        lemma_find_group(g.drop_last(), k);
        if g.last().0 != k && find_group(g.drop_last(), k) is None {
            assert forall|j: int| 0 <= j < g.len() implies g[j].0 != k by {
                if j < g.len() - 1 {
                    assert(g[j] == g.drop_last()[j]);
                }
            }
        }
    }
}

/// The index of the group with key `k`; see [`find_group`].
fn find_group_index(groups: &Vec<PrivilegeGroup>, k: &str) -> (r: Option<usize>)
    ensures
        match r {
            Some(i) => find_group(groups_view(groups@), k@) == Some(i as int),
            None => find_group(groups_view(groups@), k@) is None,
        },
{
    let ghost g = groups_view(groups@);
    let mut i: usize = groups.len();
    assert(g.take(g.len() as int) =~= g);
    while i > 0
        invariant
            i <= groups@.len(),
            g == groups_view(groups@),
            find_group(g, k@) == find_group(g.take(i as int), k@),
        decreases i,
    {
        let j = i - 1;
        proof {
            assert(g.take(i as int).drop_last() =~= g.take(j as int));
            assert(g[j as int].0 == groups@[j as int].0@);
        }
        if str_eq(groups[j].0.as_str(), k) {
            return Some(j);
        }
        i = j;
    }
    None
}

/// `a` followed by `b`.
fn concat_strings(a: &Vec<String>, b: &Vec<String>) -> (r: Vec<String>)
    ensures
        strings_view(r) == strings_view(*a) + strings_view(*b),
{
    let mut r = copy_strings(a);
    let mut i: usize = 0;
    while i < b.len()
        invariant
            i <= b@.len(),
            strings_view(r) == strings_view(*a) + strings_view(*b).take(i as int),
        decreases b@.len() - i,
    {
        let ghost before = strings_view(r);
        r.push(b[i].clone());
        assert(strings_view(r) =~= before.push(b@[i as int]@));
        assert(strings_view(*b).take(i + 1) =~= strings_view(*b).take(i as int).push(b@[i as int]@));
        i = i + 1;
    }
    assert(strings_view(*b).take(strings_view(*b).len() as int) =~= strings_view(*b));
    r
}

/// Groups grants by table; see [`group_spec`].
pub fn group_privileges(privileges: &[TablePrivilege]) -> (r: Vec<PrivilegeGroup>)
    ensures
        groups_view(r@) == group_spec(views(privileges@)),
{
    let ghost l = views(privileges@);
    let mut groups: Vec<PrivilegeGroup> = Vec::new();
    let mut i: usize = 0;
    while i < privileges.len()
        invariant
            i <= privileges@.len(),
            l == views(privileges@),
            groups_view(groups@) == group_spec(l.take(i as int)),
        decreases privileges@.len() - i,
    {
        let p = &privileges[i];
        let key = metadata_key(p.table_schema.as_str(), p.table_name.as_str());
        let ghost g = groups_view(groups@);
        proof {
            assert(l.take(i + 1).drop_last() =~= l.take(i as int));
            assert(l[i as int] == p@);
        }
        match find_group_index(&groups, key.as_str()) {
            Some(j) => {
                proof {
                    lemma_find_group(g, key@);
                }
                let merged = concat_strings(&groups[j].1, &p.privileges);
                groups.set(j, (key, merged));
                assert(groups_view(groups@) =~= g.update(
                    j as int,
                    (key_text(p@.table_schema, p@.table_name), g[j as int].1 + p@.privileges),
                ));
            },
            None => {
                let list = copy_strings(&p.privileges);
                groups.push((key, list));
                assert(groups_view(groups@) =~= g.push(
                    (key_text(p@.table_schema, p@.table_name), p@.privileges),
                ));
            },
        }
        i = i + 1;
    }
    assert(l.take(l.len() as int) =~= l);
    groups
}

/// Whether some group has key `k`.
pub open spec fn has_group(g: Seq<(Seq<char>, Seq<Seq<char>>)>, k: Seq<char>) -> bool {
    exists|a: int| 0 <= a < g.len() && g[a].0 == k
}

/// Whether some grant is on the table with key `k`.
pub open spec fn has_grant_on(l: Seq<PrivilegeView>, k: Seq<char>) -> bool {
    exists|i: int| 0 <= i < l.len() && key_text(l[i].table_schema, l[i].table_name) == k
}

/// Each table appears in at most one group, and a table has a group
/// exactly when some grant is on it.
pub proof fn law_groups_by_table(l: Seq<PrivilegeView>)
    ensures
        forall|a: int, b: int|
            0 <= a < group_spec(l).len() && 0 <= b < group_spec(l).len() && a != b ==> (
            #[trigger] group_spec(l)[a]).0 != (#[trigger] group_spec(l)[b]).0,
        forall|k: Seq<char>| #[trigger] has_group(group_spec(l), k) <==> has_grant_on(l, k),
    decreases l.len(),
{
    if l.len() > 0 {
        let d = l.drop_last();
        law_groups_by_table(d);
        let g = group_spec(d);
        let p = l.last();
        let k = key_text(p.table_schema, p.table_name);
        lemma_find_group(g, k);
        let r = group_spec(l);
        assert forall|a: int, b: int|
            0 <= a < r.len() && 0 <= b < r.len() && a != b implies (#[trigger] r[a]).0 != (
            #[trigger] r[b]).0 by {
            if a < g.len() && b < g.len() {
                assert(g[a].0 != g[b].0);
            }
        }
        assert forall|q: Seq<char>| #[trigger] has_group(r, q) <==> has_grant_on(l, q) by {
            assert(has_group(g, q) <==> has_grant_on(d, q));
            if has_group(r, q) {
                let a = choose|a: int| 0 <= a < r.len() && r[a].0 == q;
                if q == k {
                    assert(key_text(l[l.len() - 1].table_schema, l[l.len() - 1].table_name) == q);
                } else {
                    assert(g[a].0 == q);
                    let i = choose|i: int|
                        0 <= i < d.len() && key_text(d[i].table_schema, d[i].table_name) == q;
                    assert(l[i] == d[i]);
                }
            }
            if has_grant_on(l, q) {
                let i = choose|i: int|
                    0 <= i < l.len() && key_text(l[i].table_schema, l[i].table_name) == q;
                if q == k {
                    match find_group(g, k) {
                        Some(j) => assert(r[j].0 == q),
                        None => assert(r[r.len() - 1].0 == q),
                    }
                } else {
                    assert(i < d.len());
                    assert(d[i] == l[i]);
                    assert(has_grant_on(d, q));
                    let a = choose|a: int| 0 <= a < g.len() && g[a].0 == q;
                    assert(r[a].0 == q);
                }
            }
        }
    }
}

/// The roles that can log in, in order.
pub open spec fn users_of(l: Seq<RoleView>) -> Seq<RoleView>
    decreases l.len(),
{
    if l.len() == 0 {
        l
    } else if l.last().can_login {
        users_of(l.drop_last()).push(l.last())
    } else {
        users_of(l.drop_last())
    }
}

/// The roles that cannot log in, in order.
pub open spec fn groups_of(l: Seq<RoleView>) -> Seq<RoleView>
    decreases l.len(),
{
    if l.len() == 0 {
        l
    } else if !l.last().can_login {
        groups_of(l.drop_last()).push(l.last())
    } else {
        groups_of(l.drop_last())
    }
}

/// Splits roles into users, who can log in, and groups, who cannot, each in
/// the order given.
pub fn split_roles(roles: &[RoleInfo]) -> (r: (Vec<RoleInfo>, Vec<RoleInfo>))
    ensures
        views(r.0@) == users_of(views(roles@)),
        views(r.1@) == groups_of(views(roles@)),
{
    let ghost l = views(roles@);
    let mut users: Vec<RoleInfo> = Vec::new();
    let mut groups: Vec<RoleInfo> = Vec::new();
    let mut i: usize = 0;
    while i < roles.len()
        invariant
            i <= roles@.len(),
            l == views(roles@),
            views(users@) == users_of(l.take(i as int)),
            views(groups@) == groups_of(l.take(i as int)),
        decreases roles@.len() - i,
    {
        proof {
            assert(l.take(i + 1).drop_last() =~= l.take(i as int));
            assert(l[i as int] == roles@[i as int]@);
        }
        let ghost bu = views(users@);
        let ghost bg = views(groups@);
        if roles[i].can_login {
            users.push(roles[i].copy());
            assert(views(users@) =~= bu.push(l[i as int]));
        } else {
            groups.push(roles[i].copy());
            assert(views(groups@) =~= bg.push(l[i as int]));
        }
        i = i + 1;
    }
    assert(l.take(l.len() as int) =~= l);
    (users, groups)
}

/// Every role is a user or a group, never both.
pub proof fn law_split_roles(l: Seq<RoleView>)
    ensures
        users_of(l).len() + groups_of(l).len() == l.len(),
        forall|i: int| 0 <= i < users_of(l).len() ==> (#[trigger] users_of(l)[i]).can_login,
        forall|i: int| 0 <= i < groups_of(l).len() ==> !(#[trigger] groups_of(l)[i]).can_login,
    decreases l.len(),
{
    if l.len() > 0 {
        law_split_roles(l.drop_last());
        let u = users_of(l);
        let g = groups_of(l);
        let du = users_of(l.drop_last());
        let dg = groups_of(l.drop_last());
        assert forall|i: int| 0 <= i < u.len() implies (#[trigger] u[i]).can_login by {
            if i < du.len() {
                assert(u[i] == du[i]);
            }
        }
        assert forall|i: int| 0 <= i < g.len() implies !(#[trigger] g[i]).can_login by {
            if i < dg.len() {
                assert(g[i] == dg[i]);
            }
        }
    }
}

/// The heading of the roles page: `{u} user(s), {g} group(s)`.
pub fn roles_header(user_count: usize, group_count: usize) -> (r: String)
    ensures
        r@ == counted(user_count as nat, "user"@, "s"@) + ", "@ + counted(
            group_count as nat,
            "group"@,
            "s"@,
        ),
{
    let users = counted_text(user_count, "user", "s");
    let groups = counted_text(group_count, "group", "s");
    let mut v: Vec<char> = Vec::new();
    push_str(&mut v, users.as_str());
    push_str(&mut v, ", ");
    push_str(&mut v, groups.as_str());
    string_from_chars(v.as_slice())
}

/// The count after the "Table Permissions" heading: ` ({n} table(s))`,
/// or nothing where there are no grants.
pub fn permissions_count(n: usize) -> (r: Option<String>)
    ensures
        match r {
            Some(t) => n > 0 && t@ == " ("@ + counted(n as nat, "table"@, "s"@) + ")"@,
            None => n == 0,
        },
{
    if n == 0 {
        None
    } else {
        let tables = counted_text(n, "table", "s");
        let mut v: Vec<char> = Vec::new();
        push_str(&mut v, " (");
        push_str(&mut v, tables.as_str());
        push_str(&mut v, ")");
        Some(string_from_chars(v.as_slice()))
    }
}

/// What the role panel shows under "Table Permissions".
pub enum RolePermissions {
    /// A superuser has full access to all tables.
    FullAccess,
    /// No direct table permissions.
    NoDirect,
    /// The grants, by table.
    Grouped(Vec<PrivilegeGroup>),
}

/// What the role panel shows under "Table Permissions": full access for a
/// superuser, nothing for a role without grants, otherwise the grants by
/// table.
pub fn role_permissions(is_superuser: bool, privileges: &[TablePrivilege]) -> (r: RolePermissions)
    ensures
        match r {
            RolePermissions::FullAccess => is_superuser,
            RolePermissions::NoDirect => !is_superuser && privileges@.len() == 0,
            RolePermissions::Grouped(g) => !is_superuser && privileges@.len() > 0 && groups_view(g@)
                == group_spec(views(privileges@)),
        },
{
    if is_superuser {
        RolePermissions::FullAccess
    } else if privileges.len() == 0 {
        RolePermissions::NoDirect
    } else {
        RolePermissions::Grouped(group_privileges(privileges))
    }
}

/// The first role named `name`.
pub fn find_role(roles: &[RoleInfo], name: &str) -> (r: Option<RoleInfo>)
    ensures
        match r {
            Some(role) => exists|i: int|
                0 <= i < roles@.len() && roles@[i]@ == role@ && role@.role_name == name@ && forall|
                    j: int,
                | 0 <= j < i ==> roles@[j]@.role_name != name@,
            None => forall|i: int| 0 <= i < roles@.len() ==> roles@[i]@.role_name != name@,
        },
{
    let mut i: usize = 0;
    while i < roles.len()
        invariant
            i <= roles@.len(),
            forall|j: int| 0 <= j < i ==> roles@[j]@.role_name != name@,
        decreases roles@.len() - i,
    {
        if str_eq(roles[i].role_name.as_str(), name) {
            return Some(roles[i].copy());
        }
        i = i + 1;
    }
    None
}

/// The summary of a role's access, from the grants the store holds for it.
pub fn summary_for_role(db: &DbStore, role: &RoleInfo) -> (r: PermSummary)
    ensures
        (r.label@, r.kind@) == summary_spec(
            privileges_of(views(db.table_privileges@), role@.role_name),
            role.is_superuser,
        ),
{
    let privileges = db.get_privileges_for_role(role.role_name.as_str());
    permission_summary(privileges.as_slice(), role.is_superuser)
}

} // verus!
