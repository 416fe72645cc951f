//! The data table's header: what a click on a column header asks the server
//! to sort by.

use vstd::prelude::*;

use crate::json::{cell_text, format_value, JsonModel, JsonValue};
use crate::text::{push_str, str_eq, string_from_chars};
use crate::types::{views, ForeignKeyInfo, ForeignKeyView, SortDirection, SortSpec, SortView};

verus! {

/// The sort after a click on the header of `column`: a column not sorted by
/// yet starts ascending, ascending turns descending, and descending goes back
/// to the server's default order.
pub open spec fn next_sort_spec(current: Option<SortView>, column: Seq<char>) -> Option<SortView> {
    match current {
        Some(s) => if s.column == column && s.direction == SortDirection::Asc {
            Some(SortView { column, direction: SortDirection::Desc })
        } else if s.column == column {
            None
        } else {
            Some(SortView { column, direction: SortDirection::Asc })
        },
        None => Some(SortView { column, direction: SortDirection::Asc }),
    }
}

/// The view of an optional sort.
pub open spec fn sort_view(s: Option<SortSpec>) -> Option<SortView> {
    match s {
        Some(s) => Some(s@),
        None => None,
    }
}

/// The sort after a click on the header of `column`; see
/// [`next_sort_spec`].
pub fn next_sort(current: Option<&SortSpec>, column: &str) -> (r: Option<SortSpec>)
    ensures
        sort_view(r) == next_sort_spec(
            match current {
                Some(s) => Some(s@),
                None => None,
            },
            column@,
        ),
{
    match current {
        Some(sort) => {
            if str_eq(sort.column.as_str(), column) && !sort.direction.is_descending() {
                Some(SortSpec { column: column.to_owned(), direction: SortDirection::Desc })
            } else if str_eq(sort.column.as_str(), column) {
                None
            } else {
                Some(SortSpec { column: column.to_owned(), direction: SortDirection::Asc })
            }
        },
        None => Some(SortSpec { column: column.to_owned(), direction: SortDirection::Asc }),
    }
}

/// Three clicks on one header cycle ascending, descending, and back to the
/// default order, whatever the sort was on another column before.
pub proof fn law_sort_cycle(current: Option<SortView>, column: Seq<char>)
    requires
        current matches Some(s) ==> s.column != column,
    ensures
        next_sort_spec(current, column) == Some(SortView { column, direction: SortDirection::Asc }),
        next_sort_spec(next_sort_spec(current, column), column) == Some(
            SortView { column, direction: SortDirection::Desc },
        ),
        next_sort_spec(next_sort_spec(next_sort_spec(current, column), column), column) is None,
{
}

/// The foreign key of a column: the last one given for a column of that
/// name, as a map keyed by column name keeps it.
pub open spec fn fk_of(fks: Seq<ForeignKeyView>, column: Seq<char>) -> Option<ForeignKeyView>
    decreases fks.len(),
{
    if fks.len() == 0 {
        None
    } else if fks.last().column_name == column {
        Some(fks.last())
    } else {
        fk_of(fks.drop_last(), column)
    }
}

/// The foreign key of each column, by position.
pub fn fk_by_column(columns: &Vec<String>, fks: &Vec<ForeignKeyInfo>) -> (r: Vec<Option<ForeignKeyInfo>>)
    ensures
        r@.len() == columns@.len(),
        forall|i: int|
            0 <= i < columns@.len() ==> match #[trigger] r@[i] {
                Some(f) => fk_of(views(fks@), columns@[i]@) == Some(f@),
                None => fk_of(views(fks@), columns@[i]@) is None,
            },
{
    let ghost l = views(fks@);
    let mut r: Vec<Option<ForeignKeyInfo>> = Vec::new();
    let mut i: usize = 0;
    while i < columns.len()
        invariant
            i <= columns@.len(),
            l == views(fks@),
            r@.len() == i,
            forall|k: int|
                0 <= k < i ==> match #[trigger] r@[k] {
                    Some(f) => fk_of(l, columns@[k]@) == Some(f@),
                    None => fk_of(l, columns@[k]@) is None,
                },
        decreases columns@.len() - i,
    {
        let found = find_fk(fks, columns[i].as_str());
        let ghost before = r@;
        r.push(found);
        assert forall|k: int| 0 <= k < i + 1 implies match #[trigger] r@[k] {
            Some(f) => fk_of(l, columns@[k]@) == Some(f@),
            None => fk_of(l, columns@[k]@) is None,
        } by {
            if k < i {
                assert(r@[k] == before[k]);
            }
        }
        i = i + 1;
    }
    r
}

/// The foreign key of column `name`; see [`fk_of`].
fn find_fk(fks: &Vec<ForeignKeyInfo>, name: &str) -> (r: Option<ForeignKeyInfo>)
    ensures
        match r {
            Some(f) => fk_of(views(fks@), name@) == Some(f@),
            None => fk_of(views(fks@), name@) is None,
        },
{
    let ghost l = views(fks@);
    let mut j: usize = fks.len();
    assert(l.take(l.len() as int) =~= l);
    while j > 0
        invariant
            j <= fks@.len(),
            l == views(fks@),
            fk_of(l, name@) == fk_of(l.take(j as int), name@),
        decreases j,
    {
        let k = j - 1;
        proof {
            assert(l.take(j as int).drop_last() =~= l.take(k as int));
            assert(l[k as int] == fks@[k as int]@);
        }
        if str_eq(fks[k].column_name.as_str(), name) {
            assert(l.take(j as int).last() == l[k as int]);
            return Some(fks[k].copy());
        }
        j = k;
    }
    assert(l.take(0) =~= Seq::<ForeignKeyView>::empty());
    None
}

/// The sort arrow of a column header: up for ascending, down for
/// descending, and a faint up arrow for a column not sorted by.
pub fn sort_indicator(sort: Option<&SortSpec>, column: &str) -> (r: (char, bool))
    ensures
        r == match sort {
            Some(s) => if s.column@ == column@ {
                (
                    if s.direction == SortDirection::Asc {
                        '\u{25B2}'
                    } else {
                        '\u{25BC}'
                    },
                    true,
                )
            } else {
                ('\u{25B2}', false)
            },
            None => ('\u{25B2}', false),
        },
{
    match sort {
        Some(s) => if str_eq(s.column.as_str(), column) {
            (
                if !s.direction.is_descending() {
                    '\u{25B2}'
                } else {
                    '\u{25BC}'
                },
                true,
            )
        } else {
            ('\u{25B2}', false)
        },
        None => ('\u{25B2}', false),
    }
}

/// How a body cell shows.
pub enum CellDisplay {
    /// A `NULL` marker.
    Null,
    /// A link to the referenced row.
    Link { text: String, title: String },
    /// Plain text.
    Plain(String),
}

/// How a body cell shows: `null` as a marker, a value of a foreign-key
/// column as a link titled `View {table} record`, anything else as text.
pub fn cell_display(val: &JsonValue, fk: Option<&ForeignKeyInfo>) -> (r: CellDisplay)
    ensures
        match val@ {
            JsonModel::Null => r is Null,
            _ => match fk {
                Some(f) => r matches CellDisplay::Link { text, title } && text@ == cell_text(val@)
                    && title@ == "View "@ + f.foreign_table_name@ + " record"@,
                None => r matches CellDisplay::Plain(t) && t@ == cell_text(val@),
            },
        },
{
    if val.is_null() {
        return CellDisplay::Null;
    }
    let text = format_value(val);
    match fk {
        Some(f) => {
            let mut t: Vec<char> = Vec::new();
            push_str(&mut t, "View ");
            push_str(&mut t, f.foreign_table_name.as_str());
            push_str(&mut t, " record");
            CellDisplay::Link { text, title: string_from_chars(t.as_slice()) }
        },
        None => CellDisplay::Plain(text),
    }
}

} // verus!
