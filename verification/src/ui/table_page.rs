//! The table page: paging through a table's rows, sorting them on the
//! server, and the side panels that show a referenced row or a column's
//! metadata.
//!
//! Each fetch carries a request number; an answer whose number is not the
//! latest is dropped, so that a slow answer to an earlier request never
//! replaces a later one.

use vstd::prelude::*;

use crate::json::{cell_text, JsonModel, JsonValue};
use crate::text::{decimal, push_decimal, push_signed_decimal, push_str, signed_decimal, str_eq,
    string_from_chars};
use crate::pg::convert::join;
use crate::types::{
    strings_view, ColumnConstraint, ColumnInfo, ConstraintKind, ForeignKeyAction, ForeignKeyInfo,
    GeneratedKind, IdentityKind, RelationKind, RelationStructure, RowData, SortSpec, TableData,
};
use crate::ui::data_table::sort_view;

verus! {

/// Rows per page.
pub const PAGE_SIZE: i64 = 100;

/// The request number after `r`: one more, wrapping around.
pub open spec fn next_request(r: u64) -> u64 {
    if r == u64::MAX {
        0
    } else {
        (r + 1) as u64
    }
}

/// The request number `n` requests after `r`.
pub open spec fn request_after(r: u64, n: nat) -> u64 {
    ((r + n) % 0x1_0000_0000_0000_0000) as u64
}

/// A request for one page of a table.
pub struct PageRequest {
    pub request_id: u64,
    pub table_name: String,
    pub schema: String,
    pub limit: i64,
    pub offset: i64,
    pub sort: Option<SortSpec>,
}

/// The state of a table page.
pub struct TablePageState {
    pub name: String,
    pub schema: String,
    pub page: usize,
    pub sort: Option<SortSpec>,
    pub data: Option<TableData>,
    pub request_id: u64,
    pub is_loading: bool,
    pub error: Option<String>,
}

/// A copy of an optional sort.
fn copy_sort(s: &Option<SortSpec>) -> (r: Option<SortSpec>)
    ensures
        sort_view(r) == sort_view(*s),
{
    match s {
        Some(s) => Some(s.copy()),
        None => None,
    }
}

impl TablePageState {
    /// The page of `schema.name` opened on its first page, unsorted, with
    /// the request for that page.
    pub fn new(name: String, schema: String) -> (r: (TablePageState, PageRequest))
        ensures
            r.0.name@ == name@,
            r.0.schema@ == schema@,
            r.0.page == 0,
            r.0.sort is None,
            r.0.data is None,
            r.0.request_id == 1,
            r.0.is_loading,
            r.0.error is None,
            r.1.request_id == 1,
            r.1.table_name@ == name@,
            r.1.schema@ == schema@,
            r.1.limit == PAGE_SIZE,
            r.1.offset == 0,
            r.1.sort is None,
    {
        let mut s = TablePageState {
            name,
            schema,
            page: 0,
            sort: None,
            data: None,
            request_id: 0,
            is_loading: true,
            error: None,
        };
        let req = s.fetch_page();
        (s, req)
    }

    /// Starts fetching the current page with the current sort: a new
    /// request number, loading, the error cleared.
    fn fetch_page(&mut self) -> (req: PageRequest)
        requires
            old(self).page as int * PAGE_SIZE <= i64::MAX,
        ensures
            final(self).request_id == next_request(old(self).request_id),
            final(self).is_loading,
            final(self).error is None,
            final(self).page == old(self).page,
            sort_view(final(self).sort) == sort_view(old(self).sort),
            final(self).data == old(self).data,
            final(self).name == old(self).name,
            final(self).schema == old(self).schema,
            req.request_id == final(self).request_id,
            req.table_name@ == old(self).name@,
            req.schema@ == old(self).schema@,
            req.limit == PAGE_SIZE,
            req.offset == old(self).page as int * PAGE_SIZE,
            sort_view(req.sort) == sort_view(old(self).sort),
    {
        let this_request = self.request_id.wrapping_add(1);
        self.request_id = this_request;
        self.is_loading = true;
        self.error = None;
        PageRequest {
            request_id: this_request,
            table_name: self.name.clone(),
            schema: self.schema.clone(),
            limit: PAGE_SIZE,
            offset: (self.page as i64) * PAGE_SIZE,
            sort: copy_sort(&self.sort),
        }
    }

    /// Goes back a page (staying on the first) and fetches it.
    pub fn on_prev(&mut self) -> (req: PageRequest)
        requires
            old(self).page as int * PAGE_SIZE <= i64::MAX,
        ensures
            final(self).page == if old(self).page > 0 {
                (old(self).page - 1) as usize
            } else {
                0
            },
            final(self).request_id == next_request(old(self).request_id),
            final(self).is_loading,
            final(self).error is None,
            req.request_id == final(self).request_id,
            req.limit == PAGE_SIZE,
            req.offset == final(self).page as int * PAGE_SIZE,
            sort_view(req.sort) == sort_view(old(self).sort),
            req.table_name@ == old(self).name@,
            req.schema@ == old(self).schema@,
            final(self).data == old(self).data,
            final(self).name == old(self).name,
            final(self).schema == old(self).schema,
            sort_view(final(self).sort) == sort_view(old(self).sort),
    {
        self.page = self.page.saturating_sub(1);
        self.fetch_page()
    }

    /// Goes to the next page and fetches it.
    pub fn on_next(&mut self) -> (req: PageRequest)
        requires
            (old(self).page as int + 1) * PAGE_SIZE <= i64::MAX,
            old(self).page < usize::MAX,
        ensures
            final(self).page == old(self).page + 1,
            final(self).request_id == next_request(old(self).request_id),
            final(self).is_loading,
            final(self).error is None,
            req.request_id == final(self).request_id,
            req.limit == PAGE_SIZE,
            req.offset == final(self).page as int * PAGE_SIZE,
            sort_view(req.sort) == sort_view(old(self).sort),
            req.table_name@ == old(self).name@,
            req.schema@ == old(self).schema@,
            final(self).data == old(self).data,
            final(self).name == old(self).name,
            final(self).schema == old(self).schema,
            sort_view(final(self).sort) == sort_view(old(self).sort),
    {
        self.page = self.page + 1;
        self.fetch_page()
    }

    /// Sorts by `next` (or by the server's default where it is `None`),
    /// back on the first page, and fetches it.
    pub fn on_sort(&mut self, next: Option<SortSpec>) -> (req: PageRequest)
        ensures
            final(self).page == 0,
            sort_view(final(self).sort) == sort_view(next),
            final(self).request_id == next_request(old(self).request_id),
            final(self).is_loading,
            final(self).error is None,
            req.request_id == final(self).request_id,
            req.limit == PAGE_SIZE,
            req.offset == 0,
            sort_view(req.sort) == sort_view(next),
            req.table_name@ == old(self).name@,
            req.schema@ == old(self).schema@,
            final(self).data == old(self).data,
            final(self).name == old(self).name,
            final(self).schema == old(self).schema,
    {
        self.sort = next;
        self.page = 0;
        self.fetch_page()
    }

    /// Takes the answer to request `request_id`. An answer to any request
    /// but the latest changes nothing. Otherwise the page is shown, or the
    /// error kept as `Failed to fetch data: {e}`; either way loading is over.
    pub fn receive(&mut self, request_id: u64, result: Result<TableData, String>)
        ensures
            final(self).request_id == old(self).request_id,
            final(self).page == old(self).page,
            final(self).name == old(self).name,
            final(self).schema == old(self).schema,
            sort_view(final(self).sort) == sort_view(old(self).sort),
            request_id != old(self).request_id ==> final(self).data == old(self).data
                && final(self).is_loading == old(self).is_loading && final(self).error == old(
                self,
            ).error,
            request_id == old(self).request_id ==> !final(self).is_loading && match result {
                Ok(d) => final(self).data == Some(d) && final(self).error == old(self).error,
                Err(e) => final(self).data == old(self).data && (final(self).error matches Some(m)
                    && m@ == "Failed to fetch data: "@ + e@),
            },
    {
        if request_id != self.request_id {
            return;
        }
        match result {
            Ok(d) => {
                self.data = Some(d);
                self.is_loading = false;
            },
            Err(e) => {
                let mut m: Vec<char> = Vec::new();
                push_str(&mut m, "Failed to fetch data: ");
                push_str(&mut m, e.as_str());
                self.error = Some(string_from_chars(m.as_slice()));
                self.is_loading = false;
            },
        }
    }

    /// Whether the loading indicator shows: loading before any page arrived.
    pub fn shows_loading(&self) -> (r: bool)
        ensures
            r == (self.is_loading && self.data is None),
    {
        self.is_loading && self.data.is_none()
    }

    /// How many pages the table has; none before the first page arrived.
    pub fn total_pages(&self) -> (r: u64)
        ensures
            r == match self.data {
                Some(d) => page_count(d.total_rows as int),
                None => 0,
            },
    {
        match &self.data {
            Some(d) => total_pages_for(d.total_rows),
            None => 0,
        }
    }
}

/// The number of pages `total` rows take: the ceiling of `total / 100`,
/// and none for no rows.
pub open spec fn page_count(total: int) -> nat {
    if total <= 0 {
        0
    } else {
        ((total + 99) / 100) as nat
    }
}

/// The number of pages `total` rows take; see [`page_count`].
pub fn total_pages_for(total: i64) -> (r: u64)
    ensures
        r == page_count(total as int),
{
    if total <= 0 {
        0
    } else {
        let q = total / PAGE_SIZE;
        let r = total % PAGE_SIZE;
        let pages = if r == 0 {
            q
        } else {
            q + 1
        };
        assert(pages as int == (total as int + 99) / 100) by (nonlinear_arith)
            requires
                total > 0,
                q as int == total as int / 100,
                r as int == total as int % 100,
                pages as int == if r == 0 {
                    q as int
                } else {
                    q as int + 1
                },
        ;
        pages as u64
    }
}

/// The pages cover every row and no page is empty: the last page starts at
/// or before the last row, and the pages hold at least `total` rows.
pub proof fn law_pages_cover_rows(total: int)
    requires
        total > 0,
    ensures
        (page_count(total) - 1) * PAGE_SIZE < total <= page_count(total) * PAGE_SIZE,
{
    let n = page_count(total) as int;
    assert(n == (total + 99) / 100);
    assert((n - 1) * 100 < total <= n * 100) by (nonlinear_arith)
        requires
            total > 0,
            n == (total + 99) / 100,
    ;
}

/// Any two of the last 2^64 requests have different numbers, so an answer
/// to an earlier request is never taken for the latest one's.
pub proof fn law_request_numbers_differ(r: u64, n: nat)
    requires
        0 < n < 0x1_0000_0000_0000_0000,
    ensures
        request_after(r, n) != r,
        request_after(r, 1) == next_request(r),
{
    assert(request_after(r, n) != r) by (nonlinear_arith)
        requires
            0 < n < 0x1_0000_0000_0000_0000,
            0 <= r < 0x1_0000_0000_0000_0000,
    {
        if (r + n) < 0x1_0000_0000_0000_0000 {
            assert((r + n) % 0x1_0000_0000_0000_0000 == r + n);
        } else {
            assert((r + n) % 0x1_0000_0000_0000_0000 == r + n - 0x1_0000_0000_0000_0000);
        }
    }
}

/// The header line of a page: `Empty table • {n} columns` where there are
/// no rows, otherwise `{total} total rows`.
pub fn page_summary(data: &TableData) -> (r: String)
    ensures
        r@ == if data.rows@.len() == 0 {
            "Empty table \u{2022} "@ + decimal(data.columns@.len()) + " columns"@
        } else {
            signed_decimal(data.total_rows as int) + " total rows"@
        },
{
    let mut v: Vec<char> = Vec::new();
    if data.rows.len() == 0 {
        push_str(&mut v, "Empty table \u{2022} ");
        push_decimal(&mut v, data.columns.len() as u64);
        push_str(&mut v, " columns");
    } else {
        push_signed_decimal(&mut v, data.total_rows);
        push_str(&mut v, " total rows");
    }
    string_from_chars(v.as_slice())
}

/// The rows a page shows: from `page * 100 + 1` to `(page + 1) * 100`, or
/// to `total` where that is less.
pub fn showing_range(page: usize, total: i64) -> (r: (i64, i64))
    requires
        (page as int + 1) * PAGE_SIZE <= i64::MAX,
    ensures
        r.0 == page as int * PAGE_SIZE + 1,
        r.1 == if (page as int + 1) * PAGE_SIZE <= total {
            (page as int + 1) * PAGE_SIZE
        } else {
            total as int
        },
{
    let p = page as i64;
    let from = p * PAGE_SIZE + 1;
    let end = (p + 1) * PAGE_SIZE;
    let to = if end <= total {
        end
    } else {
        total
    };
    (from, to)
}

/// The footer line: `Showing {from} to {to} of {total} rows`.
pub fn footer_text(page: usize, total: i64) -> (r: String)
    requires
        (page as int + 1) * PAGE_SIZE <= i64::MAX,
    ensures
        ({
            let (from, to) = (
                page as int * PAGE_SIZE + 1,
                if (page as int + 1) * PAGE_SIZE <= total {
                    (page as int + 1) * PAGE_SIZE
                } else {
                    total as int
                },
            );
            r@ == "Showing "@ + signed_decimal(from) + " to "@ + signed_decimal(to) + " of "@
                + signed_decimal(total as int) + " rows"@
        }),
{
    let (from, to) = showing_range(page, total);
    let mut v: Vec<char> = Vec::new();
    push_str(&mut v, "Showing ");
    push_signed_decimal(&mut v, from);
    push_str(&mut v, " to ");
    push_signed_decimal(&mut v, to);
    push_str(&mut v, " of ");
    push_signed_decimal(&mut v, total);
    push_str(&mut v, " rows");
    string_from_chars(v.as_slice())
}

/// The page indicator: `Page {page + 1} of {pages}`.
pub fn page_label(page: usize, pages: u64) -> (r: String)
    requires
        page < usize::MAX,
    ensures
        r@ == "Page "@ + decimal(page as nat + 1) + " of "@ + decimal(pages as nat),
{
    let mut v: Vec<char> = Vec::new();
    push_str(&mut v, "Page ");
    push_decimal(&mut v, (page + 1) as u64);
    push_str(&mut v, " of ");
    push_decimal(&mut v, pages);
    string_from_chars(v.as_slice())
}

/// Whether "Previous" is disabled: on the first page.
pub fn prev_disabled(page: usize) -> (r: bool)
    ensures
        r == (page == 0),
{
    page == 0
}

/// Whether "Next" is disabled: on the last page or beyond.
pub fn next_disabled(page: usize, pages: u64) -> (r: bool)
    ensures
        r == (page as int + 1 >= pages as int),
{
    page as u128 + 1 >= pages as u128
}

/// Which drawer the Escape key closes.
#[derive(Clone, Copy, Debug, PartialEq, Eq, Structural)]
pub enum Drawer {
    ColumnInfo,
    ReferencedRow,
}

/// The drawer Escape closes: the column drawer where it is open, otherwise
/// the referenced-row drawer where that is open, otherwise none.
pub fn escape_closes(column_drawer_open: bool, row_drawer_open: bool) -> (r: Option<Drawer>)
    ensures
        r == if column_drawer_open {
            Some(Drawer::ColumnInfo)
        } else if row_drawer_open {
            Some(Drawer::ReferencedRow)
        } else {
            None
        },
{
    if column_drawer_open {
        Some(Drawer::ColumnInfo)
    } else if row_drawer_open {
        Some(Drawer::ReferencedRow)
    } else {
        None
    }
}

/// What opening a column's information does about the relation's metadata.
#[derive(Clone, Copy, Debug, PartialEq, Eq, Structural)]
pub enum ColumnInfoPlan {
    /// The metadata is known: show it.
    UseKnown,
    /// Fetch the metadata.
    Fetch,
    /// A fetch is under way: wait for it.
    Wait,
}

/// What opening a column's information does: show known metadata, else
/// fetch it unless a fetch is under way.
pub fn column_info_plan(known: bool, loading: bool) -> (r: ColumnInfoPlan)
    ensures
        r == if known {
            ColumnInfoPlan::UseKnown
        } else if !loading {
            ColumnInfoPlan::Fetch
        } else {
            ColumnInfoPlan::Wait
        },
{
    if known {
        ColumnInfoPlan::UseKnown
    } else if !loading {
        ColumnInfoPlan::Fetch
    } else {
        ColumnInfoPlan::Wait
    }
}

/// The name of a relation kind as the interface shows it.
pub open spec fn relation_kind_text(k: RelationKind) -> Seq<char> {
    match k {
        RelationKind::Table => "table"@,
        RelationKind::PartitionedTable => "partitioned_table"@,
        RelationKind::View => "view"@,
        RelationKind::MaterializedView => "materialized_view"@,
        RelationKind::ForeignTable => "foreign_table"@,
    }
}

/// The name of a relation kind as the interface shows it.
pub fn relation_kind_name(k: RelationKind) -> (r: &'static str)
    ensures
        r@ == relation_kind_text(k),
{
    match k {
        RelationKind::Table => "table",
        RelationKind::PartitionedTable => "partitioned_table",
        RelationKind::View => "view",
        RelationKind::MaterializedView => "materialized_view",
        RelationKind::ForeignTable => "foreign_table",
    }
}

/// The column drawer's context line: `{schema}.{relation} · {kind}`.
pub fn relation_context(structure: &RelationStructure) -> (r: String)
    ensures
        r@ == structure.schema@ + "."@ + structure.relation@ + " \u{b7} "@ + relation_kind_text(
            structure.relation_kind,
        ),
{
    let mut v: Vec<char> = Vec::new();
    push_str(&mut v, structure.schema.as_str());
    push_str(&mut v, ".");
    push_str(&mut v, structure.relation.as_str());
    push_str(&mut v, " \u{b7} ");
    push_str(&mut v, relation_kind_name(structure.relation_kind));
    string_from_chars(v.as_slice())
}

/// The column drawer's context line while the relation's metadata loads:
/// `{schema}.{name} · Loading relation…`.
pub fn loading_context(schema: &str, name: &str) -> (r: String)
    ensures
        r@ == schema@ + "."@ + name@ + " \u{b7} Loading relation\u{2026}"@,
{
    let mut v: Vec<char> = Vec::new();
    push_str(&mut v, schema);
    push_str(&mut v, ".");
    push_str(&mut v, name);
    push_str(&mut v, " \u{b7} Loading relation\u{2026}");
    string_from_chars(v.as_slice())
}

/// A metadata value as shown: the value, or `-` where there is none or it
/// is empty.
pub fn metadata_value(value: Option<&String>) -> (r: String)
    ensures
        r@ == match value {
            Some(v) => if v@.len() > 0 {
                v@
            } else {
                "-"@
            },
            None => "-"@,
        },
{
    match value {
        Some(v) => if !v.as_str().is_empty() {
            v.clone()
        } else {
            "-".to_owned()
        },
        None => "-".to_owned(),
    }
}

/// What the column drawer shows.
pub enum ColumnPanel {
    Loading,
    Error(String),
    NoColumnSelected,
    Unavailable,
    NotReturned,
    /// The column at this index of the relation's columns.
    Details(usize),
}

/// What the column drawer shows: loading, then an error, then a prompt
/// where no column is selected, a notice where the relation's metadata is
/// not known or lacks the column, otherwise the first column of that name.
pub fn column_panel_content(
    selected_column: Option<&str>,
    structure: Option<&RelationStructure>,
    loading: bool,
    error: Option<&str>,
) -> (r: ColumnPanel)
    ensures
        loading ==> r is Loading,
        !loading && error.is_some() ==> (r matches ColumnPanel::Error(m) && m@ == error->0@),
        !loading && error.is_none() ==> match (selected_column, structure) {
            (None, _) => r is NoColumnSelected,
            (Some(_), None) => r is Unavailable,
            (Some(c), Some(st)) => match r {
                ColumnPanel::Details(i) => i < st.columns@.len() && st.columns@[i as int].name@
                    == c@ && forall|j: int| 0 <= j < i ==> st.columns@[j].name@ != c@,
                ColumnPanel::NotReturned => forall|j: int|
                    0 <= j < st.columns@.len() ==> st.columns@[j].name@ != c@,
                _ => false,
            },
        },
{
    if loading {
        return ColumnPanel::Loading;
    }
    match error {
        Some(e) => return ColumnPanel::Error(e.to_owned()),
        None => {},
    }
    let column_name = match selected_column {
        Some(c) => c,
        None => return ColumnPanel::NoColumnSelected,
    };
    let st = match structure {
        Some(s) => s,
        None => return ColumnPanel::Unavailable,
    };
    let mut i: usize = 0;
    while i < st.columns.len()
        invariant
            !loading,
            error.is_none(),
            selected_column == Some(column_name),
            structure == Some(st),
            i <= st.columns@.len(),
            forall|j: int| 0 <= j < i ==> st.columns@[j].name@ != column_name@,
        decreases st.columns@.len() - i,
    {
        if str_eq(st.columns[i].name.as_str(), column_name) {
            return ColumnPanel::Details(i);
        }
        i = i + 1;
    }
    ColumnPanel::NotReturned
}

/// How the referenced-row drawer shows a value.
pub enum RowValue {
    /// A `NULL` marker.
    Null,
    /// An array or object, as indented JSON.
    Json(String),
    /// Anything else, as text.
    Text(String),
}

/// The indented JSON text `serde_json::to_string_pretty` gives for the
/// value that `text` holds.
pub uninterp spec fn pretty_json_text(text: Seq<char>) -> Option<Seq<char>>;

/// `serde_json::to_string_pretty` of the value parsed from `text`, where
/// `text` holds one.
#[verifier::external_body]
fn pretty_json(text: &str) -> (r: Option<String>)
    ensures
        match r {
            Some(p) => pretty_json_text(text@) == Some(p@),
            None => pretty_json_text(text@) is None,
        },
{
    match serde_json::from_str::<serde_json::Value>(text) {
        Ok(v) => serde_json::to_string_pretty(&v).ok(),
        Err(_) => None,
    }
}

/// How the referenced-row drawer shows a value, given the indented JSON
/// text `serde_json` made of it, if any; see [`row_value`].
pub fn row_value_from(val: &JsonValue, pretty: Option<String>) -> (r: RowValue)
    ensures
        match val@ {
            JsonModel::Null => r is Null,
            JsonModel::Array(t) | JsonModel::Object(t) => r matches RowValue::Json(j) && j@ == match pretty {
                Some(p) => p@,
                None => t,
            },
            _ => r matches RowValue::Text(s) && s@ == cell_text(val@),
        },
{
    match val {
        JsonValue::Null => RowValue::Null,
        JsonValue::Array(t) | JsonValue::Object(t) => match pretty {
            Some(p) => RowValue::Json(p),
            None => RowValue::Json(t.clone()),
        },
        JsonValue::String(s) => RowValue::Text(s.clone()),
        _ => RowValue::Text(val.to_json_text()),
    }
}

/// How the referenced-row drawer shows a value: `null` as a marker, an array
/// or object as indented JSON (its compact text where that cannot be had),
/// a string as itself and anything else as its JSON text.
pub fn row_value(val: &JsonValue) -> (r: RowValue)
    ensures
        match val@ {
            JsonModel::Null => r is Null,
            JsonModel::Array(t) | JsonModel::Object(t) => r matches RowValue::Json(j) && j@ == match pretty_json_text(t) {
                Some(p) => p,
                None => t,
            },
            _ => r matches RowValue::Text(s) && s@ == cell_text(val@),
        },
{
    let pretty = match val {
        JsonValue::Array(t) | JsonValue::Object(t) => pretty_json(t.as_str()),
        _ => None,
    };
    row_value_from(val, pretty)
}

/// A request for the row a foreign-key cell points at.
pub struct RowLookup {
    pub table_name: String,
    pub schema: String,
    pub pk_column: String,
    pub pk_value: JsonValue,
}

/// The drawer that shows a referenced row.
pub struct RowPanel {
    pub open: bool,
    pub title: String,
    pub data: Option<RowData>,
    pub loading: bool,
    pub error: Option<String>,
}

impl RowPanel {
    /// Closed and empty.
    pub fn new() -> (r: RowPanel)
        ensures
            !r.open,
            r.title@.len() == 0,
            r.data is None,
            !r.loading,
            r.error is None,
    {
        RowPanel { open: false, title: String::new(), data: None, loading: false, error: None }
    }

    /// A click on a foreign-key cell holding `value`: the drawer opens,
    /// titled with the referenced table, and the referenced row is looked up
    /// by the referenced column.
    pub fn open_for(&mut self, fk: &ForeignKeyInfo, value: &JsonValue) -> (r: RowLookup)
        ensures
            final(self).open,
            final(self).title@ == fk.foreign_table_name@,
            final(self).loading,
            final(self).error is None,
            final(self).data is None,
            r.table_name@ == fk.foreign_table_name@,
            r.schema@ == fk.foreign_table_schema@,
            r.pk_column@ == fk.foreign_column_name@,
            r.pk_value@ == value@,
    {
        self.title = fk.foreign_table_name.clone();
        self.open = true;
        self.loading = true;
        self.error = None;
        self.data = None;
        RowLookup {
            table_name: fk.foreign_table_name.clone(),
            schema: fk.foreign_table_schema.clone(),
            pk_column: fk.foreign_column_name.clone(),
            pk_value: value.copy(),
        }
    }

    /// Takes the looked-up row, or keeps the error as
    /// `Failed to fetch row: {e}`; either way loading is over.
    pub fn receive(&mut self, result: Result<RowData, String>)
        ensures
            !final(self).loading,
            final(self).open == old(self).open,
            match result {
                Ok(row) => final(self).data == Some(row) && final(self).error == old(self).error,
                Err(e) => final(self).data == old(self).data && (final(self).error matches Some(m)
                    && m@ == "Failed to fetch row: "@ + e@),
            },
    {
        match result {
            Ok(row) => {
                self.data = Some(row);
                self.loading = false;
            },
            Err(e) => {
                let mut m: Vec<char> = Vec::new();
                push_str(&mut m, "Failed to fetch row: ");
                push_str(&mut m, e.as_str());
                self.error = Some(string_from_chars(m.as_slice()));
                self.loading = false;
            },
        }
    }
}

/// The fetching of a relation's column metadata for the column drawer.
pub struct ColumnInfoState {
    pub request_id: u64,
    pub loading: bool,
    pub error: Option<String>,
    pub context: String,
}

impl ColumnInfoState {
    /// Nothing fetched yet.
    pub fn new() -> (r: ColumnInfoState)
        ensures
            r.request_id == 0,
            !r.loading,
            r.error is None,
            r.context@.len() == 0,
    {
        ColumnInfoState { request_id: 0, loading: false, error: None, context: String::new() }
    }

    /// Starts a fetch: a new request number, loading, the error cleared.
    pub fn start(&mut self) -> (r: u64)
        ensures
            final(self).request_id == next_request(old(self).request_id),
            r == final(self).request_id,
            final(self).loading,
            final(self).error is None,
            final(self).context == old(self).context,
    {
        let this_request = self.request_id.wrapping_add(1);
        self.request_id = this_request;
        self.loading = true;
        self.error = None;
        this_request
    }

    /// Takes the answer to request `request_id` for `schema.name`. An answer
    /// to any request but the latest changes nothing and gives nothing to
    /// keep. Otherwise the metadata is given back to be kept, with its
    /// context line; or the context becomes `{schema}.{name}` and the error
    /// `Failed to fetch column information: {e}`. Either way loading is over.
    pub fn receive(
        &mut self,
        request_id: u64,
        schema: &str,
        name: &str,
        result: Result<RelationStructure, String>,
    ) -> (r: Option<RelationStructure>)
        ensures
            final(self).request_id == old(self).request_id,
            request_id != old(self).request_id ==> r is None && final(self).loading == old(
                self,
            ).loading && final(self).error == old(self).error && final(self).context == old(
                self,
            ).context,
            request_id == old(self).request_id ==> !final(self).loading && match result {
                Ok(st) => r == Some(st) && final(self).error == old(self).error
                    && final(self).context@ == st.schema@ + "."@ + st.relation@ + " \u{b7} "@
                    + relation_kind_text(st.relation_kind),
                Err(e) => r is None && final(self).context@ == schema@ + "."@ + name@
                    && (final(self).error matches Some(m) && m@
                    == "Failed to fetch column information: "@ + e@),
            },
    {
        if request_id != self.request_id {
            return None;
        }
        match result {
            Ok(st) => {
                self.context = relation_context(&st);
                self.loading = false;
                Some(st)
            },
            Err(e) => {
                let mut c: Vec<char> = Vec::new();
                push_str(&mut c, schema);
                push_str(&mut c, ".");
                push_str(&mut c, name);
                self.context = string_from_chars(c.as_slice());
                let mut m: Vec<char> = Vec::new();
                push_str(&mut m, "Failed to fetch column information: ");
                push_str(&mut m, e.as_str());
                self.error = Some(string_from_chars(m.as_slice()));
                self.loading = false;
                None
            },
        }
    }
}

/// A labelled value in the column drawer.
pub struct DetailField {
    pub label: String,
    pub value: String,
}

/// The model of a list of fields.
pub open spec fn fields_view(v: Seq<DetailField>) -> Seq<(Seq<char>, Seq<char>)> {
    v.map_values(|f: DetailField| (f.label@, f.value@))
}

/// A list of names joined by `, `, or `-` where there are none.
pub open spec fn names_text(names: Seq<Seq<char>>) -> Seq<char> {
    if names.len() == 0 {
        "-"@
    } else {
        join(names, ", "@)
    }
}

/// Names joined by `, `, or `-` where there are none.
pub fn join_or_dash(names: &Vec<String>) -> (r: String)
    ensures
        r@ == names_text(strings_view(*names)),
{
    let ghost l = strings_view(*names);
    if names.len() == 0 {
        return "-".to_owned();
    }
    let mut v: Vec<char> = Vec::new();
    let mut i: usize = 0;
    while i < names.len()
        invariant
            i <= names@.len(),
            l == strings_view(*names),
            v@ == join(l.take(i as int), ", "@),
        decreases names@.len() - i,
    {
        proof {
            assert(l.take(i + 1).drop_last() =~= l.take(i as int));
            assert(l[i as int] == names@[i as int]@);
            assert(l.take(i + 1).last() == l[i as int]);
            if i == 0 {
                assert(l.take(1).len() == 1);
            }
        }
        if i > 0 {
            push_str(&mut v, ", ");
        }
        push_str(&mut v, names[i].as_str());
        proof {
            if i == 0 {
                assert(v@ =~= join(l.take(1), ", "@));
            }
        }
        i = i + 1;
    }
    assert(l.take(l.len() as int) =~= l);
    string_from_chars(v.as_slice())
}

/// The wire name of a constraint kind.
pub open spec fn constraint_kind_text(k: ConstraintKind) -> Seq<char> {
    match k {
        ConstraintKind::PrimaryKey => "primary_key"@,
        ConstraintKind::Unique => "unique"@,
        ConstraintKind::ForeignKey => "foreign_key"@,
        ConstraintKind::Check => "check"@,
    }
}

/// The wire name of a constraint kind, as the drawer shows it.
pub fn constraint_kind_name(k: ConstraintKind) -> (r: &'static str)
    ensures
        r@ == constraint_kind_text(k),
{
    match k {
        ConstraintKind::PrimaryKey => "primary_key",
        ConstraintKind::Unique => "unique",
        ConstraintKind::ForeignKey => "foreign_key",
        ConstraintKind::Check => "check",
    }
}

/// The wire name of a foreign-key action.
pub open spec fn action_text(a: ForeignKeyAction) -> Seq<char> {
    match a {
        ForeignKeyAction::NoAction => "no_action"@,
        ForeignKeyAction::Restrict => "restrict"@,
        ForeignKeyAction::Cascade => "cascade"@,
        ForeignKeyAction::SetNull => "set_null"@,
        ForeignKeyAction::SetDefault => "set_default"@,
    }
}

/// The wire name of an identity kind.
pub open spec fn identity_text(k: IdentityKind) -> Seq<char> {
    match k {
        IdentityKind::Always => "always"@,
        IdentityKind::ByDefault => "by_default"@,
    }
}

/// The wire name of a generated kind.
pub open spec fn generated_text(k: GeneratedKind) -> Seq<char> {
    match k {
        GeneratedKind::Stored => "stored"@,
        GeneratedKind::Virtual => "virtual"@,
    }
}

/// An optional name as the drawer shows it: the name, or `-`.
pub open spec fn or_dash(o: Option<Seq<char>>) -> Seq<char> {
    match o {
        Some(t) => if t.len() > 0 {
            t
        } else {
            "-"@
        },
        None => "-"@,
    }
}

fn field(label: &str, value: String) -> (r: DetailField)
    ensures
        r.label@ == label@,
        r.value@ == value@,
{
    DetailField { label: label.to_owned(), value }
}

fn action_value(a: Option<ForeignKeyAction>) -> (r: String)
    ensures
        r@ == or_dash(
            match a {
                Some(a) => Some(action_text(a)),
                None => None,
            },
        ),
{
    let name = match a {
        Some(ForeignKeyAction::NoAction) => "no_action",
        Some(ForeignKeyAction::Restrict) => "restrict",
        Some(ForeignKeyAction::Cascade) => "cascade",
        Some(ForeignKeyAction::SetNull) => "set_null",
        Some(ForeignKeyAction::SetDefault) => "set_default",
        None => "-",
    };
    proof {
        reveal_strlit("no_action");
        reveal_strlit("restrict");
        reveal_strlit("cascade");
        reveal_strlit("set_null");
        reveal_strlit("set_default");
    }
    name.to_owned()
}

/// The fields of a constraint in the column drawer: its name, its position
/// where it has one, its columns, and for a constraint with a target the
/// referenced relation and columns and the update and delete actions.
pub open spec fn constraint_fields_spec(c: ColumnConstraint) -> Seq<(Seq<char>, Seq<char>)> {
    let head = seq![("name"@, c.name@)] + match c.column_position {
        Some(p) => seq![("position"@, signed_decimal(p as int))],
        None => Seq::empty(),
    } + seq![("columns"@, names_text(strings_view(c.source_columns)))];
    match (c.target_schema, c.target_relation) {
        (Some(schema), Some(relation)) => head + seq![
            ("referenced relation"@, schema@ + "."@ + relation@),
            ("referenced columns"@, names_text(strings_view(c.target_columns))),
            (
                "on update"@,
                or_dash(
                    match c.on_update {
                        Some(a) => Some(action_text(a)),
                        None => None,
                    },
                ),
            ),
            (
                "on delete"@,
                or_dash(
                    match c.on_delete {
                        Some(a) => Some(action_text(a)),
                        None => None,
                    },
                ),
            ),
        ],
        _ => head,
    }
}

/// The fields of a constraint in the column drawer; see
/// [`constraint_fields_spec`].
pub fn constraint_fields(c: &ColumnConstraint) -> (r: Vec<DetailField>)
    ensures
        fields_view(r@) == constraint_fields_spec(*c),
{
    let mut v: Vec<DetailField> = Vec::new();
    v.push(field("name", c.name.clone()));
    match c.column_position {
        Some(p) => {
            let mut t: Vec<char> = Vec::new();
            push_signed_decimal(&mut t, p as i64);
            v.push(field("position", string_from_chars(t.as_slice())));
        },
        None => {},
    }
    v.push(field("columns", join_or_dash(&c.source_columns)));
    match (&c.target_schema, &c.target_relation) {
        (Some(schema), Some(relation)) => {
            let mut t: Vec<char> = Vec::new();
            push_str(&mut t, schema.as_str());
            push_str(&mut t, ".");
            push_str(&mut t, relation.as_str());
            v.push(field("referenced relation", string_from_chars(t.as_slice())));
            v.push(field("referenced columns", join_or_dash(&c.target_columns)));
            v.push(field("on update", action_value(c.on_update)));
            v.push(field("on delete", action_value(c.on_delete)));
        },
        _ => {},
    }
    assert(fields_view(v@) =~= constraint_fields_spec(*c));
    v
}

/// The "overview" fields of a column: its position, the relation, the
/// relation's kind, the type, whether it is nullable, and its collation
/// where it has a non-empty one.
pub open spec fn overview_spec(st: RelationStructure, c: ColumnInfo) -> Seq<(Seq<char>, Seq<char>)> {
    seq![
        ("Position"@, signed_decimal(c.ordinal_position as int)),
        ("Relation"@, st.schema@ + "."@ + st.relation@),
        ("relation kind"@, relation_kind_text(st.relation_kind)),
        ("Type"@, c.data_type@),
        ("nullable"@, if c.nullable { "true"@ } else { "false"@ }),
    ] + match c.collation {
        Some(col) => if col@.len() > 0 {
            seq![("Collation"@, col@)]
        } else {
            Seq::empty()
        },
        None => Seq::empty(),
    }
}

/// The "overview" fields of a column; see [`overview_spec`].
pub fn column_overview(st: &RelationStructure, c: &ColumnInfo) -> (r: Vec<DetailField>)
    ensures
        fields_view(r@) == overview_spec(*st, *c),
{
    let mut v: Vec<DetailField> = Vec::new();
    let mut t: Vec<char> = Vec::new();
    push_signed_decimal(&mut t, c.ordinal_position as i64);
    v.push(field("Position", string_from_chars(t.as_slice())));
    let mut r: Vec<char> = Vec::new();
    push_str(&mut r, st.schema.as_str());
    push_str(&mut r, ".");
    push_str(&mut r, st.relation.as_str());
    v.push(field("Relation", string_from_chars(r.as_slice())));
    v.push(field("relation kind", relation_kind_name(st.relation_kind).to_owned()));
    v.push(field("Type", c.data_type.clone()));
    v.push(field("nullable", if c.nullable { "true".to_owned() } else { "false".to_owned() }));
    match &c.collation {
        Some(col) => if !col.as_str().is_empty() {
            v.push(field("Collation", col.clone()));
        },
        None => {},
    }
    assert(fields_view(v@) =~= overview_spec(*st, *c));
    v
}

/// The "value generation" fields of a column: identity, generated, default
/// and generation expression, each `-` where there is none.
pub open spec fn generation_spec(c: ColumnInfo) -> Seq<(Seq<char>, Seq<char>)> {
    seq![
        ("identity"@, or_dash(match c.identity { Some(k) => Some(identity_text(k)), None => None })),
        ("generated"@, or_dash(match c.generated { Some(k) => Some(generated_text(k)), None => None })),
        ("default"@, or_dash(match c.default_expression { Some(d) => Some(d@), None => None })),
        (
            "generation expression"@,
            or_dash(match c.generation_expression { Some(d) => Some(d@), None => None }),
        ),
    ]
}

/// The "value generation" fields of a column; see [`generation_spec`].
pub fn column_generation(c: &ColumnInfo) -> (r: Vec<DetailField>)
    ensures
        fields_view(r@) == generation_spec(*c),
{
    proof {
        reveal_strlit("always");
        reveal_strlit("by_default");
        reveal_strlit("stored");
        reveal_strlit("virtual");
    }
    let identity = match c.identity {
        Some(IdentityKind::Always) => "always",
        Some(IdentityKind::ByDefault) => "by_default",
        None => "-",
    };
    let generated = match c.generated {
        Some(GeneratedKind::Stored) => "stored",
        Some(GeneratedKind::Virtual) => "virtual",
        None => "-",
    };
    let mut v: Vec<DetailField> = Vec::new();
    v.push(field("identity", identity.to_owned()));
    v.push(field("generated", generated.to_owned()));
    v.push(field("default", metadata_value(c.default_expression.as_ref())));
    v.push(field("generation expression", metadata_value(c.generation_expression.as_ref())));
    assert(fields_view(v@) =~= generation_spec(*c));
    v
}

/// The column's comment where it has a non-empty one.
pub fn column_comment(c: &ColumnInfo) -> (r: Option<String>)
    ensures
        match r {
            Some(t) => c.comment matches Some(x) && x@.len() > 0 && t@ == x@,
            None => !(c.comment matches Some(x) && x@.len() > 0),
        },
{
    match &c.comment {
        Some(x) => if !x.as_str().is_empty() {
            Some(x.clone())
        } else {
            None
        },
        None => None,
    }
}

/// The drawer never shows one foreign-key action under another's name: each
/// action is shown by the snake_case form of its own name, the wire names of
/// distinct actions differ, and none is the `-` shown for a missing action.
pub proof fn law_action_names_differ(a: ForeignKeyAction, b: ForeignKeyAction)
    ensures
        a == ForeignKeyAction::NoAction <==> action_text(a) == "no_action"@,
        a == ForeignKeyAction::Restrict <==> action_text(a) == "restrict"@,
        a == ForeignKeyAction::Cascade <==> action_text(a) == "cascade"@,
        a == ForeignKeyAction::SetNull <==> action_text(a) == "set_null"@,
        a == ForeignKeyAction::SetDefault <==> action_text(a) == "set_default"@,
        action_text(a) == action_text(b) ==> a == b,
        action_text(a) != "-"@,
{
    reveal_strlit("no_action");
    reveal_strlit("restrict");
    reveal_strlit("cascade");
    reveal_strlit("set_null");
    reveal_strlit("set_default");
    reveal_strlit("-");
    assert(action_text(a).len() != "-"@.len());
    lemma_action_text_injective(a, b);
    lemma_action_text_injective(a, ForeignKeyAction::NoAction);
    lemma_action_text_injective(a, ForeignKeyAction::Restrict);
    lemma_action_text_injective(a, ForeignKeyAction::Cascade);
    lemma_action_text_injective(a, ForeignKeyAction::SetNull);
    lemma_action_text_injective(a, ForeignKeyAction::SetDefault);
}

proof fn lemma_action_text_injective(a: ForeignKeyAction, b: ForeignKeyAction)
    ensures
        action_text(a) == action_text(b) ==> a == b,
{
    reveal_strlit("no_action");
    reveal_strlit("restrict");
    reveal_strlit("cascade");
    reveal_strlit("set_null");
    reveal_strlit("set_default");
    if action_text(a) == action_text(b) && a != b {
        assert(action_text(a).len() != action_text(b).len() || action_text(a)[0] != action_text(
            b,
        )[0] || action_text(a)[4] != action_text(b)[4]);
    }
}

} // verus!
