//! The queries that read row data out of a relation, and the decisions made
//! between them: which column may be sorted on and how, which page of rows
//! to read, and how to look a row up by its key.

use vstd::prelude::*;

use crate::json::JsonModel;
use crate::pg::convert::{
    all_quotable, bind_key, first_unquotable, join, nul_ident_error, order_idents, order_terms,
    plan_names, predicate_for, predicate_lhs, quote_ident, quoted_ident, select_term, sort_term,
    views, bind_spec, BoundKey, BoundModel, ColumnModel, ColumnPlan,
};
use crate::text::{debug_quoted, debug_text, str_eq};
use crate::types::TableData;

verus! {

/// The text of the SELECT list of a plan, or the error for its first
/// column that cannot be quoted.
pub open spec fn select_list_spec(plan: Seq<ColumnModel>) -> Result<Seq<char>, Seq<char>> {
    if all_quotable(plan_names(plan)) {
        Ok(join(plan.map_values(|c: ColumnModel| select_term(c)), ", "@))
    } else {
        Err(nul_ident_error(first_unquotable(plan_names(plan))))
    }
}

/// The text of the ORDER BY list, or the error for its first identifier
/// that cannot be quoted.
pub open spec fn order_by_spec(
    plan: Seq<ColumnModel>,
    primary_key: Seq<Seq<char>>,
    sort_column: Option<Seq<char>>,
    descending: bool,
    native: bool,
) -> Result<Seq<char>, Seq<char>> {
    let idents = order_idents(plan, primary_key, sort_column);
    if all_quotable(idents) {
        Ok(join(order_terms(plan, primary_key, sort_column, descending, native), ", "@))
    } else {
        Err(nul_ident_error(first_unquotable(idents)))
    }
}

/// The statement whose columns describe a relation.
pub fn column_probe_query(relation: &str) -> (q: String)
    ensures
        q@ == "SELECT * FROM "@ + relation@,
{
    let mut q = String::new();
    q.append("SELECT * FROM ");
    q.append(relation);
    q
}

/// The statement that counts a relation's rows.
pub fn count_query(relation: &str) -> (q: String)
    ensures
        q@ == "SELECT COUNT(*) FROM "@ + relation@,
{
    let mut q = String::new();
    q.append("SELECT COUNT(*) FROM ");
    q.append(relation);
    q
}

/// The statement whose preparation tells whether `column` has an ordering
/// of its own; it reads no rows.
pub fn sort_probe_query(relation: &str, column: &str) -> (r: Result<String, String>)
    ensures
        match r {
            Ok(q) => !column@.contains('\0') && q@ == "SELECT "@ + quoted_ident(column@)
                + " FROM "@ + relation@ + " ORDER BY "@ + quoted_ident(column@) + " LIMIT 0"@,
            Err(e) => column@.contains('\0') && e@ == nul_ident_error(column@),
        },
{
    let ident = quote_ident(column)?;
    let mut q = String::new();
    q.append("SELECT ");
    q.append(ident.as_str());
    q.append(" FROM ");
    q.append(relation);
    q.append(" ORDER BY ");
    q.append(ident.as_str());
    q.append(" LIMIT 0");
    Ok(q)
}

/// The SQLSTATE PostgreSQL reports when a type has no ordering operator.
pub open spec fn undefined_function_code() -> Seq<char> {
    "42883"@
}

/// How preparing the sort probe went: prepared, or refused with the
/// server's SQLSTATE (where the error came from the server) and the error's
/// text.
#[derive(Clone, Debug, PartialEq, Eq)]
pub enum ProbeOutcome {
    Prepared,
    Failed { sqlstate: Option<String>, message: String },
}

/// Whether a column sorts natively: yes when the probe prepared, no when
/// the server found no ordering for its type (the column is then sorted by
/// its text form), and an error for any other failure.
pub fn sort_support(outcome: &ProbeOutcome) -> (r: Result<bool, String>)
    ensures
        match outcome {
            ProbeOutcome::Prepared => r == Ok::<bool, String>(true),
            ProbeOutcome::Failed { sqlstate, message } => match sqlstate {
                Some(code) if code@ == undefined_function_code() => r == Ok::<bool, String>(
                    false,
                ),
                _ => r matches Err(e) && e@ == "Failed to inspect sort support: "@ + message@,
            },
        },
{
    match outcome {
        ProbeOutcome::Prepared => Ok(true),
        ProbeOutcome::Failed { sqlstate, message } => {
            if let Some(code) = sqlstate {
                if str_eq(code.as_str(), "42883") {
                    return Ok(false);
                }
            }
            let mut e = String::new();
            e.append("Failed to inspect sort support: ");
            e.append(message.as_str());
            Err(e)
        },
    }
}

/// Refuses a sort column the relation does not have, before it reaches SQL.
pub fn check_sort_column(plan: &ColumnPlan, sort_column: Option<&str>) -> (r: Result<(), String>)
    ensures
        match sort_column {
            None => r is Ok,
            Some(c) => if plan_names(plan@).contains(c@) {
                r is Ok
            } else {
                r matches Err(e) && e@ == "Unknown sort column "@ + debug_text(c@)
            },
        },
{
    match sort_column {
        None => Ok(()),
        Some(column) => {
            if plan.has_column(column) {
                proof {
                    let k = choose|k: int| 0 <= k < plan@.len() && plan@[k].name == column@;
                    assert(plan_names(plan@)[k] == column@);
                }
                Ok(())
            } else {
                proof {
                    if plan_names(plan@).contains(column@) {
                        let k = choose|k: int|
                            0 <= k < plan_names(plan@).len() && plan_names(plan@)[k] == column@;
                        assert(plan@[k].name == column@);
                    }
                }
                let mut e = String::new();
                e.append("Unknown sort column ");
                let d = debug_quoted(column);
                e.append(d.as_str());
                Err(e)
            }
        },
    }
}

/// The query for one page of rows: the planned SELECT list, a total order
/// (see [`order_terms`]), and the page's bounds as parameters.
pub open spec fn page_query_spec(
    plan: Seq<ColumnModel>,
    relation: Seq<char>,
    primary_key: Seq<Seq<char>>,
    sort_column: Option<Seq<char>>,
    descending: bool,
    native: bool,
) -> Result<Seq<char>, Seq<char>> {
    match select_list_spec(plan) {
        Err(e) => Err(e),
        Ok(list) => match order_by_spec(plan, primary_key, sort_column, descending, native) {
            Err(e) => Err(e),
            Ok(order) => Ok(
                "SELECT "@ + list + " FROM "@ + relation + " ORDER BY "@ + order
                    + " LIMIT $1 OFFSET $2"@,
            ),
        },
    }
}

/// The query for one page of rows; see [`page_query_spec`].
pub fn page_query(
    plan: &ColumnPlan,
    relation: &str,
    primary_key: &Vec<String>,
    sort_column: Option<&str>,
    descending: bool,
    native_sort: bool,
) -> (r: Result<String, String>)
    ensures
        match r {
            Ok(q) => page_query_spec(
                plan@,
                relation@,
                views(primary_key@),
                match sort_column {
                    Some(c) => Some(c@),
                    None => None,
                },
                descending,
                native_sort,
            ) == Ok::<Seq<char>, Seq<char>>(q@),
            Err(e) => page_query_spec(
                plan@,
                relation@,
                views(primary_key@),
                match sort_column {
                    Some(c) => Some(c@),
                    None => None,
                },
                descending,
                native_sort,
            ) == Err::<Seq<char>, Seq<char>>(e@),
        },
{
    let list = plan.select_list()?;
    let order = plan.order_by(primary_key, sort_column, descending, native_sort)?;
    let mut q = String::new();
    q.append("SELECT ");
    q.append(list.as_str());
    q.append(" FROM ");
    q.append(relation);
    q.append(" ORDER BY ");
    q.append(order.as_str());
    q.append(" LIMIT $1 OFFSET $2");
    Ok(q)
}

/// The page returned for a relation with no columns, without querying it.
pub fn empty_page() -> (d: TableData)
    ensures
        d.columns@.len() == 0,
        d.rows@.len() == 0,
        d.total_rows == 0,
{
    TableData { columns: Vec::new(), rows: Vec::new(), total_rows: 0 }
}

/// The query and parameter that look a row up by key, or the reason there
/// is none: the relation has no columns, has no such column, or the key
/// does not bind for the column's type.
pub open spec fn row_query_spec(
    plan: Seq<ColumnModel>,
    relation: Seq<char>,
    pk_column: Seq<char>,
    pk_value: JsonModel,
) -> Result<(Seq<char>, BoundModel), Seq<char>> {
    if plan.len() == 0 {
        Err(relation + " has no columns"@)
    } else if !plan_names(plan).contains(pk_column) {
        Err(relation + " has no column named "@ + debug_text(pk_column))
    } else {
        let j = choose|j: int|
            0 <= j < plan.len() && plan[j].name == pk_column && (forall|k: int|
                0 <= k < j ==> plan[k].name != pk_column);
        let predicate = predicate_for(plan[j].oid, plan[j].ty_name);
        match bind_spec(pk_value, predicate) {
            Err(e) => Err(e),
            Ok(param) => match select_list_spec(plan) {
                Err(e) => Err(e),
                Ok(list) => if pk_column.contains('\0') {
                    Err(nul_ident_error(pk_column))
                } else {
                    Ok(
                        (
                            "SELECT "@ + list + " FROM "@ + relation + " WHERE "@ + predicate_lhs(
                                predicate,
                                quoted_ident(pk_column),
                            ) + " = $1 LIMIT 1"@,
                            param,
                        ),
                    )
                },
            },
        }
    }
}

proof fn lemma_first_match_unique(plan: Seq<ColumnModel>, c: Seq<char>, a: int, b: int)
    requires
        0 <= a < plan.len(),
        0 <= b < plan.len(),
        plan[a].name == c,
        plan[b].name == c,
        forall|k: int| 0 <= k < a ==> plan[k].name != c,
        forall|k: int| 0 <= k < b ==> plan[k].name != c,
    ensures
        a == b,
{
}

/// Builds the lookup of a row by key; see [`row_query_spec`]. The key's type
/// and the comparison both come from the key column's own type.
pub fn row_query(plan: &ColumnPlan, relation: &str, pk_column: &str, pk_value: &crate::json::JsonValue) -> (r:
    Result<(String, BoundKey), String>)
    ensures
        match r {
            Ok((q, k)) => row_query_spec(plan@, relation@, pk_column@, pk_value@) == Ok::<
                (Seq<char>, BoundModel),
                Seq<char>,
            >((q@, k@)),
            Err(e) => row_query_spec(plan@, relation@, pk_column@, pk_value@) == Err::<
                (Seq<char>, BoundModel),
                Seq<char>,
            >(e@),
        },
{
    if plan.is_empty() {
        let mut e = relation.to_owned();
        e.append(" has no columns");
        return Err(e);
    }
    let predicate = match plan.key_predicate(pk_column) {
        Some(p) => p,
        None => {
            proof {
                if plan_names(plan@).contains(pk_column@) {
                    let k = choose|k: int|
                        0 <= k < plan_names(plan@).len() && plan_names(plan@)[k] == pk_column@;
                    assert(plan@[k].name == pk_column@);
                }
            }
            let mut e = relation.to_owned();
            e.append(" has no column named ");
            let d = debug_quoted(pk_column);
            e.append(d.as_str());
            return Err(e);
        },
    };
    proof {
        let j0 = choose|j: int|
            0 <= j < plan@.len() && plan@[j].name == pk_column@ && (forall|k: int|
                0 <= k < j ==> plan@[k].name != pk_column@) && predicate@ == predicate_for(
                plan@[j].oid,
                plan@[j].ty_name,
            );
        assert(plan_names(plan@)[j0] == pk_column@);
        let j = choose|j: int|
            0 <= j < plan@.len() && plan@[j].name == pk_column@ && (forall|k: int|
                0 <= k < j ==> plan@[k].name != pk_column@);
        lemma_first_match_unique(plan@, pk_column@, j0, j);
    }
    let param = bind_key(pk_value, &predicate)?;
    let list = plan.select_list()?;
    let ident = quote_ident(pk_column)?;
    let lhs = predicate.lhs(ident.as_str());
    let mut q = String::new();
    q.append("SELECT ");
    q.append(list.as_str());
    q.append(" FROM ");
    q.append(relation);
    q.append(" WHERE ");
    q.append(lhs.as_str());
    q.append(" = $1 LIMIT 1");
    Ok((q, param))
}

/// The message for a key that matched no row.
pub fn row_not_found() -> (e: String)
    ensures
        e@ == "Row not found"@,
{
    let mut e = String::new();
    e.append("Row not found");
    e
}

/// Whether a statement only reads: it begins with `SELECT `.
pub open spec fn reads_only(q: Seq<char>) -> bool {
    q.len() >= 7 && q.take(7) == "SELECT "@
}

/// A statement that starts with `SELECT ` only reads.
proof fn lemma_select_prefix(rest: Seq<char>)
    ensures
        reads_only("SELECT "@ + rest),
{
    reveal_strlit("SELECT ");
    assert(("SELECT "@ + rest).take(7) =~= "SELECT "@);
}

/// The ORDER BY of a page leads with the user's sort column in the direction
/// asked for, with NULLs last either way: `ASC` unless `descending`, `DESC`
/// when it is; the column compared natively, or by its text where its type
/// does not order.
pub proof fn law_sort_direction_is_kept(
    plan: Seq<ColumnModel>,
    primary_key: Seq<Seq<char>>,
    column: Seq<char>,
    descending: bool,
    native: bool,
)
    ensures
        order_by_spec(plan, primary_key, Some(column), descending, native) matches Ok(o) ==> {
            let compared = if native {
                quoted_ident(column)
            } else {
                quoted_ident(column) + "::text"@
            };
            let lead = compared + if descending {
                " DESC NULLS LAST"@
            } else {
                " ASC NULLS LAST"@
            };
            o.len() >= lead.len() && o.take(lead.len() as int) == lead
        },
{
    if let Ok(o) = order_by_spec(plan, primary_key, Some(column), descending, native) {
        let terms = order_terms(plan, primary_key, Some(column), descending, native);
        lemma_join_starts_with(terms, ", "@);
    }
}

/// A joined list begins with its first element.
proof fn lemma_join_starts_with(list: Seq<Seq<char>>, sep: Seq<char>)
    requires
        list.len() > 0,
    ensures
        join(list, sep).len() >= list[0].len(),
        join(list, sep).take(list[0].len() as int) == list[0],
    decreases list.len(),
{
    if list.len() > 1 {
        let rest = list.drop_last();
        lemma_join_starts_with(rest, sep);
        let j = join(rest, sep);
        assert(rest[0] == list[0]);
        assert((j + sep + list.last()).take(list[0].len() as int) =~= j.take(list[0].len() as int));
    }
}

/// An ORDER BY term with no direction of its own, which SQL sorts
/// ascending: a quoted identifier, cast to `text` or not.
pub open spec fn ascending_term(t: Seq<char>) -> bool {
    exists|name: Seq<char>| #[trigger] quoted_ident(name) == t || quoted_ident(name) + "::text"@ == t
}

/// Pages read in turn neither overlap nor skip rows. Every page of a
/// relation is read by one statement whose only parameters are the page's
/// bounds (`LIMIT $1 OFFSET $2`), and its ORDER BY is a total order: the
/// user's sort column first, where there is one, with NULLs last in either
/// direction; then, ascending, the primary-key columns in constraint order,
/// or every column of the relation in table order where there is no primary
/// key.
pub proof fn law_page_order_is_total(
    plan: Seq<ColumnModel>,
    relation: Seq<char>,
    primary_key: Seq<Seq<char>>,
    sort_column: Option<Seq<char>>,
    descending: bool,
    native: bool,
)
    ensures
        page_query_spec(plan, relation, primary_key, sort_column, descending, native) matches Ok(q)
            ==> {
            let terms = order_terms(plan, primary_key, sort_column, descending, native);
            let lead: int = if sort_column is Some {
                1
            } else {
                0
            };
            &&& select_list_spec(plan) is Ok
            &&& q == "SELECT "@ + select_list_spec(plan)->Ok_0 + " FROM "@ + relation
                + " ORDER BY "@ + join(terms, ", "@) + " LIMIT $1 OFFSET $2"@
            &&& sort_column matches Some(c) ==> terms[0] == sort_term(c, descending, native)
                && terms[0].len() >= 11 && terms[0].skip(terms[0].len() - 11) == " NULLS LAST"@
            &&& primary_key.len() > 0 ==> terms.len() == lead + primary_key.len() && forall|i: int|
                0 <= i < primary_key.len() ==> #[trigger] terms[lead + i] == quoted_ident(
                    primary_key[i],
                )
            &&& primary_key.len() == 0 ==> terms.len() == lead + plan.len() && forall|i: int|
                0 <= i < plan.len() ==> #[trigger] terms[lead + i] == select_term(plan[i])
            &&& forall|i: int| lead <= i < terms.len() ==> ascending_term(#[trigger] terms[i])
        },
{
    if let Ok(q) = page_query_spec(plan, relation, primary_key, sort_column, descending, native) {
        let terms = order_terms(plan, primary_key, sort_column, descending, native);
        let lead: int = if sort_column is Some {
            1
        } else {
            0
        };
        if let Some(c) = sort_column {
            lemma_ends_nulls_last(c, descending, native);
        }
        assert forall|i: int| lead <= i < terms.len() implies ascending_term(#[trigger] terms[i]) by {
            if primary_key.len() > 0 {
                let k = primary_key[i - lead];
                assert(terms[i] == quoted_ident(k));
                assert(quoted_ident(k) == terms[i]);
            } else {
                let c = plan[i - lead];
                assert(terms[i] == select_term(c));
                assert(quoted_ident(c.name) == terms[i] || quoted_ident(c.name) + "::text"@
                    == terms[i]);
            }
        }
    }
}

/// The sort term ends with `NULLS LAST`.
proof fn lemma_ends_nulls_last(c: Seq<char>, descending: bool, native: bool)
    ensures
        ({
            let t = sort_term(c, descending, native);
            t.len() >= 11 && t.skip(t.len() - 11) == " NULLS LAST"@
        }),
{
    reveal_strlit(" NULLS LAST");
    reveal_strlit(" DESC NULLS LAST");
    reveal_strlit(" ASC NULLS LAST");
    reveal_strlit("::text");
    let base = if native {
        quoted_ident(c)
    } else {
        quoted_ident(c) + "::text"@
    };
    let t = sort_term(c, descending, native);
    if descending {
        assert(t =~= base + " DESC NULLS LAST"@);
        assert(t.skip(t.len() - 11) =~= " NULLS LAST"@);
    } else {
        assert(t =~= base + " ASC NULLS LAST"@);
        assert(t.skip(t.len() - 11) =~= " NULLS LAST"@);
    }
}

/// Every statement the library builds to read a relation is a `SELECT`:
/// the page and row queries, the count, and the probes.
pub proof fn law_queries_only_read(
    plan: Seq<ColumnModel>,
    relation: Seq<char>,
    primary_key: Seq<Seq<char>>,
    sort_column: Option<Seq<char>>,
    descending: bool,
    native: bool,
    pk_column: Seq<char>,
    pk_value: JsonModel,
    column: Seq<char>,
)
    ensures
        page_query_spec(plan, relation, primary_key, sort_column, descending, native) matches Ok(q)
            ==> reads_only(q),
        row_query_spec(plan, relation, pk_column, pk_value) matches Ok((q, _)) ==> reads_only(q),
        reads_only("SELECT * FROM "@ + relation),
        reads_only("SELECT COUNT(*) FROM "@ + relation),
        reads_only(
            "SELECT "@ + quoted_ident(column) + " FROM "@ + relation + " ORDER BY "@ + quoted_ident(
                column,
            ) + " LIMIT 0"@,
        ),
{
    lemma_page_reads_only(plan, relation, primary_key, sort_column, descending, native);
    lemma_row_reads_only(plan, relation, pk_column, pk_value);
    lemma_probes_read_only(relation, column);
}

proof fn lemma_page_reads_only(
    plan: Seq<ColumnModel>,
    relation: Seq<char>,
    primary_key: Seq<Seq<char>>,
    sort_column: Option<Seq<char>>,
    descending: bool,
    native: bool,
)
    ensures
        page_query_spec(plan, relation, primary_key, sort_column, descending, native) matches Ok(q)
            ==> reads_only(q),
{
    if let Ok(q) = page_query_spec(plan, relation, primary_key, sort_column, descending, native) {
        let list = select_list_spec(plan)->Ok_0;
        let order = order_by_spec(plan, primary_key, sort_column, descending, native)->Ok_0;
        let rest = list + " FROM "@ + relation + " ORDER BY "@ + order + " LIMIT $1 OFFSET $2"@;
        lemma_select_prefix(rest);
        assert(q =~= "SELECT "@ + rest);
    }
}

proof fn lemma_row_reads_only(
    plan: Seq<ColumnModel>,
    relation: Seq<char>,
    pk_column: Seq<char>,
    pk_value: JsonModel,
)
    ensures
        row_query_spec(plan, relation, pk_column, pk_value) matches Ok((q, _)) ==> reads_only(q),
{
    if let Ok((q, _)) = row_query_spec(plan, relation, pk_column, pk_value) {
        let j = choose|j: int|
            0 <= j < plan.len() && plan[j].name == pk_column && (forall|k: int|
                0 <= k < j ==> plan[k].name != pk_column);
        let predicate = predicate_for(plan[j].oid, plan[j].ty_name);
        let list = select_list_spec(plan)->Ok_0;
        let rest = list + " FROM "@ + relation + " WHERE "@ + predicate_lhs(
            predicate,
            quoted_ident(pk_column),
        ) + " = $1 LIMIT 1"@;
        lemma_select_prefix(rest);
        assert(q =~= "SELECT "@ + rest);
    }
}

proof fn lemma_probes_read_only(relation: Seq<char>, column: Seq<char>)
    ensures
        reads_only("SELECT * FROM "@ + relation),
        reads_only("SELECT COUNT(*) FROM "@ + relation),
        reads_only(
            "SELECT "@ + quoted_ident(column) + " FROM "@ + relation + " ORDER BY "@ + quoted_ident(
                column,
            ) + " LIMIT 0"@,
        ),
{
    reveal_strlit("SELECT ");
    reveal_strlit("SELECT * FROM ");
    reveal_strlit("SELECT COUNT(*) FROM ");
    assert(("SELECT * FROM "@ + relation).take(7) =~= "SELECT "@);
    assert(("SELECT COUNT(*) FROM "@ + relation).take(7) =~= "SELECT "@);
    let qi = quoted_ident(column);
    let rest = qi + " FROM "@ + relation + " ORDER BY "@ + qi + " LIMIT 0"@;
    lemma_select_prefix(rest);
    assert("SELECT "@ + qi + " FROM "@ + relation + " ORDER BY "@ + qi + " LIMIT 0"@ =~= "SELECT "@
        + rest);
}

} // verus!
