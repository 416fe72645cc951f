use videre::json::{JsonNumber, JsonValue};
use videre::types::{
    ColumnInfo, ConnectionResult, ForeignKeyInfo, IndexInfo, RelationKind, RelationStructure,
    RoleInfo, RowData, SortDirection, SortSpec, TableData, TableInfo, TablePrivilege,
};
use videre::ui::connection_form::{Attempt, ConnectionForm, Status};
use videre::ui::indexes::{collect_indexes, indexes_header, sort_index_list, text_lt};
use videre::ui::metadata::{metadata_key, DbStore, FetchedMetadata, TableMetadata};
use videre::ui::roles::{
    counted_text, find_role, format_conn_limit, format_valid_until, group_privileges,
    perm_badge_class, permission_summary, permissions_count, priv_badge_class, role_permissions,
    roles_header, split_roles, summary_for_role, yes_no, RolePermissions,
};
use videre::ui::table_page::{
    column_info_plan, column_panel_content, escape_closes, footer_text, loading_context,
    metadata_value, next_disabled, page_label, page_summary, prev_disabled, relation_context,
    row_value, showing_range, total_pages_for, ColumnInfoPlan, ColumnInfoState, ColumnPanel,
    Drawer, RowPanel, RowValue, TablePageState, PAGE_SIZE,
};

fn table(name: &str, schema: &str) -> TableInfo {
    TableInfo { name: name.into(), schema: schema.into() }
}

fn fk(col: &str, target: &str) -> ForeignKeyInfo {
    ForeignKeyInfo {
        column_name: col.into(),
        foreign_table_schema: "public".into(),
        foreign_table_name: target.into(),
        foreign_column_name: "id".into(),
    }
}

fn index(name: &str, schema: &str, table: &str) -> IndexInfo {
    IndexInfo {
        index_name: name.into(),
        table_schema: schema.into(),
        table_name: table.into(),
        columns: vec!["id".into()],
        is_unique: true,
        is_primary: false,
        index_type: "btree".into(),
        size_bytes: 16384,
    }
}

fn grant(role: &str, schema: &str, table: &str, privs: &[&str]) -> TablePrivilege {
    TablePrivilege {
        grantee: role.into(),
        table_schema: schema.into(),
        table_name: table.into(),
        privileges: privs.iter().map(|p| p.to_string()).collect(),
    }
}

fn role(name: &str, login: bool, su: bool) -> RoleInfo {
    RoleInfo {
        role_name: name.into(),
        is_superuser: su,
        can_login: login,
        can_create_db: false,
        can_create_role: false,
        connection_limit: -1,
        valid_until: None,
        member_of: vec![],
    }
}

fn fetched() -> FetchedMetadata {
    FetchedMetadata {
        tables: vec![
            TableMetadata {
                table: table("heroes", "public"),
                foreign_keys: vec![fk("patron_god_id", "gods")],
                indexes: vec![index("pk_heroes", "public", "heroes"), index("a_idx", "public", "heroes")],
            },
            TableMetadata {
                table: table("gods", "public"),
                foreign_keys: vec![],
                indexes: vec![index("pk_gods", "public", "gods")],
            },
        ],
        roles: vec![role("videre", true, false), role("readers", false, false)],
        table_privileges: vec![
            grant("videre", "public", "gods", &["SELECT"]),
            grant("other", "public", "gods", &["INSERT"]),
            grant("videre", "public", "heroes", &["SELECT", "UPDATE"]),
        ],
    }
}

#[test]
fn fetched_metadata_is_read_back() {
    let mut db = DbStore::init();
    db.fetch_database_metadata();
    assert!(db.is_loading);
    db.finish_fetch(Ok(fetched()));
    assert!(db.is_connected);
    assert!(!db.is_loading);
    assert_eq!(db.tables.len(), 2);
    let fks = db.get_foreign_keys_for_table("heroes", "public");
    assert_eq!(fks.len(), 1);
    assert_eq!(fks[0].foreign_table_name, "gods");
    assert!(db.get_foreign_keys_for_table("gods", "public").is_empty());
    assert!(db.get_foreign_keys_for_table("nope", "public").is_empty());
    assert_eq!(db.get_indexes_for_table("gods", "public")[0].index_name, "pk_gods");
    let p = db.get_privileges_for_role("videre");
    assert_eq!(p.len(), 2);
    assert_eq!(p[1].table_name, "heroes");
    assert_eq!(metadata_key("public", "gods"), "public.gods");
}

#[test]
fn failed_fetch_and_disconnect() {
    let mut db = DbStore::init();
    db.finish_fetch(Err("boom".into()));
    assert!(!db.is_connected);
    assert_eq!(db.error.as_deref(), Some("Failed to fetch database metadata: boom"));
    db.finish_fetch(Ok(fetched()));
    db.finish_disconnect(Err("nope".into()));
    assert_eq!(db.error.as_deref(), Some("Failed to disconnect: nope"));
    assert!(db.is_connected);
    db.finish_disconnect(Ok(()));
    assert!(!db.is_connected);
    assert!(db.tables.is_empty());
    assert!(db.get_indexes_for_table("gods", "public").is_empty());
    assert_eq!(db.error, None);
}

#[test]
fn later_tables_win_a_shared_key() {
    let mut f = fetched();
    f.tables.push(TableMetadata {
        table: table("gods", "public"),
        foreign_keys: vec![fk("x", "y")],
        indexes: vec![],
    });
    let mut db = DbStore::init();
    db.finish_fetch(Ok(f));
    assert_eq!(db.get_foreign_keys_for_table("gods", "public")[0].column_name, "x");
}

#[test]
fn indexes_are_flattened_and_sorted() {
    let mut db = DbStore::init();
    db.finish_fetch(Ok(fetched()));
    let all = collect_indexes(&db);
    let names: Vec<_> = all.iter().map(|i| i.index_name.as_str()).collect();
    assert_eq!(names, vec!["pk_gods", "a_idx", "pk_heroes"]);
    assert_eq!(indexes_header(3, 2), "3 indexes across 2 tables");
    assert_eq!(indexes_header(1, 1), "1 index across 1 table");
}

#[test]
fn sorting_is_by_schema_table_then_name() {
    let sorted = sort_index_list(vec![
        index("b", "z", "t"),
        index("a", "a", "u"),
        index("c", "a", "t"),
        index("a", "a", "t"),
    ]);
    let keys: Vec<_> = sorted
        .iter()
        .map(|i| format!("{}.{}.{}", i.table_schema, i.table_name, i.index_name))
        .collect();
    assert_eq!(keys, vec!["a.t.a", "a.t.c", "a.u.a", "z.t.b"]);
    assert!(text_lt("ab", "b"));
    assert!(text_lt("a", "ab"));
    assert!(!text_lt("b", "ab"));
    assert!(!text_lt("x", "x"));
    assert!(text_lt("Z", "a"));
}

#[test]
fn role_labels() {
    assert_eq!(format_conn_limit(-1), "unlimited");
    assert_eq!(format_conn_limit(5), "5");
    assert_eq!(format_conn_limit(-2), "-2");
    assert_eq!(format_valid_until(&None), "\u{2014}");
    assert_eq!(format_valid_until(&Some(String::new())), "\u{2014}");
    assert_eq!(format_valid_until(&Some("2026-12-31".into())), "2026-12-31");
    assert_eq!(yes_no(true), "Yes");
    assert_eq!(counted_text(1, "table", "s"), "1 table");
    assert_eq!(counted_text(0, "table", "s"), "0 tables");
    assert_eq!(roles_header(1, 2), "1 user, 2 groups");
    assert_eq!(permissions_count(0), None);
    assert_eq!(permissions_count(2).as_deref(), Some(" (2 tables)"));
}

#[test]
fn permission_summaries() {
    let s = permission_summary(&[], true);
    assert_eq!((s.label.as_str(), s.kind), ("superuser", "superuser"));
    let s = permission_summary(&[], false);
    assert_eq!((s.label.as_str(), s.kind), ("no table access", "none"));
    let s = permission_summary(&[grant("r", "p", "t", &["SELECT"])], false);
    assert_eq!((s.label.as_str(), s.kind), ("read-only (1 table)", "read-only"));
    let s = permission_summary(
        &[grant("r", "p", "t", &["SELECT"]), grant("r", "p", "u", &["DELETE"])],
        false,
    );
    assert_eq!((s.label.as_str(), s.kind), ("read-write (2 tables)", "read-write"));
    let s = permission_summary(&[grant("r", "p", "t", &["INSERT"])], false);
    assert_eq!((s.label.as_str(), s.kind), ("write-only (1 table)", "mixed"));
    let s = permission_summary(&[grant("r", "p", "t", &["TRUNCATE"])], false);
    assert_eq!((s.label.as_str(), s.kind), ("mixed (1 table)", "mixed"));
    assert_eq!(perm_badge_class("superuser"), "badge badge-danger");
    assert_eq!(perm_badge_class("read-only"), "badge badge-info");
    assert_eq!(perm_badge_class("none"), "badge");
    assert_eq!(perm_badge_class("mixed"), "badge badge-warn");
    assert_eq!(priv_badge_class("SELECT"), "badge badge-success");
    assert_eq!(priv_badge_class("DELETE"), "badge badge-danger");
    assert_eq!(priv_badge_class("TRUNCATE"), "badge");
}

#[test]
fn grants_group_by_table() {
    let g = group_privileges(&[
        grant("r", "public", "gods", &["SELECT"]),
        grant("r", "public", "heroes", &["INSERT"]),
        grant("r", "public", "gods", &["UPDATE", "DELETE"]),
    ]);
    assert_eq!(g.len(), 2);
    assert_eq!(g[0].0, "public.gods");
    assert_eq!(g[0].1, vec!["SELECT", "UPDATE", "DELETE"]);
    assert_eq!(g[1].0, "public.heroes");
    assert!(matches!(role_permissions(true, &[]), RolePermissions::FullAccess));
    assert!(matches!(role_permissions(false, &[]), RolePermissions::NoDirect));
    assert!(matches!(
        role_permissions(false, &[grant("r", "p", "t", &["SELECT"])]),
        RolePermissions::Grouped(_)
    ));
}

#[test]
fn roles_split_and_summarised() {
    let roles = vec![role("videre", true, false), role("readers", false, false), role("admin", true, true)];
    let (users, groups) = split_roles(&roles);
    assert_eq!(users.len(), 2);
    assert_eq!(groups[0].role_name, "readers");
    assert_eq!(find_role(&roles, "admin").unwrap().role_name, "admin");
    assert!(find_role(&roles, "nobody").is_none());
    let mut db = DbStore::init();
    db.finish_fetch(Ok(fetched()));
    let s = summary_for_role(&db, &roles[0]);
    assert_eq!(s.label, "read-write (2 tables)");
}

fn data(rows: usize, total: i64) -> TableData {
    TableData {
        columns: vec!["id".into(), "name".into()],
        rows: (0..rows).map(|i| vec![JsonValue::Number(JsonNumber::from_i64(i as i64))]).collect(),
        total_rows: total,
    }
}

#[test]
fn paging_requests_and_answers() {
    let (mut st, req) = TablePageState::new("gods".into(), "public".into());
    assert_eq!(req.request_id, 1);
    assert_eq!((req.limit, req.offset), (PAGE_SIZE, 0));
    assert!(st.shows_loading());
    st.receive(1, Ok(data(100, 250)));
    assert!(!st.is_loading);
    assert_eq!(st.total_pages(), 3);
    let next = st.on_next();
    assert_eq!(next.offset, 100);
    assert_eq!(next.request_id, 2);
    let sorted = st.on_sort(Some(SortSpec { column: "name".into(), direction: SortDirection::Desc }));
    assert_eq!(sorted.offset, 0);
    assert_eq!(sorted.request_id, 3);
    assert_eq!(sorted.sort.unwrap().column, "name");
    // The answer to the superseded request is dropped.
    st.receive(2, Ok(data(1, 1)));
    assert!(st.is_loading);
    assert_eq!(st.data.as_ref().unwrap().total_rows, 250);
    st.receive(3, Err("timeout".into()));
    assert_eq!(st.error.as_deref(), Some("Failed to fetch data: timeout"));
    let prev = st.on_prev();
    assert_eq!(prev.offset, 0);
    assert_eq!(st.page, 0);
}

#[test]
fn page_texts() {
    assert_eq!(total_pages_for(0), 0);
    assert_eq!(total_pages_for(-5), 0);
    assert_eq!(total_pages_for(100), 1);
    assert_eq!(total_pages_for(101), 2);
    assert_eq!(showing_range(0, 250), (1, 100));
    assert_eq!(showing_range(2, 250), (201, 250));
    assert_eq!(footer_text(2, 250), "Showing 201 to 250 of 250 rows");
    assert_eq!(page_label(0, 3), "Page 1 of 3");
    assert!(prev_disabled(0));
    assert!(!next_disabled(1, 3));
    assert!(next_disabled(2, 3));
    assert_eq!(page_summary(&data(0, 0)), "Empty table \u{2022} 2 columns");
    assert_eq!(page_summary(&data(3, 3)), "3 total rows");
}

#[test]
fn drawers_and_panels() {
    assert_eq!(escape_closes(true, true), Some(Drawer::ColumnInfo));
    assert_eq!(escape_closes(false, true), Some(Drawer::ReferencedRow));
    assert_eq!(escape_closes(false, false), None);
    assert_eq!(column_info_plan(true, true), ColumnInfoPlan::UseKnown);
    assert_eq!(column_info_plan(false, false), ColumnInfoPlan::Fetch);
    assert_eq!(column_info_plan(false, true), ColumnInfoPlan::Wait);
    assert_eq!(metadata_value(None), "-");
    assert_eq!(metadata_value(Some(&String::new())), "-");
    assert_eq!(metadata_value(Some(&"x".to_string())), "x");
    assert_eq!(loading_context("public", "gods"), "public.gods \u{b7} Loading relation\u{2026}");
}

fn structure() -> RelationStructure {
    let col = |name: &str| ColumnInfo {
        name: name.into(),
        ordinal_position: 1,
        data_type: "integer".into(),
        nullable: false,
        collation: None,
        default_expression: None,
        identity: None,
        generated: None,
        generation_expression: None,
        comment: None,
        constraints: vec![],
    };
    RelationStructure {
        schema: "public".into(),
        relation: "gods".into(),
        relation_kind: RelationKind::MaterializedView,
        columns: vec![col("id"), col("name")],
    }
}

#[test]
fn column_panel_decisions() {
    let st = structure();
    assert_eq!(relation_context(&st), "public.gods \u{b7} materialized_view");
    assert!(matches!(column_panel_content(Some("id"), Some(&st), true, None), ColumnPanel::Loading));
    match column_panel_content(Some("id"), Some(&st), false, Some("bad")) {
        ColumnPanel::Error(m) => assert_eq!(m, "bad"),
        _ => panic!("expected the error"),
    }
    assert!(matches!(column_panel_content(None, Some(&st), false, None), ColumnPanel::NoColumnSelected));
    assert!(matches!(column_panel_content(Some("id"), None, false, None), ColumnPanel::Unavailable));
    assert!(matches!(column_panel_content(Some("name"), Some(&st), false, None), ColumnPanel::Details(1)));
    assert!(matches!(column_panel_content(Some("zz"), Some(&st), false, None), ColumnPanel::NotReturned));
}

#[test]
fn column_info_answers_are_checked_for_staleness() {
    let mut ci = ColumnInfoState::new();
    let first = ci.start();
    let second = ci.start();
    assert!(ci.receive(first, "public", "gods", Ok(structure())).is_none());
    assert!(ci.loading);
    assert!(ci.receive(second, "public", "gods", Ok(structure())).is_some());
    assert_eq!(ci.context, "public.gods \u{b7} materialized_view");
    let third = ci.start();
    assert!(ci.receive(third, "public", "gods", Err("x".into())).is_none());
    assert_eq!(ci.context, "public.gods");
    assert_eq!(ci.error.as_deref(), Some("Failed to fetch column information: x"));
}

#[test]
fn referenced_rows() {
    let mut panel = RowPanel::new();
    let lookup = panel.open_for(&fk("patron_god_id", "gods"), &JsonValue::Number(JsonNumber::from_i64(3)));
    assert!(panel.open && panel.loading);
    assert_eq!(panel.title, "gods");
    assert_eq!(lookup.pk_column, "id");
    assert_eq!(lookup.table_name, "gods");
    panel.receive(Err("gone".into()));
    assert_eq!(panel.error.as_deref(), Some("Failed to fetch row: gone"));
    panel.receive(Ok(RowData { columns: vec!["id".into()], values: vec![JsonValue::Null] }));
    assert!(panel.data.is_some());
    assert!(matches!(row_value(&JsonValue::Null), RowValue::Null));
    match row_value(&JsonValue::Object("{\"a\":1}".into())) {
        RowValue::Json(t) => assert_eq!(t, "{\n  \"a\": 1\n}"),
        _ => panic!("expected JSON"),
    }
    match row_value(&JsonValue::Bool(false)) {
        RowValue::Text(t) => assert_eq!(t, "false"),
        _ => panic!("expected text"),
    }
}

#[test]
fn connection_form_flow() {
    let mut form = ConnectionForm::new();
    assert_eq!(form.host, "localhost");
    assert_eq!(form.port, "5432");
    assert!(!form.is_loading());
    form.database = "videre_test".into();
    let cfg = form.start(Attempt::Test);
    assert_eq!(cfg.database, "videre_test");
    assert!(form.is_loading());
    form.finish(Attempt::Test, Ok(ConnectionResult { success: true, message: "Connection successful".into() }));
    assert!(matches!(&form.status, Status::Success(m) if m == "Connection successful"));
    form.start(Attempt::Connect);
    form.finish(Attempt::Connect, Err("refused".into()));
    assert!(matches!(&form.status, Status::Error(m) if m == "Failed to connect: refused"));
    form.finish(Attempt::Connect, Ok(ConnectionResult { success: false, message: "bad password".into() }));
    assert!(matches!(&form.status, Status::Error(m) if m == "bad password"));
}

use videre::types::{ColumnConstraint, ConstraintKind, ForeignKeyAction, IdentityKind};
use videre::ui::table_page::{column_comment, column_generation, column_overview, constraint_fields, join_or_dash};

fn pairs(v: Vec<videre::ui::table_page::DetailField>) -> Vec<(String, String)> {
    v.into_iter().map(|f| (f.label, f.value)).collect()
}

#[test]
fn constraint_fields_list_targets_only_for_foreign_keys() {
    let fkc = ColumnConstraint {
        name: "fk_parent".into(),
        kind: ConstraintKind::ForeignKey,
        definition: "FOREIGN KEY ...".into(),
        column_position: Some(2),
        source_columns: vec!["tenant".into(), "parent_id".into()],
        target_schema: Some("s".into()),
        target_relation: Some("target".into()),
        target_columns: vec![],
        on_update: Some(ForeignKeyAction::Cascade),
        on_delete: None,
    };
    assert_eq!(
        pairs(constraint_fields(&fkc)),
        vec![
            ("name".to_string(), "fk_parent".to_string()),
            ("position".to_string(), "2".to_string()),
            ("columns".to_string(), "tenant, parent_id".to_string()),
            ("referenced relation".to_string(), "s.target".to_string()),
            ("referenced columns".to_string(), "-".to_string()),
            ("on update".to_string(), "cascade".to_string()),
            ("on delete".to_string(), "-".to_string()),
        ]
    );
    let check = ColumnConstraint {
        name: "chk".into(),
        kind: ConstraintKind::Check,
        definition: "CHECK (amount > 0)".into(),
        column_position: None,
        source_columns: vec![],
        target_schema: None,
        target_relation: None,
        target_columns: vec![],
        on_update: None,
        on_delete: None,
    };
    assert_eq!(
        pairs(constraint_fields(&check)),
        vec![("name".to_string(), "chk".to_string()), ("columns".to_string(), "-".to_string())]
    );
    assert_eq!(join_or_dash(&vec!["a".into()]), "a");
}

#[test]
fn column_detail_sections() {
    let st = structure();
    let mut col = st.columns[0].clone();
    col.collation = Some("pg_catalog.\"C\"".into());
    col.identity = Some(IdentityKind::ByDefault);
    col.comment = Some(String::new());
    let overview = pairs(column_overview(&st, &col));
    assert_eq!(overview.len(), 6);
    assert_eq!(overview[0], ("Position".to_string(), "1".to_string()));
    assert_eq!(overview[1], ("Relation".to_string(), "public.gods".to_string()));
    assert_eq!(overview[2], ("relation kind".to_string(), "materialized_view".to_string()));
    assert_eq!(overview[4], ("nullable".to_string(), "false".to_string()));
    let generation = pairs(column_generation(&col));
    assert_eq!(generation[0], ("identity".to_string(), "by_default".to_string()));
    assert_eq!(generation[1], ("generated".to_string(), "-".to_string()));
    assert_eq!(column_comment(&col), None);
    col.comment = Some("A comment".into());
    assert_eq!(column_comment(&col).as_deref(), Some("A comment"));
}

use videre::ui::table_page::row_value_from;

#[test]
fn row_values_fall_back_to_compact_json() {
    match row_value_from(&JsonValue::Array("[1,2]".into()), None) {
        RowValue::Json(t) => assert_eq!(t, "[1,2]"),
        _ => panic!("expected JSON"),
    }
    match row_value_from(&JsonValue::Array("[1,2]".into()), Some("pretty".into())) {
        RowValue::Json(t) => assert_eq!(t, "pretty"),
        _ => panic!("expected JSON"),
    }
    match row_value(&JsonValue::Array("[1,2]".into())) {
        RowValue::Json(t) => assert_eq!(t, "[\n  1,\n  2\n]"),
        _ => panic!("expected JSON"),
    }
}
