use tokio_postgres::types::Type;
use videre::commands::{
    connection_string, not_connected, outcome, page_params, test_connection, DbState,
    DEFAULT_PAGE_SIZE,
};
use videre::json::{JsonNumber, JsonValue};
use videre::pg::convert::{BoundKey, ColumnDesc, ColumnPlan, PgType};
use videre::pg::data::{
    check_sort_column, column_probe_query, count_query, empty_page, page_query, row_not_found,
    row_query, sort_probe_query, sort_support, ProbeOutcome,
};
use videre::types::{ConnectionConfig, SortDirection};

fn plan(parts: &[(&str, Type)]) -> ColumnPlan {
    let cols: Vec<ColumnDesc> = parts
        .iter()
        .map(|(n, t)| ColumnDesc {
            name: n.to_string(),
            ty: PgType { oid: t.oid(), name: t.name().to_string() },
        })
        .collect();
    ColumnPlan::from_columns(&cols)
}

fn config() -> ConnectionConfig {
    ConnectionConfig {
        host: "localhost".into(),
        port: "5432".into(),
        database: "test".into(),
        username: "user".into(),
        password: "pass".into(),
    }
}

#[test]
fn page_query_orders_deterministically() {
    let p = plan(&[("id", Type::INT4), ("name", Type::TEXT), ("at", Type::TIMESTAMPTZ)]);
    let q = page_query(&p, "\"public\".\"gods\"", &vec!["id".to_string()], None, false, true).unwrap();
    assert_eq!(
        q,
        "SELECT \"id\", \"name\", \"at\"::text FROM \"public\".\"gods\" ORDER BY \"id\" LIMIT $1 OFFSET $2"
    );
    let q = page_query(&p, "r", &Vec::new(), Some("name"), true, true).unwrap();
    assert_eq!(
        q,
        "SELECT \"id\", \"name\", \"at\"::text FROM r ORDER BY \"name\" DESC NULLS LAST, \"id\", \"name\", \"at\"::text LIMIT $1 OFFSET $2"
    );
}

#[test]
fn unknown_sort_columns_are_refused() {
    let p = plan(&[("id", Type::INT4)]);
    assert!(check_sort_column(&p, None).is_ok());
    assert!(check_sort_column(&p, Some("id")).is_ok());
    let err = check_sort_column(&p, Some("id; DROP TABLE entries")).unwrap_err();
    assert!(err.contains("Unknown sort column"), "{err}");
    assert_eq!(err, "Unknown sort column \"id; DROP TABLE entries\"");
}

#[test]
fn sort_probe_and_support() {
    assert_eq!(
        sort_probe_query("r", "payload").unwrap(),
        "SELECT \"payload\" FROM r ORDER BY \"payload\" LIMIT 0"
    );
    assert!(sort_probe_query("r", "a\0b").is_err());
    assert_eq!(sort_support(&ProbeOutcome::Prepared), Ok(true));
    assert_eq!(
        sort_support(&ProbeOutcome::Failed { sqlstate: Some("42883".into()), message: "x".into() }),
        Ok(false)
    );
    assert_eq!(
        sort_support(&ProbeOutcome::Failed { sqlstate: None, message: "boom".into() }),
        Err("Failed to inspect sort support: boom".to_string())
    );
}

#[test]
fn simple_statements() {
    assert_eq!(column_probe_query("r"), "SELECT * FROM r");
    assert_eq!(count_query("r"), "SELECT COUNT(*) FROM r");
    assert_eq!(row_not_found(), "Row not found");
    let e = empty_page();
    assert!(e.columns.is_empty() && e.rows.is_empty());
    assert_eq!(e.total_rows, 0);
}

#[test]
fn row_lookup_uses_the_key_columns_type() {
    let p = plan(&[("id", Type::INT8), ("code", Type::NUMERIC)]);
    let (q, k) = row_query(&p, "r", "id", &JsonValue::Number(JsonNumber::from_i64(42))).unwrap();
    assert_eq!(q, "SELECT \"id\", \"code\"::text FROM r WHERE \"id\" = $1 LIMIT 1");
    assert_eq!(k, BoundKey::Int8(42));
    let (q, k) = row_query(&p, "r", "code", &JsonValue::String("12345.6700".into())).unwrap();
    assert_eq!(q, "SELECT \"id\", \"code\"::text FROM r WHERE \"code\"::text = $1 LIMIT 1");
    assert_eq!(k, BoundKey::Text("12345.6700".into()));
    let err = row_query(&p, "r", "nope", &JsonValue::Null).unwrap_err();
    assert_eq!(err, "r has no column named \"nope\"");
    let empty = plan(&[]);
    assert_eq!(row_query(&empty, "r", "id", &JsonValue::Null).unwrap_err(), "r has no columns");
}

#[test]
fn outcomes_are_reported_in_band() {
    let ok = outcome(Ok(()), "Connected successfully");
    assert!(ok.success);
    assert_eq!(ok.message, "Connected successfully");
    let bad = outcome(Err("Connection failed: refused".into()), "");
    assert!(!bad.success);
    assert_eq!(bad.message, "Connection failed: refused");
    assert_eq!(test_connection(Ok(())).message, "Connection successful");
    assert_eq!(not_connected(), "Not connected to database");
}

#[test]
fn connection_string_lists_every_setting() {
    assert_eq!(
        connection_string(&config()),
        "host=localhost port=5432 dbname=test user=user password=pass"
    );
}

#[test]
fn page_params_fill_defaults() {
    assert_eq!(page_params(None, None, None), (DEFAULT_PAGE_SIZE, 0, SortDirection::Asc));
    assert_eq!(page_params(Some(5), Some(10), Some(SortDirection::Desc)), (5, 10, SortDirection::Desc));
}

#[test]
fn disconnect_leaves_no_connection() {
    let mut state: DbState<u32> = DbState::new();
    assert_eq!(state.connection().unwrap_err(), "Not connected to database");
    let r = state.connect(Ok(7), config());
    assert!(r.success);
    assert_eq!(r.message, "Connected successfully");
    assert_eq!(*state.connection().unwrap(), 7);
    let r = state.connect(Err("Connection failed: nope".into()), config());
    assert!(!r.success);
    assert_eq!(*state.connection().unwrap(), 7);
    state.disconnect();
    assert!(state.connection.is_none());
    assert!(state.config.is_none());
    assert_eq!(state.connection().unwrap_err(), "Not connected to database");
}

#[test]
fn test_disconnect_clears_state() {
    let mut state: DbState<u32> = DbState::new();
    state.config = Some(config());
    assert!(state.config.is_some());
    state.disconnect();
    assert!(state.connection.is_none());
    assert!(state.config.is_none());
}
