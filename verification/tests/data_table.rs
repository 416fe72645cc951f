use videre::json::{format_value, JsonNumber, JsonValue};
use videre::types::{SortDirection, SortSpec};
use videre::ui::data_table::next_sort;

fn s(v: &str) -> JsonValue {
    JsonValue::String(v.to_string())
}

fn n(v: i64) -> JsonValue {
    JsonValue::Number(JsonNumber::from_i64(v))
}

fn f(text: &str) -> JsonValue {
    JsonValue::Number(JsonNumber::Float(text.to_string()))
}

#[test]
fn sort_cycle_is_ascending_descending_then_default() {
    let ascending = next_sort(None, "name").unwrap();
    assert_eq!(ascending.column, "name");
    assert_eq!(ascending.direction, SortDirection::Asc);

    let descending = next_sort(Some(&ascending), "name").unwrap();
    assert_eq!(descending.direction, SortDirection::Desc);
    assert_eq!(next_sort(Some(&descending), "name"), None);
}

#[test]
fn selecting_another_column_starts_ascending() {
    let current = SortSpec {
        column: "name".into(),
        direction: SortDirection::Desc,
    };

    assert_eq!(
        next_sort(Some(&current), "created_at"),
        Some(SortSpec {
            column: "created_at".into(),
            direction: SortDirection::Asc,
        })
    );
}

#[test]
fn format_null_returns_empty() {
    assert_eq!(format_value(&JsonValue::Null), "");
}

#[test]
fn format_string() {
    assert_eq!(format_value(&s("hello")), "hello");
}

#[test]
fn format_number() {
    assert_eq!(format_value(&n(42)), "42");
    assert_eq!(format_value(&f("3.14")), "3.14");
}

#[test]
fn format_bool() {
    assert_eq!(format_value(&JsonValue::Bool(true)), "true");
    assert_eq!(format_value(&JsonValue::Bool(false)), "false");
}

#[test]
fn format_array_uses_to_string() {
    let val = JsonValue::Array("[1,2,3]".to_string());
    let formatted = format_value(&val);
    assert_eq!(formatted, val.to_json_text());
    assert_eq!(formatted, "[1,2,3]");
}

#[test]
fn format_object_uses_to_string() {
    let val = JsonValue::Object("{\"key\":\"value\"}".to_string());
    let formatted = format_value(&val);
    assert_eq!(formatted, val.to_json_text());
}

#[test]
fn backend_values_reach_the_cell_intact() {
    let cases = [
        (n(9223372036854775807i64), "9223372036854775807"),
        (n(32767), "32767"),
        (f("0.1"), "0.1"),
        (f("2.5"), "2.5"),
        (JsonValue::Bool(true), "true"),
        (
            s("12345678901234567890.1234567890"),
            "12345678901234567890.1234567890",
        ),
        (s("2024-01-15 10:30:00+00"), "2024-01-15 10:30:00+00"),
        (s("2024-01-15"), "2024-01-15"),
        (s("3 days 04:00:00"), "3 days 04:00:00"),
        (s("$1,234.56"), "$1,234.56"),
        (s("\\x48656c6c6f"), "\\x48656c6c6f"),
        (s("{\"b\": [1, 2]}"), "{\"b\": [1, 2]}"),
        (s("{alpha,beta}"), "{alpha,beta}"),
        (s("{{1,2},{3,4}}"), "{{1,2},{3,4}}"),
        (s("{[1,5),[10,20)}"), "{[1,5),[10,20)}"),
        (s("'a' 'cat' 'fat'"), "'a' 'cat' 'fat'"),
        (
            s("0b7f2c1e-4a5d-4f8e-9c3a-1d2e3f4a5b6c"),
            "0b7f2c1e-4a5d-4f8e-9c3a-1d2e3f4a5b6c",
        ),
        (s("<r><a>1</a></r>"), "<r><a>1</a></r>"),
        (s("(3,4),(1,2)"), "(3,4),(1,2)"),
        (s("ab      "), "ab      "),
    ];

    for (value, expected) in cases {
        assert_eq!(format_value(&value), expected, "for {value:?}");
        assert!(!value.is_null(), "for {value:?}");
    }
}

#[test]
fn empty_string_and_null_stay_distinguishable() {
    let empty = s("");
    let null = JsonValue::Null;

    assert_eq!(format_value(&empty), "");
    assert_eq!(format_value(&null), "");
    assert!(!empty.is_null());
    assert!(null.is_null());
}

#[test]
fn unreadable_marker_is_not_swallowed() {
    let val = s("<unreadable: some driver error>");
    assert_eq!(format_value(&val), "<unreadable: some driver error>");
}

#[test]
fn negative_numbers_and_json_text_of_strings() {
    assert_eq!(format_value(&n(-7)), "-7");
    assert_eq!(s("a\"b").to_json_text(), "\"a\\\"b\"");
}

#[test]
fn three_clicks_return_to_default_even_after_another_column() {
    let other = SortSpec { column: "id".into(), direction: SortDirection::Asc };
    let a = next_sort(Some(&other), "name").unwrap();
    assert_eq!(a.direction, SortDirection::Asc);
    let d = next_sort(Some(&a), "name").unwrap();
    assert_eq!(d.direction, SortDirection::Desc);
    assert_eq!(next_sort(Some(&d), "name"), None);
}

use videre::types::ForeignKeyInfo;
use videre::ui::data_table::{cell_display, fk_by_column, sort_indicator, CellDisplay};

fn fk(col: &str, target: &str) -> ForeignKeyInfo {
    ForeignKeyInfo {
        column_name: col.into(),
        foreign_table_schema: "public".into(),
        foreign_table_name: target.into(),
        foreign_column_name: "id".into(),
    }
}

#[test]
fn foreign_key_columns_are_found_by_name() {
    let columns = vec!["id".to_string(), "patron_god_id".to_string(), "name".to_string()];
    let fks = vec![fk("patron_god_id", "gods"), fk("patron_god_id", "titans")];
    let by = fk_by_column(&columns, &fks);
    assert_eq!(by.len(), 3);
    assert!(by[0].is_none());
    assert_eq!(by[1].as_ref().unwrap().foreign_table_name, "titans");
    assert!(by[2].is_none());
}

#[test]
fn header_arrows_follow_the_sort() {
    let asc = SortSpec { column: "name".into(), direction: SortDirection::Asc };
    let desc = SortSpec { column: "name".into(), direction: SortDirection::Desc };
    assert_eq!(sort_indicator(Some(&asc), "name"), ('\u{25B2}', true));
    assert_eq!(sort_indicator(Some(&desc), "name"), ('\u{25BC}', true));
    assert_eq!(sort_indicator(Some(&desc), "id"), ('\u{25B2}', false));
    assert_eq!(sort_indicator(None, "id"), ('\u{25B2}', false));
}

#[test]
fn cells_show_null_links_and_text() {
    assert!(matches!(cell_display(&JsonValue::Null, None), CellDisplay::Null));
    assert!(matches!(cell_display(&JsonValue::Null, Some(&fk("a", "b"))), CellDisplay::Null));
    match cell_display(&n(3), Some(&fk("god_id", "gods"))) {
        CellDisplay::Link { text, title } => {
            assert_eq!(text, "3");
            assert_eq!(title, "View gods record");
        }
        _ => panic!("expected a link"),
    }
    match cell_display(&s("Zeus"), None) {
        CellDisplay::Plain(t) => assert_eq!(t, "Zeus"),
        _ => panic!("expected text"),
    }
}

#[test]
fn strings_escape_as_json_does() {
    assert_eq!(s("line\nbreak\t\"q\"\\").to_json_text(), "\"line\\nbreak\\t\\\"q\\\"\\\\\"");
    assert_eq!(s("\u{1}\u{1f}\u{8}\u{c}\r").to_json_text(), "\"\\u0001\\u001f\\b\\f\\r\"");
    assert_eq!(s("é/").to_json_text(), "\"é/\"");
}
