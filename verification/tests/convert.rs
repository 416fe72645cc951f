use tokio_postgres::types::Type;
use videre::json::{JsonNumber, JsonValue};
use videre::pg::convert::{
    bind_key, decode_cell, decode_row, float_to_json, qualified_name, quote_ident, BoundKey,
    CellRead, ColumnDesc, ColumnPlan, Decoder, FloatKey, KeyPredicate, PgType,
};

fn pg(ty: &Type) -> PgType {
    PgType { oid: ty.oid(), name: ty.name().to_string() }
}

fn from_parts(parts: &[(&str, Type)]) -> ColumnPlan {
    let cols: Vec<ColumnDesc> = parts
        .iter()
        .map(|(n, t)| ColumnDesc { name: n.to_string(), ty: pg(t) })
        .collect();
    ColumnPlan::from_columns(&cols)
}

fn typed(ty: Type) -> KeyPredicate {
    KeyPredicate::for_type(&pg(&ty))
}

fn for_type(ty: &Type) -> Decoder {
    Decoder::for_type(&pg(ty))
}

fn int_value(n: i64) -> JsonValue {
    JsonValue::Number(JsonNumber::from_i64(n))
}

fn text(s: &str) -> JsonValue {
    JsonValue::String(s.to_string())
}

#[test]
fn quotes_plain_identifiers() {
    assert_eq!(quote_ident("created_at").unwrap(), "\"created_at\"");
    assert_eq!(quote_ident("Mixed Case").unwrap(), "\"Mixed Case\"");
}

#[test]
fn doubles_embedded_quotes() {
    assert_eq!(quote_ident("we\"ird").unwrap(), "\"we\"\"ird\"");
    assert_eq!(
        quote_ident("x\" ; DROP TABLE t; --").unwrap(),
        "\"x\"\" ; DROP TABLE t; --\""
    );
}

#[test]
fn rejects_nul_in_identifier() {
    assert!(quote_ident("bad\0name").is_err());
}

#[test]
fn qualifies_and_quotes_both_parts() {
    assert_eq!(
        qualified_name("public", "gods").unwrap(),
        "\"public\".\"gods\""
    );
}

#[test]
fn timestamps_are_cast_to_text_not_dropped() {
    assert_eq!(for_type(&Type::TIMESTAMPTZ), Decoder::AsText);
    assert_eq!(for_type(&Type::TIMESTAMP), Decoder::AsText);
    assert!(for_type(&Type::TIMESTAMPTZ).needs_cast());
}

#[test]
fn numeric_goes_to_text_to_keep_its_precision() {
    assert_eq!(for_type(&Type::NUMERIC), Decoder::AsText);
}

#[test]
fn previously_unsupported_types_all_have_a_decoder() {
    for ty in [
        Type::DATE,
        Type::TIME,
        Type::INTERVAL,
        Type::JSON,
        Type::JSONB,
        Type::BYTEA,
        Type::UUID,
        Type::INET,
        Type::MONEY,
        Type::TEXT_ARRAY,
        Type::INT4_ARRAY,
    ] {
        assert_eq!(
            for_type(&ty),
            Decoder::AsText,
            "{ty} should be rendered by the server, not dropped"
        );
    }
}

#[test]
fn native_types_are_decoded_without_a_cast() {
    for (ty, expected) in [
        (Type::BOOL, Decoder::Bool),
        (Type::INT2, Decoder::Int2),
        (Type::INT4, Decoder::Int4),
        (Type::INT8, Decoder::Int8),
        (Type::FLOAT4, Decoder::Float4),
        (Type::FLOAT8, Decoder::Float8),
        (Type::TEXT, Decoder::Text),
        (Type::VARCHAR, Decoder::Text),
        (Type::BPCHAR, Decoder::Text),
        (Type::NAME, Decoder::Text),
    ] {
        assert_eq!(for_type(&ty), expected, "for {ty}");
        assert!(!for_type(&ty).needs_cast(), "for {ty}");
    }
}

#[test]
fn select_list_casts_only_what_needs_it() {
    let plan = from_parts(&[
        ("id", Type::INT4),
        ("name", Type::TEXT),
        ("created_at", Type::TIMESTAMPTZ),
    ]);
    assert_eq!(
        plan.select_list().unwrap(),
        "\"id\", \"name\", \"created_at\"::text"
    );
    assert_eq!(plan.names(), vec!["id", "name", "created_at"]);
}

#[test]
fn select_list_escapes_column_names() {
    let plan = from_parts(&[("we\"ird", Type::TIMESTAMPTZ)]);
    assert_eq!(plan.select_list().unwrap(), "\"we\"\"ird\"::text");
}

#[test]
fn empty_relation_is_detectable() {
    assert!(from_parts(&[]).is_empty());
    assert!(!from_parts(&[("id", Type::INT4)]).is_empty());
}

#[test]
fn key_predicate_comes_from_the_column_not_the_value() {
    let plan = from_parts(&[("id", Type::INT8), ("code", Type::NUMERIC)]);
    assert!(matches!(plan.key_predicate("id"), Some(KeyPredicate::Typed(_))));
    assert!(matches!(plan.key_predicate("code"), Some(KeyPredicate::AsText)));
    assert!(plan.key_predicate("nope").is_none());
}

#[test]
fn predicate_lhs_only_casts_when_it_must() {
    assert_eq!(typed(Type::INT8).lhs("\"id\""), "\"id\"");
    assert_eq!(typed(Type::UUID).lhs("\"id\""), "\"id\"");
    assert_eq!(typed(Type::NUMERIC).lhs("\"id\""), "\"id\"::text");
    assert_eq!(typed(Type::DATE).lhs("\"d\""), "\"d\"::text");
}

#[test]
fn every_integer_width_binds() {
    for ty in [Type::INT2, Type::INT4, Type::INT8] {
        assert!(bind_key(&int_value(42), &typed(ty.clone())).is_ok(), "{ty} should bind");
    }
    assert!(bind_key(&int_value(9_223_372_036_854_775_807i64), &typed(Type::INT8)).is_ok());
}

#[test]
fn out_of_range_keys_are_reported_not_truncated() {
    let err = bind_key(&int_value(2_147_483_648i64), &typed(Type::INT4)).unwrap_err();
    assert!(err.contains("out of range"), "{err}");

    let err = bind_key(&int_value(40_000), &typed(Type::INT2)).unwrap_err();
    assert!(err.contains("out of range"), "{err}");
}

#[test]
fn integers_also_accept_their_string_form() {
    assert!(bind_key(&text("9007199254740993"), &typed(Type::INT8)).is_ok());
    assert!(bind_key(&text("not a number"), &typed(Type::INT8)).is_err());
}

#[test]
fn uuid_shaped_text_binds_as_text_when_the_column_is_text() {
    let uuid = text("0b7f2c1e-4a5d-4f8e-9c3a-1d2e3f4a5b6c");
    assert!(bind_key(&uuid, &typed(Type::TEXT)).is_ok());
    assert!(bind_key(&uuid, &typed(Type::UUID)).is_ok());
    assert!(bind_key(&text("nope"), &typed(Type::UUID)).is_err());
}

#[test]
fn mismatched_and_null_keys_are_rejected_clearly() {
    assert!(bind_key(&JsonValue::Null, &typed(Type::INT4))
        .unwrap_err()
        .contains("cannot be null"));
    assert!(bind_key(&JsonValue::Bool(true), &typed(Type::INT4)).is_err());
    assert!(bind_key(
        &JsonValue::Number(JsonNumber::Float("1.5".to_string())),
        &typed(Type::INT8)
    )
    .is_err());
    assert!(bind_key(&int_value(7), &typed(Type::TEXT)).is_err());
}

#[test]
fn text_fallback_carries_the_servers_own_rendering() {
    assert!(bind_key(&text("12345.6700"), &KeyPredicate::AsText).is_ok());
    assert!(bind_key(&text("2024-01-15"), &KeyPredicate::AsText).is_ok());
}

#[test]
fn floats_keep_their_shortest_form() {
    let f = |s: &str| JsonValue::Number(JsonNumber::Float(s.to_string()));
    assert_eq!(float_to_json(&0.1f32.to_string(), true), f("0.1"));
    assert_eq!(float_to_json(&0.1f64.to_string(), true), f("0.1"));
    assert_eq!(float_to_json(&(-2.5f64).to_string(), true), f("-2.5"));
}

#[test]
fn non_finite_floats_become_text_not_null() {
    assert_eq!(float_to_json(&f64::NAN.to_string(), false), text("NaN"));
    assert_eq!(float_to_json(&f64::INFINITY.to_string(), false), text("inf"));
    assert_eq!(float_to_json(&f32::NEG_INFINITY.to_string(), false), text("-inf"));
}

#[test]
fn uuid_keys_parse_to_their_bits() {
    let b = bind_key(&text("0b7f2c1e-4a5d-4f8e-9c3a-1d2e3f4a5b6c"), &typed(Type::UUID)).unwrap();
    assert_eq!(b, BoundKey::Uuid(0x0b7f2c1e_4a5d_4f8e_9c3a_1d2e3f4a5b6c));
}

#[test]
fn typed_keys_keep_their_value() {
    assert_eq!(bind_key(&int_value(42), &typed(Type::INT2)).unwrap(), BoundKey::Int2(42));
    assert_eq!(bind_key(&text(" 42 "), &typed(Type::INT8)).unwrap(), BoundKey::Int8(42));
    assert_eq!(bind_key(&JsonValue::Bool(true), &typed(Type::BOOL)).unwrap(), BoundKey::Bool(true));
    assert_eq!(
        bind_key(&text("12345.6700"), &KeyPredicate::AsText).unwrap(),
        BoundKey::Text("12345.6700".to_string())
    );
}

#[test]
fn cells_decode_without_losing_anything() {
    assert_eq!(decode_cell(&CellRead::Null), JsonValue::Null);
    assert_eq!(decode_cell(&CellRead::Int(32767)), int_value(32767));
    assert_eq!(decode_cell(&CellRead::Bool(true)), JsonValue::Bool(true));
    assert_eq!(decode_cell(&CellRead::Text(String::new())), text(""));
    assert_eq!(
        decode_cell(&CellRead::Failed("some driver error".to_string())),
        text("<unreadable: some driver error>")
    );
    let row = decode_row(&vec![CellRead::Int(-1), CellRead::Null]);
    assert_eq!(row, vec![int_value(-1), JsonValue::Null]);
}

#[test]
fn order_by_puts_the_sort_column_first_then_the_key() {
    let plan = from_parts(&[("id", Type::INT4), ("payload", Type::JSON)]);
    let pk = vec!["id".to_string()];
    assert_eq!(
        plan.order_by(&pk, Some("payload"), true, false).unwrap(),
        "\"payload\"::text DESC NULLS LAST, \"id\""
    );
    assert_eq!(plan.order_by(&pk, None, false, true).unwrap(), "\"id\"");
    assert_eq!(
        plan.order_by(&Vec::new(), None, false, true).unwrap(),
        "\"id\", \"payload\"::text"
    );
}

use videre::pg::convert::{float_from_parsed, uuid_from_parsed};

#[test]
fn floats_take_the_number_serde_reads() {
    let f = |s: &str| JsonValue::Number(JsonNumber::Float(s.to_string()));
    assert_eq!(float_to_json("1e2", true), f("100.0"));
    assert_eq!(float_to_json("7", true), int_value(7));
    assert_eq!(float_from_parsed("0.5", true, Some(JsonNumber::Float("0.5".into()))), f("0.5"));
    assert_eq!(float_from_parsed("NaN", false, Some(JsonNumber::PosInt(1))), text("NaN"));
    assert_eq!(float_from_parsed("x", true, None), text("x"));
}

#[test]
fn uuid_keys_report_what_did_not_parse() {
    assert_eq!(uuid_from_parsed(Some(5), "whatever"), Ok(5));
    assert_eq!(
        uuid_from_parsed(None, "nope"),
        Err("Key value \"nope\" is not a UUID".to_string())
    );
    assert_eq!(
        bind_key(&text(" nope "), &typed(Type::UUID)).unwrap_err(),
        "Key value \" nope \" is not a UUID"
    );
}

#[test]
fn float_keys_are_read_once_trimmed() {
    assert_eq!(
        bind_key(&text(" 1.5 "), &typed(Type::FLOAT8)).unwrap(),
        BoundKey::Float8(FloatKey::Text("1.5".to_string()))
    );
    assert_eq!(
        bind_key(&text("-Infinity"), &typed(Type::FLOAT4)).unwrap(),
        BoundKey::Float4(FloatKey::Text("-Infinity".to_string()))
    );
    assert_eq!(
        bind_key(&int_value(3), &typed(Type::FLOAT8)).unwrap(),
        BoundKey::Float8(FloatKey::Number(JsonNumber::from_i64(3)))
    );
}

#[test]
fn float_keys_that_do_not_parse_are_refused() {
    assert_eq!(
        bind_key(&text("abc"), &typed(Type::FLOAT8)).unwrap_err(),
        "Key value \"abc\" is not a number"
    );
    assert_eq!(
        bind_key(&text(" 1.2.3 "), &typed(Type::FLOAT4)).unwrap_err(),
        "Key value \" 1.2.3 \" is not a number"
    );
    assert_eq!(
        bind_key(&JsonValue::Bool(true), &typed(Type::FLOAT8)).unwrap_err(),
        "Expected a numeric key value, got true"
    );
}

#[test]
fn float_key_syntax_is_that_of_f64_parsing() {
    let samples = [
        "0", "1.5", ".5", "5.", ".", "", "+", "-", "+.5", "-1e10", "1E-5", "1e+5", "1e", "1e+",
        "e5", ".e5", "1.e5", "inf", "INF", "+inf", "-Infinity", "infinit", "infinityy", "NaN",
        "-nan", "nan1", "1_000", "0x10", "1e400", "١", "1.2.3", "12e3.4", "--1", "+-1",
    ];
    for s in samples {
        let expected = s.parse::<f64>().is_ok();
        let got = bind_key(&text(s), &typed(Type::FLOAT8)).is_ok();
        assert_eq!(got, expected, "{s:?}");
    }
}
