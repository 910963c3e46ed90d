use tabularis_informix_plugin::json::{JsonNumber, JsonValue};
use tabularis_informix_plugin::utils::values::{format_sql_value, quote_string};

#[test]
fn null_literal() {
    assert_eq!(format_sql_value(&JsonValue::Null), "NULL");
}

#[test]
fn boolean_literals() {
    assert_eq!(format_sql_value(&JsonValue::Bool(true)), "'t'");
    assert_eq!(format_sql_value(&JsonValue::Bool(false)), "'f'");
}

#[test]
fn numbers_are_verbatim() {
    assert_eq!(format_sql_value(&JsonValue::Number(JsonNumber::PosInt(42))), "42");
    assert_eq!(
        format_sql_value(&JsonValue::Number(JsonNumber::Float("3.5".to_string()))),
        "3.5"
    );
}

#[test]
fn strings_are_quoted_and_escaped() {
    assert_eq!(
        format_sql_value(&JsonValue::String("O'Brien".to_string())),
        "'O''Brien'"
    );
    assert_eq!(format_sql_value(&JsonValue::String("plain".to_string())), "'plain'");
}

#[test]
fn negative_and_extreme_integers() {
    assert_eq!(format_sql_value(&JsonValue::Number(JsonNumber::NegInt(-17))), "-17");
    assert_eq!(
        format_sql_value(&JsonValue::Number(JsonNumber::NegInt(i64::MIN))),
        "-9223372036854775808"
    );
    assert_eq!(
        format_sql_value(&JsonValue::Number(JsonNumber::PosInt(u64::MAX))),
        "18446744073709551615"
    );
    assert_eq!(format_sql_value(&JsonValue::Number(JsonNumber::PosInt(0))), "0");
}

#[test]
fn arrays_and_objects_become_quoted_json_text() {
    let arr = JsonValue::Array(vec![
        JsonValue::Number(JsonNumber::PosInt(1)),
        JsonValue::String("it's".to_string()),
        JsonValue::Null,
        JsonValue::Bool(true),
    ]);
    assert_eq!(format_sql_value(&arr), "'[1,\"it''s\",null,true]'");
    let obj = JsonValue::Object(vec![
        ("a".to_string(), JsonValue::Array(vec![])),
        ("b\"c".to_string(), JsonValue::String("x\ny\u{1}\\".to_string())),
    ]);
    assert_eq!(format_sql_value(&obj), "'{\"a\":[],\"b\\\"c\":\"x\\ny\\u0001\\\\\"}'");
}

#[test]
fn quote_string_doubles_quotes() {
    assert_eq!(quote_string(""), "''");
    assert_eq!(quote_string("''"), "''''''");
    assert_eq!(quote_string("a'b'c"), "'a''b''c'");
}
