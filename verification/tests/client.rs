use tabularis_informix_plugin::client::{
    affected_from_scalar, cell_value, i64_to_json, numeric_kind, scalar_i64, CellValue, NumKind,
    QueryOutcome, SqlTypeKind, AFFECTED_ROWS_SQL,
};
use tabularis_informix_plugin::json::{to_json_string, JsonNumber, JsonValue};

fn json_of(c: CellValue) -> String {
    match c {
        CellValue::Json(v) => to_json_string(&v),
        CellValue::FloatText(t) => format!("float:{t}"),
    }
}

fn one(cell: JsonValue) -> QueryOutcome {
    QueryOutcome { columns: vec!["c".to_string()], rows: vec![vec![cell]] }
}

#[test]
fn column_kinds() {
    for k in [SqlTypeKind::TinyInt, SqlTypeKind::SmallInt, SqlTypeKind::Integer, SqlTypeKind::BigInt] {
        assert!(matches!(numeric_kind(&k), NumKind::Int));
    }
    for k in [SqlTypeKind::Float, SqlTypeKind::Real, SqlTypeKind::Double] {
        assert!(matches!(numeric_kind(&k), NumKind::Float));
    }
    assert!(matches!(numeric_kind(&SqlTypeKind::Other), NumKind::Text));
}

#[test]
fn integer_cells_become_numbers() {
    assert_eq!(json_of(cell_value(Some(" 42 "), NumKind::Int)), "42");
    assert_eq!(json_of(cell_value(Some("-7"), NumKind::Int)), "-7");
    assert_eq!(json_of(cell_value(Some("+7"), NumKind::Int)), "7");
    assert_eq!(json_of(cell_value(Some("-9223372036854775808"), NumKind::Int)), "-9223372036854775808");
}

#[test]
fn unparsable_integer_cells_stay_text() {
    assert_eq!(json_of(cell_value(Some("12a"), NumKind::Int)), "\"12a\"");
    assert_eq!(json_of(cell_value(Some("9223372036854775808"), NumKind::Int)), "\"9223372036854775808\"");
    assert_eq!(json_of(cell_value(Some(""), NumKind::Int)), "\"\"");
}

#[test]
fn decimal_and_text_cells_stay_strings() {
    assert_eq!(json_of(cell_value(Some("12.50"), NumKind::Text)), "\"12.50\"");
    assert_eq!(json_of(cell_value(Some(" a\"b "), NumKind::Text)), "\" a\\\"b \"");
}

#[test]
fn float_cells_are_handed_back_as_text() {
    assert_eq!(json_of(cell_value(Some(" 3.5 "), NumKind::Float)), "float: 3.5 ");
}

#[test]
fn null_cells_are_null() {
    assert_eq!(json_of(cell_value(None, NumKind::Int)), "null");
    assert_eq!(json_of(cell_value(None, NumKind::Text)), "null");
    assert_eq!(json_of(cell_value(None, NumKind::Float)), "null");
}

#[test]
fn i64_numbers() {
    assert_eq!(to_json_string(&i64_to_json(0)), "0");
    assert_eq!(to_json_string(&i64_to_json(-1)), "-1");
    assert_eq!(to_json_string(&i64_to_json(i64::MAX)), "9223372036854775807");
}

#[test]
fn scalar_reads() {
    assert_eq!(scalar_i64(&one(JsonValue::Number(JsonNumber::PosInt(5)))), Some(5));
    assert_eq!(scalar_i64(&one(JsonValue::Number(JsonNumber::NegInt(-5)))), Some(-5));
    assert_eq!(scalar_i64(&one(JsonValue::Number(JsonNumber::PosInt(u64::MAX)))), None);
    assert_eq!(scalar_i64(&one(JsonValue::String(" 12 ".to_string()))), Some(12));
    assert_eq!(scalar_i64(&one(JsonValue::String("x".to_string()))), None);
    assert_eq!(scalar_i64(&one(JsonValue::Null)), None);
    assert_eq!(scalar_i64(&QueryOutcome::default()), None);
    assert_eq!(
        scalar_i64(&QueryOutcome { columns: vec![], rows: vec![vec![]] }),
        None
    );
}

#[test]
fn affected_rows_never_negative() {
    assert_eq!(affected_from_scalar(Some(3)), 3);
    assert_eq!(affected_from_scalar(Some(-2)), 0);
    assert_eq!(affected_from_scalar(None), 0);
    assert_eq!(
        AFFECTED_ROWS_SQL,
        "SELECT DBINFO('sqlca.sqlerrd2') FROM systables WHERE tabid = 1"
    );
}
