use tabularis_informix_plugin::handlers::crud::{
    check_single_row, count_rows_sql, delete_plan, insert_sql, inserted_count, update_plan,
    where_eq,
};
use tabularis_informix_plugin::json::{JsonNumber, JsonValue};

fn obj(pairs: Vec<(&str, JsonValue)>) -> JsonValue {
    JsonValue::Object(pairs.into_iter().map(|(k, v)| (k.to_string(), v)).collect())
}

fn s(v: &str) -> JsonValue {
    JsonValue::String(v.to_string())
}

#[test]
fn where_eq_quotes_identifier_and_value() {
    assert_eq!(where_eq("id", &JsonValue::Number(JsonNumber::PosInt(42))), "\"id\" = 42");
    assert_eq!(where_eq("name", &s("O'Brien")), "\"name\" = 'O''Brien'");
    assert_eq!(where_eq("active", &JsonValue::Bool(true)), "\"active\" = 't'");
}

#[test]
fn insert_statement() {
    let top = obj(vec![
        ("table", s("orders")),
        (
            "data",
            obj(vec![
                ("id", JsonValue::Number(JsonNumber::PosInt(1))),
                ("note", s("it's")),
                ("paid", JsonValue::Null),
            ]),
        ),
    ]);
    assert_eq!(
        insert_sql(&top).unwrap(),
        "INSERT INTO \"orders\" (\"id\", \"note\", \"paid\") VALUES (1, 'it''s', NULL)"
    );
}

#[test]
fn insert_errors() {
    let e = insert_sql(&obj(vec![("data", obj(vec![]))])).unwrap_err();
    assert_eq!(e.message, "missing required field 'table'");
    let e = insert_sql(&obj(vec![("table", s("t"))])).unwrap_err();
    assert_eq!(e.message, "insert_record requires a 'data' object");
    let e = insert_sql(&obj(vec![("table", s("t")), ("data", JsonValue::Array(vec![]))])).unwrap_err();
    assert_eq!(e.message, "insert_record requires a 'data' object");
    let e = insert_sql(&obj(vec![("table", s("t")), ("data", obj(vec![]))])).unwrap_err();
    assert_eq!(e.code, -32602);
    assert_eq!(e.message, "insert_record requires at least one column");
}

#[test]
fn update_and_delete_plans() {
    let top = obj(vec![
        ("table", s("t")),
        ("pk_col", s("id")),
        ("col_name", s("name")),
        ("pk_val", JsonValue::Number(JsonNumber::PosInt(7))),
        ("new_val", s("x")),
    ]);
    let u = update_plan(&top).unwrap();
    assert_eq!(u.table, "t");
    assert_eq!(u.where_clause, "\"id\" = 7");
    assert_eq!(u.sql, "UPDATE \"t\" SET \"name\" = 'x' WHERE \"id\" = 7");
    let d = delete_plan(&obj(vec![("table", s("t")), ("pk_col", s("id"))])).unwrap();
    assert_eq!(d.sql, "DELETE FROM \"t\" WHERE \"id\" = NULL");
    let e = update_plan(&obj(vec![("table", s("t")), ("pk_col", s("id"))])).unwrap_err();
    assert_eq!(e.message, "missing required field 'col_name'");
    assert_eq!(
        count_rows_sql("t", "\"id\" = 7"),
        "SELECT COUNT(*) FROM \"t\" WHERE \"id\" = 7"
    );
}

#[test]
fn single_row_guard() {
    assert!(check_single_row(None, "w", "update").is_ok());
    assert!(check_single_row(Some(1), "w", "update").is_ok());
    assert!(check_single_row(Some(0), "w", "update").is_ok());
    let e = check_single_row(Some(3), "\"id\" = 7", "delete").unwrap_err();
    assert_eq!(e.code, -32602);
    assert_eq!(
        e.message,
        "refusing to delete: the row identifier (\"id\" = 7) matches 3 rows, not 1. \
         This table likely has a composite primary key — edit it from the SQL editor with a \
         WHERE clause that covers every key column."
    );
}

#[test]
fn insert_reports_at_least_one_row() {
    assert_eq!(inserted_count(0), 1);
    assert_eq!(inserted_count(5), 5);
}
