use tabularis_informix_plugin::client::{cell_value, CellValue, NumKind};
use tabularis_informix_plugin::handlers::crud::{count_rows_sql, update_plan};
use tabularis_informix_plugin::handlers::ddl::{
    build_alter_column, build_create_foreign_key, build_create_table, ColumnDef,
};
use tabularis_informix_plugin::json::{to_json_string, JsonNumber, JsonValue};
use tabularis_informix_plugin::utils::pagination::paginate;
use tabularis_informix_plugin::utils::types::decode_type;

fn col(name: &str, ty: &str, is_pk: bool, auto: bool, nullable: bool) -> ColumnDef {
    ColumnDef {
        name: name.to_string(),
        data_type: ty.to_string(),
        is_nullable: nullable,
        is_pk,
        is_auto_increment: auto,
        default_value: None,
    }
}

#[test]
fn primary_key_line_only_with_a_primary_key() {
    let with_pk = build_create_table(
        "t",
        &[col("a", "INTEGER", true, false, false), col("b", "TEXT", true, false, true)],
    );
    assert_eq!(
        with_pk,
        "CREATE TABLE \"t\" (\n  \"a\" INTEGER NOT NULL,\n  \"b\" TEXT,\n  PRIMARY KEY (\"a\", \"b\")\n)"
    );
    let without = build_create_table("t", &[col("a", "INTEGER", false, false, true)]);
    assert_eq!(without, "CREATE TABLE \"t\" (\n  \"a\" INTEGER\n)");
    assert!(!without.contains("PRIMARY KEY"));
}

#[test]
fn rename_only_when_the_name_changes() {
    let old = col("a", "INTEGER", false, false, true);
    let same = build_alter_column("t", &old, &col("a", "BIGINT", false, false, true));
    assert_eq!(same, vec!["ALTER TABLE \"t\" MODIFY (\"a\" BIGINT)".to_string()]);
    let renamed = build_alter_column("t", &old, &col("b", "INTEGER", false, false, true));
    assert_eq!(renamed.len(), 2);
    assert_eq!(renamed[0], "RENAME COLUMN \"t\".\"a\" TO \"b\"");
    assert_eq!(renamed[1], "ALTER TABLE \"t\" MODIFY (\"b\" INTEGER)");
}

#[test]
fn serial_columns_have_no_explicit_not_null() {
    let sql = build_create_table("t", &[col("id", "bigint", false, true, false)]);
    assert_eq!(sql, "CREATE TABLE \"t\" (\n  \"id\" BIGSERIAL\n)");
    let sql = build_create_table("t", &[col("id", "serial8", false, true, false)]);
    assert_eq!(sql, "CREATE TABLE \"t\" (\n  \"id\" serial8\n)");
}

#[test]
fn consecutive_pages_are_adjacent() {
    let q = "SELECT * FROM t";
    assert_eq!(paginate(q, 1, 25), "SELECT SKIP 0 FIRST 25 * FROM t");
    assert_eq!(paginate(q, 2, 25), "SELECT SKIP 25 FIRST 25 * FROM t");
    assert_eq!(paginate(q, 3, 25), "SELECT SKIP 50 FIRST 25 * FROM t");
}

#[test]
fn paginating_twice_changes_nothing() {
    for q in ["SELECT * FROM t;", "  select a from b  ", "SELECT", "DELETE FROM t", "SELECT FIRST 3 a FROM t"] {
        let once = paginate(q, 2, 10);
        assert_eq!(paginate(&once, 5, 7), once, "query {q:?}");
    }
}

#[test]
fn high_coltype_flags_are_ignored() {
    let plain = decode_type(256 + 13, 40, None);
    let flagged = decode_type(256 + 13 + 512 * 3, 40, None);
    assert_eq!(plain, flagged);
    assert_eq!(flagged.sql_type, "VARCHAR(40)");
    assert!(flagged.is_not_null);
}

#[test]
fn guard_counts_the_edited_rows() {
    let top = JsonValue::Object(vec![
        ("table".to_string(), JsonValue::String("orders".to_string())),
        ("pk_col".to_string(), JsonValue::String("id".to_string())),
        ("col_name".to_string(), JsonValue::String("qty".to_string())),
        ("pk_val".to_string(), JsonValue::Number(JsonNumber::PosInt(9))),
        ("new_val".to_string(), JsonValue::Number(JsonNumber::PosInt(2))),
    ]);
    let edit = update_plan(&top).unwrap();
    assert_eq!(edit.where_clause, "\"id\" = 9");
    assert!(edit.sql.ends_with(&format!(" WHERE {}", edit.where_clause)));
    assert_eq!(
        count_rows_sql(&edit.table, &edit.where_clause),
        "SELECT COUNT(*) FROM \"orders\" WHERE \"id\" = 9"
    );
}

#[test]
fn integer_cells_read_back() {
    for n in [0i64, 7, -7, 1234567890, i64::MAX, i64::MIN] {
        match cell_value(Some(&n.to_string()), NumKind::Int) {
            CellValue::Json(v) => assert_eq!(to_json_string(&v), n.to_string()),
            CellValue::FloatText(t) => panic!("unexpected float text {t}"),
        }
    }
}

#[test]
fn foreign_key_statement_actions() {
    let plain = build_create_foreign_key(
        "orders", "fk", "cust_id", "customer", "id", None,
    );
    assert!(!plain.contains("ON DELETE"));
    assert!(!plain.contains("ON UPDATE"));
    assert!(plain.ends_with(" CONSTRAINT \"fk\""));
    let cascade = build_create_foreign_key(
        "orders", "fk", "cust_id", "customer", "id", Some("cascade"),
    );
    assert!(cascade.contains(" ON DELETE CASCADE"));
    assert!(!cascade.contains("ON UPDATE"));
    assert!(cascade.ends_with(" CONSTRAINT \"fk\""));
    let restrict = build_create_foreign_key(
        "orders", "fk", "cust_id", "customer", "id", Some("RESTRICT"),
    );
    assert_eq!(restrict, plain);
}
