use tabularis_informix_plugin::handlers::ddl::column_clause;
use tabularis_informix_plugin::handlers::ddl::{
    build_add_column, build_alter_column, build_create_foreign_key, build_create_index,
    build_create_table, drop_foreign_key_sql, drop_index_sql, effective_type,
    get_add_column_sql, get_alter_column_sql, get_create_foreign_key_sql, get_create_index_sql,
    get_create_table_sql, ColumnDef,
};
use tabularis_informix_plugin::json::JsonValue;

fn col(name: &str, ty: &str) -> ColumnDef {
    ColumnDef {
        name: name.to_string(),
        data_type: ty.to_string(),
        is_nullable: true,
        is_pk: false,
        is_auto_increment: false,
        default_value: None,
    }
}

fn obj(pairs: Vec<(&str, JsonValue)>) -> JsonValue {
    JsonValue::Object(pairs.into_iter().map(|(k, v)| (k.to_string(), v)).collect())
}

fn s(v: &str) -> JsonValue {
    JsonValue::String(v.to_string())
}

fn strings(v: &JsonValue) -> Vec<String> {
    match v {
        JsonValue::Array(items) => items
            .iter()
            .map(|i| match i {
                JsonValue::String(s) => s.clone(),
                other => panic!("not a string: {other:?}"),
            })
            .collect(),
        other => panic!("not an array: {other:?}"),
    }
}

#[test]
fn create_table_with_pk_and_serial() {
    let mut id = col("id", "INTEGER");
    id.is_auto_increment = true;
    id.is_pk = true;
    id.is_nullable = false;
    let mut name = col("name", "VARCHAR(40)");
    name.is_nullable = false;
    let sql = build_create_table("customer", &[id, name]);
    assert!(sql.contains("CREATE TABLE \"customer\" ("), "{sql}");
    assert!(sql.contains("\"id\" SERIAL"), "{sql}");
    assert!(sql.contains("\"name\" VARCHAR(40) NOT NULL"), "{sql}");
    assert!(sql.contains("PRIMARY KEY (\"id\")"), "{sql}");
}

#[test]
fn serial_substitution_by_size() {
    let mut big = col("id", "BIGINT");
    big.is_auto_increment = true;
    assert_eq!(effective_type(&big), "BIGSERIAL");
    let mut i8 = col("id", "INT8");
    i8.is_auto_increment = true;
    assert_eq!(effective_type(&i8), "SERIAL8");
}

#[test]
fn add_column_with_default() {
    let mut c = col("status", "VARCHAR(10)");
    c.default_value = Some("'new'".to_string());
    c.is_nullable = false;
    let sql = build_add_column("orders", &c);
    assert_eq!(
        sql,
        "ALTER TABLE \"orders\" ADD \"status\" VARCHAR(10) DEFAULT 'new' NOT NULL"
    );
}

#[test]
fn alter_column_rename_and_modify() {
    let old = col("qty", "INTEGER");
    let new = col("quantity", "BIGINT");
    let stmts = build_alter_column("orders", &old, &new);
    assert_eq!(stmts.len(), 2);
    assert_eq!(stmts[0], "RENAME COLUMN \"orders\".\"qty\" TO \"quantity\"");
    assert_eq!(stmts[1], "ALTER TABLE \"orders\" MODIFY (\"quantity\" BIGINT)");
}

#[test]
fn create_unique_index() {
    let sql = build_create_index("t", "idx_email", &["email".to_string()], true);
    assert_eq!(sql, "CREATE UNIQUE INDEX \"idx_email\" ON \"t\" (\"email\")");
}

#[test]
fn foreign_key_with_cascade() {
    let sql = build_create_foreign_key(
        "orders",
        "fk_cust",
        "customer_id",
        "customer",
        "id",
        Some("CASCADE"),
    );
    assert_eq!(
        sql,
        "ALTER TABLE \"orders\" ADD CONSTRAINT FOREIGN KEY (\"customer_id\") \
         REFERENCES \"customer\" (\"id\") ON DELETE CASCADE CONSTRAINT \"fk_cust\""
    );
}

#[test]
fn foreign_key_without_action() {
    let sql = build_create_foreign_key("o", "fk", "c_id", "c", "id", None);
    assert!(!sql.contains("ON DELETE"), "{sql}");
    assert!(sql.ends_with("CONSTRAINT \"fk\""), "{sql}");
}

#[test]
fn create_table_full_text() {
    let mut a = col("a", "int8");
    a.is_auto_increment = true;
    a.is_pk = true;
    let mut b = col("b", "CHAR(2)");
    b.is_pk = true;
    b.default_value = Some("'x'".to_string());
    let sql = build_create_table("t", &[a, b]);
    assert_eq!(
        sql,
        "CREATE TABLE \"t\" (\n  \"a\" SERIAL8,\n  \"b\" CHAR(2) DEFAULT 'x',\n  PRIMARY KEY (\"a\", \"b\")\n)"
    );
    let plain = build_create_table("u", &[col("x", "TEXT")]);
    assert_eq!(plain, "CREATE TABLE \"u\" (\n  \"x\" TEXT\n)");
}

#[test]
fn effective_type_cases() {
    let mut s = col("id", "serial8");
    s.is_auto_increment = true;
    assert_eq!(effective_type(&s), "serial8");
    let mut i = col("id", "INTEGER");
    i.is_auto_increment = true;
    assert_eq!(effective_type(&i), "SERIAL");
    let n = col("id", "BIGINT");
    assert_eq!(effective_type(&n), "BIGINT");
    let mut bs = col("id", "bigserial");
    bs.is_auto_increment = true;
    assert_eq!(effective_type(&bs), "bigserial");
}

#[test]
fn alter_column_same_name_only_modifies() {
    let old = col("qty", "INTEGER");
    let mut new = col("qty", "INTEGER");
    new.is_nullable = false;
    let stmts = build_alter_column("o", &old, &new);
    assert_eq!(stmts, vec!["ALTER TABLE \"o\" MODIFY (\"qty\" INTEGER NOT NULL)".to_string()]);
}

#[test]
fn index_and_fk_variants() {
    let sql = build_create_index("t", "i", &["a".to_string(), "b\"c".to_string()], false);
    assert_eq!(sql, "CREATE INDEX \"i\" ON \"t\" (\"a\", \"b\"\"c\")");
    let fk = build_create_foreign_key("o", "fk", "c", "p", "id", Some("cascade"));
    assert!(fk.contains(" ON DELETE CASCADE "), "{fk}");
    let fk2 = build_create_foreign_key("o", "fk", "c", "p", "id", Some("SET NULL"));
    assert!(!fk2.contains("ON DELETE"), "{fk2}");
}

#[test]
fn create_table_handler() {
    let top = obj(vec![
        ("table_name", s("t")),
        (
            "columns",
            JsonValue::Array(vec![obj(vec![
                ("name", s("id")),
                ("data_type", s("INTEGER")),
                ("is_nullable", JsonValue::Bool(false)),
                ("is_pk", JsonValue::Bool(true)),
                ("is_auto_increment", JsonValue::Bool(true)),
                ("default_value", s("")),
            ])]),
        ),
    ]);
    let out = get_create_table_sql(&top).unwrap();
    assert_eq!(
        strings(&out),
        vec!["CREATE TABLE \"t\" (\n  \"id\" SERIAL,\n  PRIMARY KEY (\"id\")\n)".to_string()]
    );
}

#[test]
fn handler_errors() {
    let e = get_create_table_sql(&obj(vec![])).unwrap_err();
    assert_eq!(e.code, -32602);
    assert_eq!(e.message, "missing required field 'table_name'");
    let e = get_create_table_sql(&obj(vec![("table_name", s("t"))])).unwrap_err();
    assert_eq!(e.message, "missing 'columns' array");
    let e = get_create_table_sql(&obj(vec![
        ("table_name", s("t")),
        ("columns", JsonValue::Array(vec![obj(vec![("name", s("a"))])])),
    ]))
    .unwrap_err();
    assert_eq!(e.message, "column is missing 'data_type'");
    let e = get_add_column_sql(&obj(vec![("table", s("t"))])).unwrap_err();
    assert_eq!(e.message, "missing 'column'");
    let e = get_add_column_sql(&obj(vec![("table", s("t")), ("column", obj(vec![]))])).unwrap_err();
    assert_eq!(e.message, "column is missing 'name'");
    let e = get_alter_column_sql(&obj(vec![
        ("table", s("t")),
        ("old_column", obj(vec![("name", s("a")), ("data_type", s("INT"))])),
    ]))
    .unwrap_err();
    assert_eq!(e.message, "missing 'new_column'");
    let e = get_create_foreign_key_sql(&obj(vec![("table", s("t")), ("fk_name", s("f"))])).unwrap_err();
    assert_eq!(e.message, "missing required field 'column'");
    let e = drop_index_sql(&obj(vec![])).unwrap_err();
    assert_eq!(e.message, "missing required field 'index_name'");
}

#[test]
fn other_handlers() {
    let add = get_add_column_sql(&obj(vec![
        ("table", s("t")),
        ("column", obj(vec![("name", s("c")), ("data_type", s("DATE"))])),
    ]))
    .unwrap();
    assert_eq!(strings(&add), vec!["ALTER TABLE \"t\" ADD \"c\" DATE".to_string()]);
    let alter = get_alter_column_sql(&obj(vec![
        ("table", s("t")),
        ("old_column", obj(vec![("name", s("a")), ("data_type", s("INT"))])),
        ("new_column", obj(vec![("name", s("b")), ("data_type", s("INT"))])),
    ]))
    .unwrap();
    assert_eq!(strings(&alter).len(), 2);
    let idx = get_create_index_sql(&obj(vec![
        ("table", s("t")),
        ("index_name", s("i")),
        ("is_unique", JsonValue::Bool(true)),
        ("columns", JsonValue::Array(vec![s("a"), JsonValue::Null, s("b")])),
    ]))
    .unwrap();
    assert_eq!(
        strings(&idx),
        vec!["CREATE UNIQUE INDEX \"i\" ON \"t\" (\"a\", \"b\")".to_string()]
    );
    let fk = get_create_foreign_key_sql(&obj(vec![
        ("table", s("o")),
        ("fk_name", s("fk")),
        ("column", s("c")),
        ("ref_table", s("p")),
        ("ref_column", s("id")),
        ("on_delete", s("Cascade")),
    ]))
    .unwrap();
    assert_eq!(
        strings(&fk),
        vec!["ALTER TABLE \"o\" ADD CONSTRAINT FOREIGN KEY (\"c\") REFERENCES \"p\" (\"id\") ON DELETE CASCADE CONSTRAINT \"fk\"".to_string()]
    );
    assert_eq!(
        drop_index_sql(&obj(vec![("index_name", s("ix"))])).unwrap(),
        "DROP INDEX \"ix\""
    );
    assert_eq!(
        drop_foreign_key_sql(&obj(vec![("table", s("o")), ("fk_name", s("fk"))])).unwrap(),
        "ALTER TABLE \"o\" DROP CONSTRAINT \"fk\""
    );
}

#[test]
fn column_clause_forms() {
    let c = ColumnDef {
        name: "qty".to_string(),
        data_type: "INTEGER".to_string(),
        is_nullable: false,
        is_pk: false,
        is_auto_increment: false,
        default_value: Some("0".to_string()),
    };
    assert_eq!(column_clause(&c), "\"qty\" INTEGER DEFAULT 0 NOT NULL");
    let c = ColumnDef {
        name: "id".to_string(),
        data_type: "int8".to_string(),
        is_nullable: false,
        is_pk: true,
        is_auto_increment: true,
        default_value: None,
    };
    assert_eq!(column_clause(&c), "\"id\" SERIAL8");
}
