use std::collections::{HashMap, HashSet};

use tabularis_informix_plugin::handlers::metadata::{
    columns_result, foreign_keys_result, indexes_result, FkRows,
    cint, colno_names, colno_names_sql, column_entry, cstr, databases_value,
    defaults_of, definition_from_rows, fk_constraint, fk_entries, index_entries, index_part_cols,
    index_parts_sql, indexes_sql, list_objects_sql, lookup_name, named_list, names_from_rows,
    parent_key, part_colnos, part_columns, pk_colnos, pk_colnos_sql, routines_value,
    string_array, tabid_from_rows, tabid_sql, table_schema, DATABASES_SQL, ROUTINES_SQL,
};
use tabularis_informix_plugin::json::{to_json_string, JsonNumber, JsonValue};

fn obj(pairs: Vec<(&str, JsonValue)>) -> JsonValue {
    JsonValue::Object(pairs.into_iter().map(|(k, v)| (k.to_string(), v)).collect())
}

fn s(v: &str) -> JsonValue {
    JsonValue::String(v.to_string())
}

fn i(v: i64) -> JsonValue {
    if v < 0 {
        JsonValue::Number(JsonNumber::NegInt(v))
    } else {
        JsonValue::Number(JsonNumber::PosInt(v as u64))
    }
}

fn parts(ps: &[i64]) -> Vec<JsonValue> {
    let mut v: Vec<JsonValue> = ps.iter().map(|p| i(*p)).collect();
    while v.len() < 16 {
        v.push(i(0));
    }
    v
}

#[test]
fn cells() {
    let row = vec![i(7), s(" 12 "), s("x"), JsonValue::Null, JsonValue::Bool(true)];
    assert_eq!(cint(&row, 0), 7);
    assert_eq!(cint(&row, 1), 12);
    assert_eq!(cint(&row, 2), 0);
    assert_eq!(cint(&row, 3), 0);
    assert_eq!(cint(&row, 9), 0);
    assert_eq!(cstr(&row, 0), "7");
    assert_eq!(cstr(&row, 1), " 12 ");
    assert_eq!(cstr(&row, 3), "");
    assert_eq!(cstr(&row, 4), "");
    assert_eq!(cstr(&row, 9), "");
    let big = vec![JsonValue::Number(JsonNumber::PosInt(u64::MAX))];
    assert_eq!(cint(&big, 0), 0);
    assert_eq!(cstr(&big, 0), "18446744073709551615");
}

#[test]
fn rows_to_names_and_text() {
    let rows = vec![vec![s("a")], vec![s("b")], vec![]];
    assert_eq!(names_from_rows(&rows), vec!["a".to_string(), "b".to_string(), String::new()]);
    assert_eq!(definition_from_rows(&rows), "ab");
}

#[test]
fn catalog_queries() {
    assert_eq!(
        list_objects_sql("T"),
        "SELECT TRIM(tabname) FROM systables WHERE tabid >= 100 AND tabtype = 'T' ORDER BY tabname"
    );
    assert_eq!(
        tabid_sql("o'x"),
        "SELECT tabid FROM systables WHERE tabname = 'o''x' AND tabid >= 100"
    );
    assert_eq!(colno_names_sql(101), "SELECT colno, TRIM(colname) FROM syscolumns WHERE tabid = 101");
    let p = part_columns();
    assert!(p.starts_with("part1, part2, "));
    assert!(p.ends_with("part15, part16"));
    assert_eq!(
        pk_colnos_sql(5),
        format!(
            "SELECT {p} FROM sysindexes i JOIN sysconstraints c ON c.idxname = i.idxname AND c.tabid = i.tabid WHERE c.tabid = 5 AND c.constrtype = 'P'"
        )
    );
    assert_eq!(
        index_parts_sql(5, "ix"),
        format!("SELECT {p} FROM sysindexes WHERE tabid = 5 AND TRIM(idxname) = 'ix'")
    );
    assert_eq!(
        indexes_sql(5),
        format!("SELECT TRIM(idxname), TRIM(idxtype), {p} FROM sysindexes WHERE tabid = 5 ORDER BY idxname")
    );
    assert!(DATABASES_SQL.contains("sysmaster:sysdatabases"));
    assert!(ROUTINES_SQL.starts_with("SELECT TRIM(procname), TRIM(isproc) FROM sysprocedures"));
}

#[test]
fn tabid_lookup() {
    assert_eq!(tabid_from_rows(&vec![vec![i(120)]]), Some(120));
    assert_eq!(tabid_from_rows(&vec![]), None);
}

#[test]
fn parts_and_names() {
    let row = parts(&[2, -3, 0, 5]);
    assert_eq!(part_colnos(&row, 0), vec![2, 3, 5]);
    let names = colno_names(&vec![vec![i(2), s("a")], vec![i(3), s("b")], vec![i(5), s("c")]]);
    assert_eq!(lookup_name(&names, 3), Some("b".to_string()));
    assert_eq!(lookup_name(&names, 4), None);
    assert_eq!(pk_colnos(&vec![parts(&[2, -3, 0, 5])]), HashSet::from([2, 3, 5]));
    assert!(pk_colnos(&vec![]).is_empty());
    let cols = index_part_cols(&vec![parts(&[5, -2, 9])], &names);
    assert_eq!(cols, vec!["c".to_string(), "a".to_string()]);
    // A column number listed twice keeps its last name.
    let names = colno_names(&vec![vec![i(2), s("a")], vec![i(2), s("z")]]);
    assert_eq!(lookup_name(&names, 2), Some("z".to_string()));
}

#[test]
fn defaults_are_decoded() {
    let d = defaults_of(&vec![
        vec![i(1), s("T"), s("")],
        vec![i(2), s("L"), s("3 abc")],
        vec![i(3), s("N"), s("")],
    ]);
    assert_eq!(d.len(), 2);
    assert_eq!(d.get(&1), Some(&"TODAY".to_string()));
    assert!(d.contains_key(&2));
    assert!(!d.contains_key(&3));
}

#[test]
fn column_object() {
    let row = vec![s("name"), i(256 + 13), i(40), i(2), s("")];
    let v = column_entry(&row, &HashSet::from([2]), &HashMap::from([(2, "'x'".to_string())]));
    assert_eq!(
        to_json_string(&v),
        "{\"name\":\"name\",\"data_type\":\"VARCHAR(40)\",\"is_pk\":true,\"is_nullable\":false,\"is_auto_increment\":false,\"character_maximum_length\":40,\"default_value\":\"'x'\"}"
    );
    let row = vec![s("id"), i(6), i(4), i(1), s("")];
    let v = column_entry(&row, &HashSet::new(), &HashMap::new());
    assert_eq!(
        to_json_string(&v),
        "{\"name\":\"id\",\"data_type\":\"SERIAL\",\"is_pk\":false,\"is_nullable\":true,\"is_auto_increment\":true}"
    );
    let row = vec![s("flag"), i(41), i(1), i(3), s(" boolean ")];
    let v = column_entry(&row, &HashSet::new(), &HashMap::new());
    assert!(to_json_string(&v).contains("\"data_type\":\"BOOLEAN\""));
}

#[test]
fn foreign_key_objects() {
    let c = fk_constraint(&vec![s("fk1"), s("ix1"), i(44), s(" C ")]);
    assert_eq!(c.name, "fk1");
    assert_eq!(c.child_index, "ix1");
    assert_eq!(c.primary_constrid, 44);
    assert_eq!(c.on_delete.as_deref(), Some("CASCADE"));
    let plain = fk_constraint(&vec![s("fk2"), s("ix2"), i(45), s("R")]);
    assert_eq!(plain.on_delete, None);

    let p = parent_key(&vec![vec![s("customer"), s("pk_ix"), i(101)]]).unwrap();
    assert_eq!(p.ref_table, "customer");
    assert_eq!(p.index, "pk_ix");
    assert_eq!(p.tabid, 101);
    assert!(parent_key(&vec![]).is_none());

    let out = fk_entries(
        &c,
        &vec!["a".to_string(), "b".to_string()],
        "customer",
        &vec!["id".to_string()],
    );
    assert_eq!(out.len(), 2);
    assert_eq!(
        to_json_string(&out[0]),
        "{\"name\":\"fk1\",\"column_name\":\"a\",\"ref_table\":\"customer\",\"ref_column\":\"id\",\"on_delete\":\"CASCADE\",\"on_update\":null}"
    );
    assert!(to_json_string(&out[1]).contains("\"ref_column\":\"\""));
    let out = fk_entries(&plain, &vec!["a".to_string()], "t", &vec!["x".to_string()]);
    assert!(to_json_string(&out[0]).contains("\"on_delete\":null"));
}

#[test]
fn index_objects() {
    let names = colno_names(&vec![vec![i(1), s("id")], vec![i(2), s("name")]]);
    let mut r1 = vec![s("pk_ix"), s("U")];
    r1.extend(parts(&[1]));
    let mut r2 = vec![s("ix2"), s("D")];
    r2.extend(parts(&[9, -2]));
    let out = index_entries(&vec![r1, r2], &names, &vec!["pk_ix".to_string()]);
    assert_eq!(out.len(), 2);
    assert_eq!(
        to_json_string(&out[0]),
        "{\"name\":\"pk_ix\",\"column_name\":\"id\",\"is_unique\":true,\"is_primary\":true,\"seq_in_index\":1}"
    );
    // The unknown column 9 is skipped but still counted in the key order.
    assert_eq!(
        to_json_string(&out[1]),
        "{\"name\":\"ix2\",\"column_name\":\"name\",\"is_unique\":false,\"is_primary\":false,\"seq_in_index\":2}"
    );
}

#[test]
fn lists() {
    assert_eq!(
        to_json_string(&routines_value(&vec![vec![s("p1"), s("t")], vec![s("f1"), s("f")]])),
        "[{\"name\":\"p1\",\"routine_type\":\"PROCEDURE\",\"definition\":null},{\"name\":\"f1\",\"routine_type\":\"FUNCTION\",\"definition\":null}]"
    );
    assert_eq!(
        to_json_string(&named_list(vec!["t1".to_string()], false)),
        "[{\"name\":\"t1\"}]"
    );
    assert_eq!(
        to_json_string(&named_list(vec!["v1".to_string()], true)),
        "[{\"name\":\"v1\",\"definition\":null}]"
    );
    assert_eq!(to_json_string(&string_array(vec!["a".to_string()])), "[\"a\"]");
    assert_eq!(
        to_json_string(&table_schema("t".to_string(), vec![], vec![])),
        "{\"name\":\"t\",\"columns\":[],\"foreign_keys\":[]}"
    );
}

#[test]
fn databases() {
    let top = obj(vec![("params", obj(vec![("database", s("stores@ol"))]))]);
    let rows = vec![vec![s("db1")], vec![s("db2")]];
    assert_eq!(to_json_string(&databases_value(Some(&rows), &top)), "[\"db1\",\"db2\"]");
    assert_eq!(to_json_string(&databases_value(Some(&vec![]), &top)), "[\"stores\"]");
    assert_eq!(to_json_string(&databases_value(None, &top)), "[\"stores\"]");
    assert_eq!(to_json_string(&databases_value(None, &obj(vec![]))), "[]");
}

#[test]
fn unknown_tables_give_empty_lists() {
    let rows = vec![vec![s("name"), i(13), i(40), i(2), s("")]];
    assert!(columns_result(None, &vec![], None, &rows).is_empty());
    assert!(indexes_result(None, &vec![], &vec![], &vec![]).is_empty());
    assert!(foreign_keys_result(None, &vec![], &vec![]).is_empty());
}

#[test]
fn columns_of_a_table() {
    let pk_rows = vec![parts(&[1])];
    let default_rows = vec![vec![i(2), s("T"), s("")]];
    let column_rows = vec![
        vec![s("id"), i(256 + 2), i(4), i(1), s("")],
        vec![s("day"), i(7), i(4), i(2), s("")],
    ];
    let out = columns_result(Some(100), &pk_rows, Some(&default_rows), &column_rows);
    assert_eq!(out.len(), 2);
    assert_eq!(
        to_json_string(&out[0]),
        "{\"name\":\"id\",\"data_type\":\"INTEGER\",\"is_pk\":true,\"is_nullable\":false,\"is_auto_increment\":false}"
    );
    assert!(to_json_string(&out[1]).ends_with("\"default_value\":\"TODAY\"}"));
    // An unreadable defaults catalog means no defaults.
    let out = columns_result(Some(100), &pk_rows, None, &column_rows);
    assert!(!to_json_string(&out[1]).contains("default_value"));
}

#[test]
fn indexes_of_a_table() {
    let name_rows = vec![vec![i(1), s("id")]];
    let pk_rows = vec![vec![s("pk_ix")]];
    let mut r = vec![s("pk_ix"), s("U")];
    r.extend(parts(&[1]));
    let out = indexes_result(Some(100), &name_rows, &pk_rows, &vec![r]);
    assert_eq!(out.len(), 1);
    assert!(to_json_string(&out[0]).contains("\"is_primary\":true"));
}

#[test]
fn foreign_keys_of_a_table() {
    let child_name_rows = vec![vec![i(1), s("cust_id")], vec![i(2), s("region")]];
    let resolved = FkRows {
        constraint: vec![s("fk_cust"), s("ix_c"), i(50), s("C")],
        child_parts: vec![parts(&[1, 2])],
        parent: vec![vec![s("customer"), s("pk_c"), i(101)]],
        parent_names: vec![vec![i(1), s("id")], vec![i(3), s("reg")]],
        parent_parts: vec![parts(&[1, 3])],
    };
    let unresolved = FkRows {
        constraint: vec![s("fk_gone"), s("ix_g"), i(51), s("R")],
        child_parts: vec![parts(&[1])],
        parent: vec![],
        parent_names: vec![],
        parent_parts: vec![],
    };
    let second = FkRows {
        constraint: vec![s("fk_two"), s("ix_t"), i(52), s("R")],
        child_parts: vec![parts(&[2])],
        parent: vec![vec![s("region"), s("pk_r"), i(102)]],
        parent_names: vec![vec![i(1), s("code")]],
        parent_parts: vec![parts(&[1])],
    };
    let out = foreign_keys_result(Some(100), &child_name_rows, &vec![resolved, unresolved, second]);
    let texts: Vec<String> = out.iter().map(to_json_string).collect();
    assert_eq!(texts.len(), 3);
    assert_eq!(
        texts[0],
        "{\"name\":\"fk_cust\",\"column_name\":\"cust_id\",\"ref_table\":\"customer\",\"ref_column\":\"id\",\"on_delete\":\"CASCADE\",\"on_update\":null}"
    );
    assert!(texts[1].contains("\"column_name\":\"region\",\"ref_table\":\"customer\",\"ref_column\":\"reg\""));
    assert!(texts[2].starts_with("{\"name\":\"fk_two\",\"column_name\":\"region\",\"ref_table\":\"region\",\"ref_column\":\"code\",\"on_delete\":null"));
}
