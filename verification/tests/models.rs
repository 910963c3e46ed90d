use tabularis_informix_plugin::json::{JsonNumber, JsonValue};
use tabularis_informix_plugin::models::{connection_params, split_on_at, str_field, ConnectionParams};

fn obj(pairs: Vec<(&str, JsonValue)>) -> JsonValue {
    JsonValue::Object(pairs.into_iter().map(|(k, v)| (k.to_string(), v)).collect())
}

fn s(v: &str) -> JsonValue {
    JsonValue::String(v.to_string())
}

#[test]
fn parses_database_as_plain_string() {
    let p = ConnectionParams::from_value(&obj(vec![("database", s("stores"))]));
    assert_eq!(p.database.as_deref(), Some("stores"));
}

#[test]
fn parses_database_as_array_first_element() {
    let p = ConnectionParams::from_value(&obj(vec![(
        "database",
        JsonValue::Array(vec![s("stores"), s("other")]),
    )]));
    assert_eq!(p.database.as_deref(), Some("stores"));
}

#[test]
fn splits_database_and_server() {
    let p = ConnectionParams::from_value(&obj(vec![("database", s("stores@ol_ids"))]));
    let (db, server) = p.database_and_server();
    assert_eq!(db.as_deref(), Some("stores"));
    assert_eq!(server.as_deref(), Some("ol_ids"));
}

#[test]
fn database_without_server() {
    let p = ConnectionParams::from_value(&obj(vec![("database", s("stores"))]));
    let (db, server) = p.database_and_server();
    assert_eq!(db.as_deref(), Some("stores"));
    assert_eq!(server, None);
}

#[test]
fn empty_strings_become_none() {
    let p = ConnectionParams::from_value(&obj(vec![("host", s("")), ("username", s("ix"))]));
    assert_eq!(p.host, None);
    assert_eq!(p.username.as_deref(), Some("ix"));
}

#[test]
fn port_must_fit_u16() {
    let p = ConnectionParams::from_value(&obj(vec![(
        "port",
        JsonValue::Number(JsonNumber::PosInt(9088)),
    )]));
    assert_eq!(p.port, Some(9088));
    let q = ConnectionParams::from_value(&obj(vec![(
        "port",
        JsonValue::Number(JsonNumber::PosInt(70000)),
    )]));
    assert_eq!(q.port, None);
    let r = ConnectionParams::from_value(&obj(vec![("port", s("9088"))]));
    assert_eq!(r.port, None);
}

#[test]
fn database_selection_edge_cases() {
    let p = ConnectionParams::from_value(&obj(vec![("database", s(""))]));
    assert_eq!(p.database, None);
    let q = ConnectionParams::from_value(&obj(vec![(
        "database",
        JsonValue::Array(vec![JsonValue::Number(JsonNumber::PosInt(1)), s("x")]),
    )]));
    assert_eq!(q.database, None);
    let r = ConnectionParams::from_value(&obj(vec![("database", JsonValue::Array(vec![]))]));
    assert_eq!(r.database, None);
    let n = ConnectionParams::from_value(&JsonValue::Null);
    assert_eq!(n.host, None);
    assert_eq!(n.database, None);
}

#[test]
fn split_trims_and_drops_empty_parts() {
    assert_eq!(split_on_at(None), (None, None));
    assert_eq!(
        split_on_at(Some(" 192.0.2.10 @ ol_ix ")),
        (Some("192.0.2.10".to_string()), Some("ol_ix".to_string()))
    );
    assert_eq!(split_on_at(Some("@srv")), (None, Some("srv".to_string())));
    assert_eq!(split_on_at(Some("db@")), (Some("db".to_string()), None));
    assert_eq!(
        split_on_at(Some("a@b@c")),
        (Some("a".to_string()), Some("b@c".to_string()))
    );
    assert_eq!(split_on_at(Some("  ")), (None, None));
}

#[test]
fn host_and_server_split() {
    let p = ConnectionParams::from_value(&obj(vec![("host", s("10.1.1.1@ol_a"))]));
    assert_eq!(
        p.host_and_server(),
        (Some("10.1.1.1".to_string()), Some("ol_a".to_string()))
    );
}

#[test]
fn connection_params_reads_inner_object() {
    let top = obj(vec![(
        "params",
        obj(vec![("host", s("h")), ("password", s("pw"))]),
    )]);
    let p = connection_params(&top);
    assert_eq!(p.host.as_deref(), Some("h"));
    assert_eq!(p.password.as_deref(), Some("pw"));
    let empty = connection_params(&obj(vec![]));
    assert_eq!(empty.host, None);
}

#[test]
fn str_field_reads_strings_only() {
    let top = obj(vec![("a", s("x")), ("b", JsonValue::Bool(true))]);
    assert_eq!(str_field(&top, "a"), Some("x"));
    assert_eq!(str_field(&top, "b"), None);
    assert_eq!(str_field(&top, "c"), None);
}
