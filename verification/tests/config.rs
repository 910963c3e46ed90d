use tabularis_informix_plugin::config::Config;
use tabularis_informix_plugin::json::{JsonNumber, JsonValue};

fn obj(pairs: Vec<(&str, JsonValue)>) -> JsonValue {
    JsonValue::Object(pairs.into_iter().map(|(k, v)| (k.to_string(), v)).collect())
}

fn s(v: &str) -> JsonValue {
    JsonValue::String(v.to_string())
}

#[test]
fn defaults() {
    let c = Config::default();
    assert_eq!(c.driver_name, "IBM INFORMIX ODBC DRIVER");
    assert_eq!(c.informixserver, "");
    assert_eq!(c.protocol, "onsoctcp");
    assert_eq!(c.dsn, "");
    assert_eq!(c.db_locale, "");
    assert_eq!(c.client_locale, "");
    assert_eq!(c.extra, "");
}

#[test]
fn settings_override_defaults() {
    let c = Config::from_settings(&obj(vec![
        ("driver_name", s("Informix 4.50")),
        ("informixserver", s("ol_ids")),
        ("protocol", s("onsocssl")),
        ("dsn", s("stores_dsn")),
        ("db_locale", s("en_US.819")),
        ("client_locale", s("en_US.57372")),
        ("extra", s("OPTOFC=1;")),
    ]));
    assert_eq!(c.driver_name, "Informix 4.50");
    assert_eq!(c.informixserver, "ol_ids");
    assert_eq!(c.protocol, "onsocssl");
    assert_eq!(c.dsn, "stores_dsn");
    assert_eq!(c.db_locale, "en_US.819");
    assert_eq!(c.client_locale, "en_US.57372");
    assert_eq!(c.extra, "OPTOFC=1;");
}

#[test]
fn empty_driver_and_protocol_keep_defaults() {
    let c = Config::from_settings(&obj(vec![
        ("driver_name", s("")),
        ("protocol", s("")),
        ("informixserver", s("")),
    ]));
    assert_eq!(c.driver_name, "IBM INFORMIX ODBC DRIVER");
    assert_eq!(c.protocol, "onsoctcp");
    assert_eq!(c.informixserver, "");
}

#[test]
fn non_string_and_missing_settings_are_ignored() {
    let c = Config::from_settings(&obj(vec![
        ("driver_name", JsonValue::Number(JsonNumber::PosInt(1))),
        ("dsn", JsonValue::Null),
    ]));
    assert_eq!(c.driver_name, "IBM INFORMIX ODBC DRIVER");
    assert_eq!(c.dsn, "");
    let c = Config::from_settings(&JsonValue::Null);
    assert_eq!(c.protocol, "onsoctcp");
}
