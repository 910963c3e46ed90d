use tabularis_informix_plugin::json::{number_to_string, to_json_string, JsonNumber, JsonValue};

fn obj(pairs: Vec<(&str, JsonValue)>) -> JsonValue {
    JsonValue::Object(pairs.into_iter().map(|(k, v)| (k.to_string(), v)).collect())
}

#[test]
fn compact_text() {
    let v = obj(vec![
        ("a", JsonValue::Array(vec![JsonValue::Null, JsonValue::Bool(false)])),
        ("b", JsonValue::Number(JsonNumber::NegInt(-3))),
        ("c", JsonValue::Number(JsonNumber::Float("2.5".to_string()))),
        ("d", JsonValue::String("q\"\\\n\t\u{1}é".to_string())),
    ]);
    assert_eq!(
        to_json_string(&v),
        "{\"a\":[null,false],\"b\":-3,\"c\":2.5,\"d\":\"q\\\"\\\\\\n\\t\\u0001é\"}"
    );
}

#[test]
fn numbers() {
    assert_eq!(number_to_string(&JsonNumber::PosInt(0)), "0");
    assert_eq!(number_to_string(&JsonNumber::PosInt(u64::MAX)), "18446744073709551615");
    assert_eq!(number_to_string(&JsonNumber::NegInt(i64::MIN)), "-9223372036854775808");
}

#[test]
fn getters() {
    let v = obj(vec![
        ("s", JsonValue::String("x".to_string())),
        ("n", JsonValue::Number(JsonNumber::PosInt(5))),
        ("m", JsonValue::Number(JsonNumber::NegInt(-5))),
        ("b", JsonValue::Bool(true)),
        ("a", JsonValue::Array(vec![])),
    ]);
    assert_eq!(v.get("s").and_then(|x| x.as_str()), Some("x"));
    assert_eq!(v.get("n").and_then(|x| x.as_u64()), Some(5));
    assert_eq!(v.get("m").and_then(|x| x.as_u64()), None);
    assert_eq!(v.get("m").and_then(|x| x.as_i64()), Some(-5));
    assert_eq!(v.get("b").and_then(|x| x.as_bool()), Some(true));
    assert_eq!(v.get("a").and_then(|x| x.as_array()).map(|a| a.len()), Some(0));
    assert!(v.get("zz").is_none());
    assert!(JsonValue::Null.get("s").is_none());
    assert_eq!(v.as_object().map(|o| o.len()), Some(5));
}
