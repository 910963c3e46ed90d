use tabularis_informix_plugin::client::QueryOutcome;
use tabularis_informix_plugin::handlers::query::{
    all_response, exec_response, paged_response, plan_query, QueryPlan, PING_SQL,
};
use tabularis_informix_plugin::json::{to_json_string, JsonNumber, JsonValue};

fn obj(pairs: Vec<(&str, JsonValue)>) -> JsonValue {
    JsonValue::Object(pairs.into_iter().map(|(k, v)| (k.to_string(), v)).collect())
}

fn s(v: &str) -> JsonValue {
    JsonValue::String(v.to_string())
}

fn n(v: u64) -> JsonValue {
    JsonValue::Number(JsonNumber::PosInt(v))
}

fn outcome(rows: usize) -> QueryOutcome {
    QueryOutcome {
        columns: vec!["id".to_string(), "name".to_string()],
        rows: (0..rows)
            .map(|i| vec![JsonValue::Number(JsonNumber::PosInt(i as u64)), s("x")])
            .collect(),
    }
}

#[test]
fn ping_query_text() {
    assert_eq!(PING_SQL, "SELECT FIRST 1 tabid FROM systables");
}

#[test]
fn non_select_runs_as_is() {
    match plan_query(&obj(vec![("query", s("UPDATE t SET a = 1;")), ("limit", n(10))])).unwrap() {
        QueryPlan::Exec { sql } => assert_eq!(sql, "UPDATE t SET a = 1;"),
        other => panic!("unexpected plan {other:?}"),
    }
}

#[test]
fn select_with_limit_is_paged() {
    let top = obj(vec![("query", s("SELECT * FROM orders;")), ("page", n(3)), ("limit", n(20))]);
    match plan_query(&top).unwrap() {
        QueryPlan::Paged { count_sql, page_sql, page, page_size } => {
            assert_eq!(count_sql, "SELECT COUNT(*) FROM (SELECT * FROM orders) AS tab_count");
            assert_eq!(page_sql, "SELECT SKIP 40 FIRST 20 * FROM orders");
            assert_eq!(page, 3);
            assert_eq!(page_size, 20);
        }
        other => panic!("unexpected plan {other:?}"),
    }
}

#[test]
fn missing_or_zero_page_means_first_page() {
    let top = obj(vec![("query", s("select a from t")), ("page", n(0)), ("limit", n(5))]);
    match plan_query(&top).unwrap() {
        QueryPlan::Paged { page_sql, page, .. } => {
            assert_eq!(page, 1);
            assert_eq!(page_sql, "SELECT SKIP 0 FIRST 5 a from t");
        }
        other => panic!("unexpected plan {other:?}"),
    }
    let top = obj(vec![("query", s("select a from t")), ("limit", n(5))]);
    match plan_query(&top).unwrap() {
        QueryPlan::Paged { page, .. } => assert_eq!(page, 1),
        other => panic!("unexpected plan {other:?}"),
    }
}

#[test]
fn select_without_limit_is_fetched_whole() {
    for top in [
        obj(vec![("query", s("SELECT 1 FROM systables"))]),
        obj(vec![("query", s("SELECT 1 FROM systables")), ("limit", n(0))]),
        obj(vec![("query", s("SELECT 1 FROM systables")), ("limit", s("10"))]),
    ] {
        match plan_query(&top).unwrap() {
            QueryPlan::All { sql } => assert_eq!(sql, "SELECT 1 FROM systables"),
            other => panic!("unexpected plan {other:?}"),
        }
    }
}

#[test]
fn missing_query_is_refused() {
    let e = plan_query(&obj(vec![("limit", n(10))])).unwrap_err();
    assert_eq!(e.code, -32602);
    assert_eq!(e.message, "missing required field 'query'");
    let e = plan_query(&obj(vec![("query", n(1))])).unwrap_err();
    assert_eq!(e.message, "missing required field 'query'");
}

#[test]
fn exec_response_shape() {
    assert_eq!(
        to_json_string(&exec_response(3)),
        "{\"columns\":[],\"rows\":[],\"affected_rows\":3,\"truncated\":false,\"pagination\":null}"
    );
}

#[test]
fn all_response_reports_row_count() {
    assert_eq!(
        to_json_string(&all_response(outcome(2))),
        "{\"columns\":[\"id\",\"name\"],\"rows\":[[0,\"x\"],[1,\"x\"]],\"affected_rows\":2,\"truncated\":false,\"pagination\":null}"
    );
}

#[test]
fn paged_response_with_total() {
    let v = paged_response(outcome(2), Some(5), 2, 2);
    assert_eq!(
        to_json_string(&v),
        "{\"columns\":[\"id\",\"name\"],\"rows\":[[0,\"x\"],[1,\"x\"]],\"affected_rows\":2,\"truncated\":false,\"pagination\":{\"page\":2,\"page_size\":2,\"total_rows\":5,\"has_more\":true}}"
    );
    let v = paged_response(outcome(1), Some(5), 3, 2);
    assert!(to_json_string(&v).ends_with(
        "\"pagination\":{\"page\":3,\"page_size\":2,\"total_rows\":5,\"has_more\":false}}"
    ));
    // Exactly on the boundary: the last page has nothing after it.
    let v = paged_response(outcome(2), Some(4), 2, 2);
    assert!(to_json_string(&v).ends_with("\"has_more\":false}}"));
}

#[test]
fn paged_response_without_total_uses_a_full_page() {
    let v = paged_response(outcome(2), None, 1, 2);
    assert!(to_json_string(&v).ends_with(
        "\"pagination\":{\"page\":1,\"page_size\":2,\"total_rows\":null,\"has_more\":true}}"
    ));
    let v = paged_response(outcome(1), None, 1, 2);
    assert!(to_json_string(&v).ends_with("\"has_more\":false}}"));
    // A negative count is no total.
    let v = paged_response(outcome(1), Some(-1), 1, 2);
    assert!(to_json_string(&v).ends_with("\"total_rows\":null,\"has_more\":false}}"));
}

#[test]
fn paged_response_saturates_seen_rows() {
    let v = paged_response(outcome(0), Some(i64::MAX), u64::MAX, 2);
    assert!(to_json_string(&v).ends_with("\"has_more\":false}}"));
}
