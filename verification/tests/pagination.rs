use tabularis_informix_plugin::utils::pagination::{
    count_query, is_select, paginate, strip_trailing_semicolon,
};

#[test]
fn first_page() {
    assert_eq!(
        paginate("SELECT * FROM orders", 1, 100),
        "SELECT SKIP 0 FIRST 100 * FROM orders"
    );
}

#[test]
fn later_page() {
    assert_eq!(
        paginate("SELECT a, b FROM t", 3, 25),
        "SELECT SKIP 50 FIRST 25 a, b FROM t"
    );
}

#[test]
fn preserves_distinct() {
    assert_eq!(
        paginate("SELECT DISTINCT name FROM t", 1, 10),
        "SELECT SKIP 0 FIRST 10 DISTINCT name FROM t"
    );
}

#[test]
fn page_zero_is_first_page() {
    assert_eq!(
        paginate("SELECT 1 FROM t", 0, 10),
        "SELECT SKIP 0 FIRST 10 1 FROM t"
    );
}

#[test]
fn strips_trailing_semicolon() {
    assert_eq!(
        paginate("SELECT * FROM t;", 1, 5),
        "SELECT SKIP 0 FIRST 5 * FROM t"
    );
}

#[test]
fn non_select_unchanged() {
    assert_eq!(paginate("UPDATE t SET a = 1", 1, 10), "UPDATE t SET a = 1");
    assert!(!is_select("SELECTED FROM t"));
    assert!(is_select("  select * from t"));
}

#[test]
fn skips_injection_when_already_limited() {
    assert_eq!(
        paginate("SELECT FIRST 10 * FROM t", 1, 100),
        "SELECT FIRST 10 * FROM t"
    );
    assert_eq!(
        paginate("SELECT SKIP 5 FIRST 10 * FROM t", 2, 100),
        "SELECT SKIP 5 FIRST 10 * FROM t"
    );
}

#[test]
fn count_wraps_query() {
    assert_eq!(
        count_query("SELECT a FROM t"),
        "SELECT COUNT(*) FROM (SELECT a FROM t) AS tab_count"
    );
}

#[test]
fn doc_example_second_page() {
    assert_eq!(
        paginate("SELECT * FROM orders", 2, 50),
        "SELECT SKIP 50 FIRST 50 * FROM orders"
    );
}

#[test]
fn doc_example_count() {
    assert_eq!(
        count_query("SELECT a FROM t WHERE a > 1"),
        "SELECT COUNT(*) FROM (SELECT a FROM t WHERE a > 1) AS tab_count"
    );
}

#[test]
fn offset_saturates() {
    assert_eq!(
        paginate("SELECT x FROM t", u64::MAX, 10),
        format!("SELECT SKIP {} FIRST 10 x FROM t", u64::MAX)
    );
}

#[test]
fn strip_only_one_semicolon_and_whitespace() {
    assert_eq!(strip_trailing_semicolon("  SELECT 1 ;  "), "SELECT 1");
    assert_eq!(strip_trailing_semicolon("SELECT 1;;"), "SELECT 1;");
    assert_eq!(strip_trailing_semicolon(";"), "");
    assert_eq!(strip_trailing_semicolon("\u{3000}x\t"), "x");
}

#[test]
fn select_keyword_boundaries() {
    assert!(is_select("SELECT"));
    assert!(is_select("select;"));
    assert!(is_select("SeLeCt\n1"));
    assert!(!is_select("selec"));
    assert!(!is_select("INSERT INTO t SELECT 1"));
}

#[test]
fn lowercase_limit_keywords_are_detected() {
    assert_eq!(paginate("select   first 3 * from t", 2, 7), "select   first 3 * from t");
}

#[test]
fn leading_whitespace_is_dropped() {
    assert_eq!(
        paginate("   SELECT a FROM t", 1, 2),
        "SELECT SKIP 0 FIRST 2 a FROM t"
    );
}

#[test]
fn non_select_keeps_its_semicolon_and_spaces() {
    assert_eq!(paginate("X;", 1, 10), "X;");
    assert_eq!(paginate("  DELETE FROM t ;  ", 3, 10), "  DELETE FROM t ;  ");
}
