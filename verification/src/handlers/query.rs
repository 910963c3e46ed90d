//! Query execution decisions.
//!
//! `SELECT` statements are paginated with `SKIP`/`FIRST` and reported with a
//! total row count; other statements run as-is and report the number of
//! affected rows. `plan_query` decides what to run; the caller runs it and
//! hands the results to `exec_response`, `paged_response` or `all_response`.

use vstd::prelude::*;

use crate::client::QueryOutcome;
use crate::error::{PluginError, INVALID_PARAMS};
use crate::handlers::{field_str, is_string_list, missing_field_message, require_str, string_list};
use crate::json::{JsonNumber, JsonValue};
use crate::utils::pagination::{
    count_query, count_query_spec, is_select, is_select_spec, paginate, paginate_spec, strip_semi,
};
use crate::utils::text::{string_of};

verus! {

/// The liveness query run by `ping` and `test_connection`.
pub const PING_SQL: &'static str = "SELECT FIRST 1 tabid FROM systables";

/// What to run for a query request.
#[derive(Debug)]
pub enum QueryPlan {
    /// Not a `SELECT`: run it as given and report the affected rows.
    Exec { sql: String },
    /// A paginated `SELECT`: count all rows, then fetch one page.
    Paged { count_sql: String, page_sql: String, page: u64, page_size: u64 },
    /// A `SELECT` fetched whole.
    All { sql: String },
}

/// The page number asked for: 1 when absent, and never below 1.
pub open spec fn page_spec(top: JsonValue) -> u64 {
    match top.spec_get("page"@) {
        Some(v) => match v.spec_as_u64() {
            Some(p) => if p < 1 {
                1
            } else {
                p
            },
            None => 1,
        },
        None => 1,
    }
}

/// The page size asked for, if any.
pub open spec fn limit_spec(top: JsonValue) -> Option<u64> {
    match top.spec_get("limit"@) {
        Some(v) => v.spec_as_u64(),
        None => None,
    }
}

/// `p` is the plan for query `q` with the page and limit of `top`.
pub open spec fn plan_matches(p: QueryPlan, top: JsonValue, q: Seq<char>) -> bool {
    if !is_select_spec(q) {
        p matches QueryPlan::Exec { sql } && sql@ == q
    } else if limit_spec(top) is Some && limit_spec(top)->0 > 0 {
        let n = limit_spec(top)->0;
        p matches QueryPlan::Paged { count_sql, page_sql, page, page_size } && count_sql@
            == count_query_spec(q) && page_sql@ == paginate_spec(q, page_spec(top), n) && page
            == page_spec(top) && page_size == n
    } else {
        p matches QueryPlan::All { sql } && sql@ == q
    }
}

/// Decides what a query request runs.
pub fn plan_query(top: &JsonValue) -> (r: Result<QueryPlan, PluginError>)
    ensures
        match r {
            Ok(p) => field_str(*top, "query"@) matches Some(q) && plan_matches(p, *top, q),
            Err(e) => field_str(*top, "query"@) is None && e.code == INVALID_PARAMS && e.message@
                == missing_field_message("query"@),
        },
{
    let query = require_str(top, "query")?;
    let page: u64 = match top.get("page") {
        Some(v) => match v.as_u64() {
            Some(p) => if p < 1 {
                1
            } else {
                p
            },
            None => 1,
        },
        None => 1,
    };
    let page_size: Option<u64> = match top.get("limit") {
        Some(v) => v.as_u64(),
        None => None,
    };
    if !is_select(query) {
        return Ok(QueryPlan::Exec { sql: string_of(query) });
    }
    match page_size {
        Some(ps) => if ps > 0 {
            Ok(
                QueryPlan::Paged {
                    count_sql: count_query(query),
                    page_sql: paginate(query, page, ps),
                    page,
                    page_size: ps,
                },
            )
        } else {
            Ok(QueryPlan::All { sql: string_of(query) })
        },
        None => Ok(QueryPlan::All { sql: string_of(query) }),
    }
}

// ---------------------------------------------------------------------------
// Responses
// ---------------------------------------------------------------------------

/// `v` is a JSON array of arrays holding exactly `rows`.
pub open spec fn is_rows(v: JsonValue, rows: Seq<Vec<JsonValue>>) -> bool {
    match v {
        JsonValue::Array(a) => a@.len() == rows.len() && forall|i: int|
            0 <= i < rows.len() ==> (#[trigger] a@[i] matches JsonValue::Array(r) && r@
                == rows[i]@),
        _ => false,
    }
}

pub open spec fn u64_value(n: u64) -> JsonValue {
    JsonValue::Number(JsonNumber::PosInt(n))
}

/// `v` is the object `{columns, rows, affected_rows, truncated: false,
/// pagination}` with the given parts, in that order.
pub open spec fn is_response(
    v: JsonValue,
    columns: Seq<Seq<char>>,
    rows: Seq<Vec<JsonValue>>,
    affected: u64,
) -> bool {
    match v {
        JsonValue::Object(e) => {
            &&& e@.len() == 5
            &&& e@[0].0@ == "columns"@ && is_string_list(e@[0].1, columns)
            &&& e@[1].0@ == "rows"@ && is_rows(e@[1].1, rows)
            &&& e@[2].0@ == "affected_rows"@ && e@[2].1 == u64_value(affected)
            &&& e@[3].0@ == "truncated"@ && e@[3].1 == JsonValue::Bool(false)
            &&& e@[4].0@ == "pagination"@
        },
        _ => false,
    }
}

/// The `pagination` entry of a response.
pub open spec fn pagination_of(v: JsonValue) -> JsonValue {
    match v {
        JsonValue::Object(e) => e@[4].1,
        _ => JsonValue::Null,
    }
}

/// The rows as a JSON array of arrays.
fn rows_value(rows: Vec<Vec<JsonValue>>) -> (v: JsonValue)
    ensures
        is_rows(v, rows@),
{
    let ghost orig = rows@;
    let mut rows = rows;
    let mut out: Vec<JsonValue> = Vec::new();
    while rows.len() > 0
        invariant
            out@.len() + rows@.len() == orig.len(),
            rows@ == orig.skip(out@.len() as int),
            forall|k: int|
                0 <= k < out@.len() ==> (#[trigger] out@[k] matches JsonValue::Array(r) && r@
                    == orig[k]@),
        decreases rows@.len(),
    {
        let ghost before = rows@;
        let r = rows.remove(0);
        assert(r == orig[out@.len() as int]);
        out.push(JsonValue::Array(r));
        assert(rows@ =~= orig.skip(out@.len() as int));
    }
    JsonValue::Array(out)
}

fn response(columns: Vec<String>, rows: Vec<Vec<JsonValue>>, affected: u64, pagination: JsonValue) -> (v: JsonValue)
    ensures
        is_response(v, columns@.map_values(|s: String| s@), rows@, affected),
        pagination_of(v) == pagination,
{
    let mut entries: Vec<(String, JsonValue)> = Vec::new();
    entries.push((string_of("columns"), string_list(columns)));
    entries.push((string_of("rows"), rows_value(rows)));
    entries.push((string_of("affected_rows"), JsonValue::Number(JsonNumber::PosInt(affected))));
    entries.push((string_of("truncated"), JsonValue::Bool(false)));
    entries.push((string_of("pagination"), pagination));
    JsonValue::Object(entries)
}

/// The answer to a statement that is not a `SELECT`: no columns, no rows,
/// the affected-row count and no pagination.
pub fn exec_response(affected: u64) -> (v: JsonValue)
    ensures
        is_response(v, Seq::empty(), Seq::empty(), affected),
        pagination_of(v) == JsonValue::Null,
{
    let v = response(Vec::new(), Vec::new(), affected, JsonValue::Null);
    proof {
        let e: Seq<String> = Seq::empty();
        assert(e.map_values(|s: String| s@) =~= Seq::<Seq<char>>::empty());
    }
    v
}

/// The answer to a `SELECT` fetched whole: its columns and rows, the row
/// count as the affected rows, and no pagination.
pub fn all_response(outcome: QueryOutcome) -> (v: JsonValue)
    ensures
        is_response(
            v,
            outcome.columns@.map_values(|s: String| s@),
            outcome.rows@,
            outcome.rows@.len() as u64,
        ),
        pagination_of(v) == JsonValue::Null,
{
    let returned = outcome.rows.len() as u64;
    response(outcome.columns, outcome.rows, returned, JsonValue::Null)
}

/// The total row count: the count query's result when it is not negative.
pub open spec fn total_spec(count: Option<i64>) -> Option<u64> {
    match count {
        Some(n) => if n >= 0 {
            Some(n as u64)
        } else {
            None
        },
        None => None,
    }
}

/// Whether rows remain after this page: judged on the total when it is
/// known, otherwise on whether the page came back full.
pub open spec fn has_more_spec(page: u64, page_size: u64, total: Option<u64>, returned: u64) -> bool {
    match total {
        Some(t) => {
            let seen = page * page_size;
            (if seen > u64::MAX {
                u64::MAX as int
            } else {
                seen
            }) < t
        },
        None => returned == page_size,
    }
}

/// `v` is `{page, page_size, total_rows, has_more}`.
pub open spec fn is_pagination(v: JsonValue, page: u64, page_size: u64, total: Option<u64>, has_more: bool) -> bool {
    match v {
        JsonValue::Object(e) => {
            &&& e@.len() == 4
            &&& e@[0].0@ == "page"@ && e@[0].1 == u64_value(page)
            &&& e@[1].0@ == "page_size"@ && e@[1].1 == u64_value(page_size)
            &&& e@[2].0@ == "total_rows"@ && e@[2].1 == (match total {
                Some(t) => u64_value(t),
                None => JsonValue::Null,
            })
            &&& e@[3].0@ == "has_more"@ && e@[3].1 == JsonValue::Bool(has_more)
        },
        _ => false,
    }
}

/// The answer to a paginated `SELECT`: the page's columns and rows, the row
/// count as the affected rows, and the pagination state. `count` is what
/// the count query returned, when it could be read.
pub fn paged_response(outcome: QueryOutcome, count: Option<i64>, page: u64, page_size: u64) -> (v: JsonValue)
    ensures
        is_response(
            v,
            outcome.columns@.map_values(|s: String| s@),
            outcome.rows@,
            outcome.rows@.len() as u64,
        ),
        is_pagination(
            pagination_of(v),
            page,
            page_size,
            total_spec(count),
            has_more_spec(page, page_size, total_spec(count), outcome.rows@.len() as u64),
        ),
{
    let total: Option<u64> = match count {
        Some(n) => if n >= 0 {
            Some(n as u64)
        } else {
            None
        },
        None => None,
    };
    let returned = outcome.rows.len() as u64;
    let has_more = match total {
        Some(t) => {
            let seen: u64 = match page.checked_mul(page_size) {
                Some(x) => x,
                None => u64::MAX,
            };
            seen < t
        },
        None => returned == page_size,
    };
    let mut p: Vec<(String, JsonValue)> = Vec::new();
    p.push((string_of("page"), JsonValue::Number(JsonNumber::PosInt(page))));
    p.push((string_of("page_size"), JsonValue::Number(JsonNumber::PosInt(page_size))));
    p.push(
        (
            string_of("total_rows"),
            match total {
                Some(t) => JsonValue::Number(JsonNumber::PosInt(t)),
                None => JsonValue::Null,
            },
        ),
    );
    p.push((string_of("has_more"), JsonValue::Bool(has_more)));
    response(outcome.columns, outcome.rows, returned, JsonValue::Object(p))
}

/// Every query answer is the object `{"columns": [...], "rows": [[...]],
/// "affected_rows": n, "truncated": false, "pagination": ...}`: the column
/// names as strings and each row as an array of its cells, in order, with
/// `n` the count handed in and `truncated` always false.
pub proof fn law_response_fields(
    v: JsonValue,
    columns: Seq<Seq<char>>,
    rows: Seq<Vec<JsonValue>>,
    affected: u64,
    i: int,
)
    requires
        is_response(v, columns, rows, affected),
    ensures
        v matches JsonValue::Object(e) && e@.len() == 5 && e@[0].0@ == seq![
            'c',
            'o',
            'l',
            'u',
            'm',
            'n',
            's',
        ] && e@[1].0@ == seq!['r', 'o', 'w', 's'] && e@[2].0@ == seq![
            'a',
            'f',
            'f',
            'e',
            'c',
            't',
            'e',
            'd',
            '_',
            'r',
            'o',
            'w',
            's',
        ] && e@[2].1 == JsonValue::Number(JsonNumber::PosInt(affected)) && e@[3].0@ == seq![
            't',
            'r',
            'u',
            'n',
            'c',
            'a',
            't',
            'e',
            'd',
        ] && e@[3].1 == JsonValue::Bool(false) && e@[4].0@ == seq![
            'p',
            'a',
            'g',
            'i',
            'n',
            'a',
            't',
            'i',
            'o',
            'n',
        ] && (e@[0].1 matches JsonValue::Array(cs) && cs@.len() == columns.len() && (0 <= i
            < columns.len() ==> (cs@[i] matches JsonValue::String(x) && x@ == columns[i]))) && (
        e@[1].1 matches JsonValue::Array(rs) && rs@.len() == rows.len() && (0 <= i < rows.len()
            ==> (rs@[i] matches JsonValue::Array(r) && r@ == rows[i]@))),
{
    reveal_strlit("columns");
    reveal_strlit("rows");
    reveal_strlit("affected_rows");
    reveal_strlit("truncated");
    reveal_strlit("pagination");
    if let JsonValue::Object(e) = v {
        assert("columns"@ =~= seq!['c', 'o', 'l', 'u', 'm', 'n', 's']);
        assert("rows"@ =~= seq!['r', 'o', 'w', 's']);
        assert("affected_rows"@ =~= seq![
            'a',
            'f',
            'f',
            'e',
            'c',
            't',
            'e',
            'd',
            '_',
            'r',
            'o',
            'w',
            's',
        ]);
        assert("truncated"@ =~= seq!['t', 'r', 'u', 'n', 'c', 'a', 't', 'e', 'd']);
        assert("pagination"@ =~= seq!['p', 'a', 'g', 'i', 'n', 'a', 't', 'i', 'o', 'n']);
    }
}

/// The pagination a paginated answer reports (`r` is what `paged_response`
/// returns for a page of `returned` rows): the page and page size asked for;
/// as total the count query's result `n` whenever it is not negative (0 for
/// an empty result), and null when it is negative or could not be read;
/// and more rows exactly when the pages up to this one hold fewer than `n`
/// rows, or, with no total, when this page came back full.
pub proof fn law_paged_pagination(r: JsonValue, count: Option<i64>, page: u64, page_size: u64, returned: u64)
    requires
        is_pagination(
            pagination_of(r),
            page,
            page_size,
            total_spec(count),
            has_more_spec(page, page_size, total_spec(count), returned),
        ),
    ensures
        pagination_of(r) matches JsonValue::Object(e) && e@.len() == 4 && e@[0].0@ == "page"@
            && e@[0].1 == JsonValue::Number(JsonNumber::PosInt(page)) && e@[1].0@ == "page_size"@
            && e@[1].1 == JsonValue::Number(JsonNumber::PosInt(page_size)) && e@[2].0@
            == "total_rows"@ && e@[2].1 == (match count {
            Some(n) => if n >= 0 {
                JsonValue::Number(JsonNumber::PosInt(n as u64))
            } else {
                JsonValue::Null
            },
            None => JsonValue::Null,
        }) && e@[3].0@ == "has_more"@ && e@[3].1 == JsonValue::Bool(
            match count {
                Some(n) => if n >= 0 {
                    page * page_size < n
                } else {
                    returned == page_size
                },
                None => returned == page_size,
            },
        ),
{
}

/// The positive integer `limit` of a request, if it has one.
pub open spec fn positive_limit(top: JsonValue) -> Option<u64> {
    match top.spec_get("limit"@) {
        Some(JsonValue::Number(JsonNumber::PosInt(n))) => if n > 0 {
            Some(n)
        } else {
            None
        },
        _ => None,
    }
}

/// The integer `page` of a request when it is at least 1, else page 1.
pub open spec fn page_asked(top: JsonValue) -> u64 {
    match top.spec_get("page"@) {
        Some(JsonValue::Number(JsonNumber::PosInt(k))) => if k >= 1 {
            k
        } else {
            1
        },
        _ => 1,
    }
}

/// What a query request runs, for the plan `p` that `plan_query` gives for
/// query `q`: a statement that is not a `SELECT` runs as given; a `SELECT`
/// with a positive integer `limit` is counted with
/// `SELECT COUNT(*) FROM (q) AS tab_count` and fetched one page of `limit`
/// rows, the page being the integer `page` when it is at least 1 and page 1
/// otherwise; any other `SELECT` is fetched whole.
pub proof fn law_query_plan(p: QueryPlan, top: JsonValue, q: Seq<char>)
    requires
        plan_matches(p, top, q),
    ensures
        !is_select_spec(q) ==> (p matches QueryPlan::Exec { sql } && sql@ == q),
        is_select_spec(q) && positive_limit(top) is Some ==> (p matches QueryPlan::Paged {
            count_sql,
            page_sql,
            page,
            page_size,
        } && page_size == positive_limit(top)->0 && page == page_asked(top) && count_sql@
            == "SELECT COUNT(*) FROM ("@ + strip_semi(q) + ") AS tab_count"@ && page_sql@
            == paginate_spec(q, page, page_size)),
        is_select_spec(q) && positive_limit(top) is None ==> (p matches QueryPlan::All { sql }
            && sql@ == q),
{
}

} // verus!
