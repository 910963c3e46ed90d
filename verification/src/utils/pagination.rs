//! Pagination for Informix.
//!
//! Informix uses `SELECT SKIP n FIRST m ...` (the `SKIP`/`FIRST` clause comes
//! right after the `SELECT` keyword, before any `DISTINCT`). For an arbitrary
//! user `SELECT` the clause is injected after the leading keyword; anything
//! that does not start with `SELECT` is left untouched.

use vstd::prelude::*;

use crate::utils::number::{dec, is_digit, lemma_dec_nonempty, push_u64};
use crate::utils::text::{
    ascii_upper_seq, chars_of, eq_ignore_ascii_case, eq_ignore_ascii_case_at, is_whitespace,
    is_ws, lemma_trim_end_last, lemma_trim_end_len, lemma_trim_noop, push_range, push_str, string_from_chars,
    string_of, trim, trim_bounds, trim_end, trim_end_to, trim_start, trim_start_from,
    trim_start_str, upper_starts_with_at,
};

verus! {

/// The query with surrounding whitespace and one trailing semicolon removed.
pub open spec fn strip_semi(s: Seq<char>) -> Seq<char> {
    let q = trim(s);
    if q.len() > 0 && q.last() == ';' {
        trim_end(q.drop_last())
    } else {
        q
    }
}

/// Neither starts nor ends with whitespace.
pub open spec fn no_outer_ws(s: Seq<char>) -> bool {
    s.len() == 0 || (!is_ws(s[0]) && !is_ws(s.last()))
}

/// Does the query begin with the keyword `SELECT` (any ASCII case), followed
/// by whitespace or the end of the text?
pub open spec fn is_select_spec(s: Seq<char>) -> bool {
    let t = trim_start(strip_semi(s));
    t.len() >= 6 && eq_ignore_ascii_case(t.take(6), "select"@) && (t.len() == 6 || is_ws(t[6]))
}

/// `SKIP` offset of a 1-indexed page (page 0 counts as page 1), saturating at
/// `u64::MAX`.
pub open spec fn page_offset(page: u64, page_size: u64) -> nat {
    let safe_page: int = if page < 1 {
        1
    } else {
        page as int
    };
    let product = (safe_page - 1) * page_size;
    if product > u64::MAX {
        u64::MAX as nat
    } else {
        product as nat
    }
}

/// What `paginate` returns.
pub open spec fn paginate_spec(query: Seq<char>, page: u64, page_size: u64) -> Seq<char> {
    let q = strip_semi(query);
    if !is_select_spec(q) {
        query
    } else {
        let trimmed = trim_start(q);
        let lead = q.take(q.len() - trimmed.len());
        let after_select = trimmed.skip(6);
        let next = ascii_upper_seq(trim_start(after_select));
        if "SKIP "@.is_prefix_of(next) || "FIRST "@.is_prefix_of(next) {
            q
        } else {
            lead + "SELECT SKIP "@ + dec(page_offset(page, page_size)) + " FIRST "@ + dec(
                page_size as nat,
            ) + after_select
        }
    }
}

/// What `count_query` returns.
pub open spec fn count_query_spec(query: Seq<char>) -> Seq<char> {
    "SELECT COUNT(*) FROM ("@ + strip_semi(query) + ") AS tab_count"@
}

/// Strips a single trailing semicolon and surrounding whitespace.
pub fn strip_trailing_semicolon(query: &str) -> (r: &str)
    ensures
        r@ == strip_semi(query@),
        no_outer_ws(r@),
{
    let v = chars_of(query);
    let (a, b) = trim_bounds(&v);
    if a < b && v[b - 1] == ';' {
        let j = trim_end_to(&v, a, b - 1);
        assert(v@.subrange(a as int, b as int).drop_last() =~= v@.subrange(a as int, b - 1));
        if j > a {
            assert(v@.subrange(a as int, j as int)[0] == v@[a as int]);
        }
        query.substring_char(a, j)
    } else {
        query.substring_char(a, b)
    }
}

/// Returns true when the (trimmed) query begins with the `SELECT` keyword.
pub fn is_select(query: &str) -> (b: bool)
    ensures
        b == is_select_spec(query@),
{
    let q = strip_trailing_semicolon(query);
    let t = trim_start_str(q);
    let v = chars_of(t);
    if !eq_ignore_ascii_case_at(&v, 0, "select") {
        return false;
    }
    proof {
        reveal_strlit("select");
        assert(v@.subrange(0, 6) =~= v@.take(6));
    }
    // The next character must be whitespace or the end of the text (so that
    // "selectx" is not a SELECT).
    v.len() == 6 || is_whitespace(v[6])
}

/// Facts about a query already stripped by `strip_trailing_semicolon`:
/// stripping it again keeps a prefix of it, and it has no leading whitespace.
proof fn lemma_strip_stripped(q: Seq<char>)
    requires
        no_outer_ws(q),
    ensures
        trim_start(q) == q,
        strip_semi(q).len() <= q.len(),
        strip_semi(q) == q.take(strip_semi(q).len() as int),
        trim_start(strip_semi(q)) == strip_semi(q),
{
    lemma_trim_noop(q);
    if q.len() > 0 && q.last() == ';' {
        let d = q.drop_last();
        lemma_trim_end_len(d);
        let r = trim_end(d);
        assert(q.take(r.len() as int) =~= d.take(r.len() as int));
        if r.len() > 0 {
            assert(r[0] == q[0]);
        }
    } else {
        assert(q.take(q.len() as int) =~= q);
    }
}

/// Injects `SKIP <offset> FIRST <page_size>` into a `SELECT`. Page numbers
/// are 1-indexed. Non-`SELECT` queries are returned unchanged. A `SELECT`
/// that already limits itself with `SKIP` or `FIRST` gets no second clause:
/// it comes back stripped of its trailing semicolon and nothing else.
pub fn paginate(query: &str, page: u64, page_size: u64) -> (r: String)
    ensures
        r@ == paginate_spec(query@, page, page_size),
{
    let q = strip_trailing_semicolon(query);
    if !is_select(q) {
        return string_of(query);
    }
    let safe_page: u64 = if page < 1 {
        1
    } else {
        page
    };
    let offset: u64 = match (safe_page - 1).checked_mul(page_size) {
        Some(o) => o,
        None => u64::MAX,
    };
    let qv = chars_of(q);
    proof {
        lemma_strip_stripped(q@);
        assert(strip_semi(q@).take(6) == q@.take(6));
    }
    let ts = trim_start_from(&qv, 0, qv.len());
    assert(qv@.subrange(0, qv@.len() as int) =~= qv@);
    assert(qv@.subrange(ts as int, qv@.len() as int).len() == qv@.len());
    assert(ts == 0);
    let ghost trimmed = trim_start(q@);
    assert(trimmed =~= qv@);
    let after = ts + 6;
    let k = trim_start_from(&qv, after, qv.len());
    assert(trimmed.skip(6) =~= qv@.subrange(after as int, qv@.len() as int));
    assert(qv@.subrange(k as int, qv@.len() as int) =~= qv@.skip(k as int));
    if upper_starts_with_at(&qv, k, "SKIP ") || upper_starts_with_at(&qv, k, "FIRST ") {
        return string_of(q);
    }
    let mut out: Vec<char> = Vec::new();
    push_range(&mut out, &qv, 0, ts);
    push_str(&mut out, "SELECT SKIP ");
    push_u64(&mut out, offset);
    push_str(&mut out, " FIRST ");
    push_u64(&mut out, page_size);
    push_range(&mut out, &qv, after, qv.len());
    proof {
        assert(q@.take(q@.len() - trimmed.len()) =~= qv@.subrange(0, ts as int));
        assert(offset == page_offset(page, page_size)) by (nonlinear_arith)
            requires
                safe_page == (if page < 1 { 1 } else { page }),
                offset == (if (safe_page - 1) * page_size > u64::MAX {
                    u64::MAX as int
                } else {
                    (safe_page - 1) * page_size
                }),
        ;
        assert(out@ =~= paginate_spec(query@, page, page_size));
    }
    string_from_chars(&out)
}

/// Wraps a query so its total row count can be obtained in one shot.
pub fn count_query(query: &str) -> (r: String)
    ensures
        r@ == count_query_spec(query@),
{
    let q = strip_trailing_semicolon(query);
    let mut out: Vec<char> = Vec::new();
    push_str(&mut out, "SELECT COUNT(*) FROM (");
    push_str(&mut out, q);
    push_str(&mut out, ") AS tab_count");
    assert(out@ =~= count_query_spec(query@));
    string_from_chars(&out)
}

/// Page 0 is treated as page 1.
pub proof fn law_page_zero_is_first_page(query: Seq<char>, page_size: u64)
    ensures
        paginate_spec(query, 0, page_size) == paginate_spec(query, 1, page_size),
{
}

/// A query that is not a `SELECT` comes back exactly as it was given, for
/// every page and page size. (Whether it is a `SELECT` is judged once its
/// trailing semicolon is stripped, as `paginate` does.)
pub proof fn law_non_select_unchanged(query: Seq<char>, page: u64, page_size: u64)
    requires
        !is_select_spec(strip_semi(query)),
    ensures
        paginate_spec(query, page, page_size) == query,
{
}

/// Consecutive pages follow each other: page `p + 1` starts right where page
/// `p` ends, so the pages neither overlap nor leave gaps (as long as the
/// offsets fit in a `u64`).
pub proof fn law_pages_adjacent(page: u64, page_size: u64)
    requires
        1 <= page < u64::MAX,
        page * page_size <= u64::MAX,
    ensures
        page_offset((page + 1) as u64, page_size) == page_offset(page, page_size) + page_size,
{
    let next = (page + 1) as u64;
    assert(next - 1 == page);
    assert((page - 1) * page_size + page_size == page * page_size) by (nonlinear_arith);
    assert(0 <= (page - 1) * page_size <= page * page_size) by (nonlinear_arith)
        requires
            page >= 1,
    ;
}

proof fn lemma_trim_start_shape(s: Seq<char>)
    ensures
        trim_start(s).len() <= s.len(),
        trim_start(s) == s.skip(s.len() - trim_start(s).len()),
        trim_start(s).len() > 0 ==> !is_ws(trim_start(s)[0]),
    decreases s.len(),
{
    if s.len() > 0 && is_ws(s[0]) {
        let d = s.drop_first();
        lemma_trim_start_shape(d);
        let t = trim_start(d);
        assert(d.skip(d.len() - t.len()) =~= s.skip(s.len() - t.len()));
    } else {
        assert(s.skip(0) =~= s);
    }
}

/// What `strip_semi` returns neither starts nor ends with whitespace.
proof fn lemma_strip_semi_no_outer_ws(s: Seq<char>)
    ensures
        no_outer_ws(strip_semi(s)),
{
    let t = trim_start(s);
    lemma_trim_start_shape(s);
    let q = trim_end(t);
    lemma_trim_end_len(t);
    lemma_trim_end_last(t);
    if q.len() > 0 {
        assert(q[0] == t[0]);
    }
    if q.len() > 0 && q.last() == ';' {
        let d = q.drop_last();
        lemma_trim_end_len(d);
        lemma_trim_end_last(d);
        let r = trim_end(d);
        if r.len() > 0 {
            assert(r[0] == d[0]);
            assert(d[0] == q[0]);
        }
    }
}

/// Paginating an already paginated query changes nothing: the `SKIP` /
/// `FIRST` clause is never injected twice. (A `SELECT` that still ends with
/// a semicolon once one has been stripped, such as `SELECT 1;;`, loses one
/// more on each pass, and is left out.)
pub proof fn law_paginate_twice(
    query: Seq<char>,
    page: u64,
    page_size: u64,
    page2: u64,
    page_size2: u64,
)
    requires
        !(strip_semi(query).len() > 0 && strip_semi(query).last() == ';'),
    ensures
        paginate_spec(paginate_spec(query, page, page_size), page2, page_size2) == paginate_spec(
            query,
            page,
            page_size,
        ),
{
    let q = strip_semi(query);
    lemma_strip_semi_no_outer_ws(query);
    lemma_trim_noop(q);
    assert(strip_semi(q) == q);
    if is_select_spec(q) {
        let trimmed = trim_start(q);
        let lead = q.take(q.len() - trimmed.len());
        assert(lead =~= Seq::<char>::empty());
        let after_select = trimmed.skip(6);
        let next = ascii_upper_seq(trim_start(after_select));
        if !("SKIP "@.is_prefix_of(next) || "FIRST "@.is_prefix_of(next)) {
            reveal_strlit("SELECT SKIP ");
            reveal_strlit(" FIRST ");
            reveal_strlit("SKIP ");
            reveal_strlit("FIRST ");
            reveal_strlit("select");
            let d1 = dec(page_offset(page, page_size));
            let d2 = dec(page_size as nat);
            lemma_dec_nonempty(page_size as nat);
            let r = paginate_spec(query, page, page_size);
            let body = "SKIP "@ + d1 + " FIRST "@ + d2 + after_select;
            assert(r =~= seq!['S', 'E', 'L', 'E', 'C', 'T', ' '] + body);
            assert(r[0] == 'S');
            if after_select.len() > 0 {
                assert(r.last() == after_select.last());
                assert(after_select.last() == q.last());
            } else {
                assert(r.last() == d2.last());
                assert(is_digit(d2.last()));
            }
            lemma_trim_noop(r);
            assert(strip_semi(r) == r);
            assert(trim_start(r) == r);
            assert(r.take(6) =~= seq!['S', 'E', 'L', 'E', 'C', 'T']);
            assert("select"@ =~= seq!['s', 'e', 'l', 'e', 'c', 't']);
            assert(eq_ignore_ascii_case(r.take(6), "select"@));
            assert(is_ws(r[6]));
            assert(is_select_spec(r));
            let after2 = r.skip(6);
            assert(after2 =~= seq![' '] + body);
            assert(after2.drop_first() =~= body);
            assert(trim_start(after2) == trim_start(body));
            assert(body[0] == 'S');
            assert(trim_start(body) == body);
            let next2 = ascii_upper_seq(body);
            assert(next2.take(5) =~= "SKIP "@);
            assert("SKIP "@.is_prefix_of(next2));
        }
    }
}

/// A `SELECT` that does not limit itself gets `SKIP (page - 1) * page_size
/// FIRST page_size` right after its `SELECT` keyword, the keyword written in
/// upper case and the rest of the query kept as it was.
pub proof fn law_paginate_clause(query: Seq<char>, page: u64, page_size: u64)
    requires
        is_select_spec(strip_semi(query)),
        trim_start(strip_semi(query)) == strip_semi(query),
        !("SKIP "@.is_prefix_of(ascii_upper_seq(trim_start(strip_semi(query).skip(6))))),
        !("FIRST "@.is_prefix_of(ascii_upper_seq(trim_start(strip_semi(query).skip(6))))),
        1 <= page,
        (page - 1) * page_size <= u64::MAX,
    ensures
        paginate_spec(query, page, page_size) == "SELECT SKIP "@ + dec(
            ((page - 1) * page_size) as nat,
        ) + " FIRST "@ + dec(page_size as nat) + strip_semi(query).skip(6),
{
    let q = strip_semi(query);
    assert(q.take(q.len() - q.len()) =~= Seq::<char>::empty());
    assert(0 <= (page - 1) * page_size) by (nonlinear_arith)
        requires
            1 <= page,
    ;
}


/// `trim_end` never cuts a character that is not whitespace.
proof fn lemma_trim_end_keeps(s: Seq<char>, k: int)
    requires
        0 <= k < s.len(),
        !is_ws(s[k]),
    ensures
        trim_end(s).len() > k,
    decreases s.len(),
{
    if is_ws(s.last()) {
        lemma_trim_end_keeps(s.drop_last(), k);
    }
}

/// Leading whitespace is all `trim_start` removes.
proof fn lemma_trim_start_skips_ws(w: Seq<char>, s: Seq<char>)
    requires
        forall|i: int| 0 <= i < w.len() ==> is_ws(#[trigger] w[i]),
    ensures
        trim_start(w + s) == trim_start(s),
    decreases w.len(),
{
    if w.len() > 0 {
        assert((w + s).drop_first() =~= w.drop_first() + s);
        lemma_trim_start_skips_ws(w.drop_first(), s);
    } else {
        assert(w + s =~= s);
    }
}

/// A query that opens with `p` (no whitespace at either end of `p`, and no
/// semicolon at its end) still opens with `p` once stripped, and what is
/// left is a prefix of the query with nothing to trim at its start.
proof fn lemma_strip_keeps_head(s: Seq<char>, p: Seq<char>)
    requires
        p.len() >= 1,
        p.is_prefix_of(s),
        !is_ws(p[0]),
        !is_ws(p.last()),
        p.last() != ';',
    ensures
        p.len() <= strip_semi(s).len() <= s.len(),
        strip_semi(s) == s.take(strip_semi(s).len() as int),
        trim_start(strip_semi(s)) == strip_semi(s),
{
    let n = p.len() as int;
    assert(s[0] == p[0]);
    assert(s[n - 1] == p.last());
    assert(trim_start(s) == s);
    lemma_trim_end_len(s);
    lemma_trim_end_keeps(s, n - 1);
    let q = trim_end(s);
    assert(q[n - 1] == p.last());
    if q.len() > 0 && q.last() == ';' {
        let d = q.drop_last();
        assert(q.len() > n);
        assert(d[n - 1] == p.last());
        lemma_trim_end_len(d);
        lemma_trim_end_keeps(d, n - 1);
        let r = trim_end(d);
        assert(r =~= s.take(r.len() as int));
        assert(r[0] == p[0]);
    } else {
        assert(q[0] == p[0]);
    }
}

/// What counts as a `SELECT`: a query that opens with the keyword `SELECT`
/// (in upper or lower case) and a space is one, whatever follows; one that
/// opens with `SELECT` glued to another character (`SELECTED`, `SELECTX`) is
/// not; and leading whitespace makes no difference.
pub proof fn law_select_keyword(r: Seq<char>, c: char, w: Seq<char>, q: Seq<char>)
    ensures
        is_select_spec("SELECT "@ + r),
        is_select_spec("select "@ + r),
        !is_ws(c) && c != ';' ==> !is_select_spec("SELECT"@ + seq![c] + r),
        (forall|i: int| 0 <= i < w.len() ==> is_ws(#[trigger] w[i])) ==> is_select_spec(w + q)
            == is_select_spec(q),
{
    reveal_strlit("SELECT ");
    reveal_strlit("select ");
    reveal_strlit("SELECT");
    reveal_strlit("select");
    let up = seq!['S', 'E', 'L', 'E', 'C', 'T'];
    let low = seq!['s', 'e', 'l', 'e', 'c', 't'];
    assert("select"@ =~= low);
    assert(eq_ignore_ascii_case(up, low));
    assert(eq_ignore_ascii_case(low, low));

    let s1 = "SELECT "@ + r;
    assert("SELECT "@ =~= up.push(' '));
    assert(s1.take(6) =~= up);
    assert(s1[6] == ' ');
    assert(up.is_prefix_of(s1));
    lemma_strip_keeps_head(s1, up);
    let t1 = strip_semi(s1);
    assert(t1.take(6) =~= s1.take(6));
    assert(t1.len() > 6 ==> t1[6] == ' ');

    let s2 = "select "@ + r;
    assert("select "@ =~= low.push(' '));
    assert(s2.take(6) =~= low);
    assert(s2[6] == ' ');
    assert(low.is_prefix_of(s2));
    lemma_strip_keeps_head(s2, low);
    let t2 = strip_semi(s2);
    assert(t2.take(6) =~= s2.take(6));
    assert(t2.len() > 6 ==> t2[6] == ' ');

    if !is_ws(c) && c != ';' {
        let s3 = "SELECT"@ + seq![c] + r;
        let p3 = up.push(c);
        assert(s3.take(7) =~= p3);
        assert(p3.is_prefix_of(s3));
        lemma_strip_keeps_head(s3, p3);
        let t3 = strip_semi(s3);
        assert(t3[6] == s3[6]);
    }

    if forall|i: int| 0 <= i < w.len() ==> is_ws(#[trigger] w[i]) {
        lemma_trim_start_skips_ws(w, q);
        assert(trim(w + q) == trim(q));
    }
}


/// The count query wraps the query as a derived table named `tab_count`,
/// dropping one trailing semicolon: for a query `q` with no surrounding
/// whitespace and no semicolon of its own at the end, `q` and `q;` both give
/// `SELECT COUNT(*) FROM (q) AS tab_count`.
pub proof fn law_count_query(q: Seq<char>)
    requires
        no_outer_ws(q),
        q.len() == 0 || q.last() != ';',
    ensures
        count_query_spec(q) == "SELECT COUNT(*) FROM ("@ + q + ") AS tab_count"@,
        count_query_spec(q + ";"@) == "SELECT COUNT(*) FROM ("@ + q + ") AS tab_count"@,
{
    reveal_strlit(";");
    lemma_trim_noop(q);
    let s = q + ";"@;
    assert(s.last() == ';');
    if q.len() > 0 {
        assert(s[0] == q[0]);
    }
    lemma_trim_noop(s);
    assert(s.drop_last() =~= q);
}

} // verus!
