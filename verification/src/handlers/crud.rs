//! Row-level CRUD. Values are embedded as SQL literals (see `utils::values`)
//! and affected-row counts come from `DBINFO('sqlca.sqlerrd2')`.
//!
//! The statements are built here; the caller runs them on a connection,
//! asks for the number of matching rows before an update or delete, and
//! lets `check_single_row` decide whether to go on.

use vstd::prelude::*;

use crate::error::{PluginError, INVALID_PARAMS};
use crate::handlers::{field_str, missing_field_message, require_str, yields};
use crate::json::{deref_opt, JsonValue};
use crate::utils::identifiers::{enclose_chars, enclosed, QUOTE};
use crate::utils::number::{int_dec, push_i64};
use crate::utils::text::{join, join_chars, push_chars, push_str, string_from_chars, string_of, views};
use crate::utils::values::{format_sql_value, sql_literal};

verus! {

/// `"col" = <value>`.
pub open spec fn where_eq_spec(col: Seq<char>, val: JsonValue) -> Seq<char> {
    enclosed(col, QUOTE) + " = "@ + sql_literal(val)
}

/// Builds a `"col" = <value>` equality predicate for a row identifier.
pub fn where_eq(col: &str, val: &JsonValue) -> (r: String)
    ensures
        r@ == where_eq_spec(col@, *val),
{
    let mut out = enclose_chars(col, QUOTE);
    push_str(&mut out, " = ");
    let lit = format_sql_value(val);
    push_str(&mut out, lit.as_str());
    assert(out@ =~= where_eq_spec(col@, *val));
    string_from_chars(&out)
}

/// The query counting the rows a row identifier matches.
pub open spec fn count_rows_spec(table: Seq<char>, where_clause: Seq<char>) -> Seq<char> {
    "SELECT COUNT(*) FROM "@ + enclosed(table, QUOTE) + " WHERE "@ + where_clause
}

pub fn count_rows_sql(table: &str, where_clause: &str) -> (r: String)
    ensures
        r@ == count_rows_spec(table@, where_clause@),
{
    let mut out: Vec<char> = Vec::new();
    push_str(&mut out, "SELECT COUNT(*) FROM ");
    let q = enclose_chars(table, QUOTE);
    push_chars(&mut out, &q);
    push_str(&mut out, " WHERE ");
    push_str(&mut out, where_clause);
    assert(out@ =~= count_rows_spec(table@, where_clause@));
    string_from_chars(&out)
}

/// The refusal message when a row identifier matches `n` rows.
pub open spec fn refusal_message(op: Seq<char>, where_clause: Seq<char>, n: int) -> Seq<char> {
    "refusing to "@ + op + ": the row identifier ("@ + where_clause + ") matches "@ + int_dec(n)
        + " rows, not 1. This table likely has a composite primary key — edit it from the SQL editor with a WHERE clause that covers every key column."@
}

/// Safety net for grid edits. Tabularis identifies a row to update/delete by
/// a single primary-key column, so on a table with a *composite* primary key
/// the `WHERE` matches more than one row. The operation is refused in that
/// case, to avoid silently modifying many rows. `count` is the number of
/// matching rows, when it could be read.
pub fn check_single_row(count: Option<i64>, where_clause: &str, op: &str) -> (r: Result<
    (),
    PluginError,
>)
    ensures
        match r {
            Ok(()) => !(count matches Some(n) && n > 1),
            Err(e) => count matches Some(n) && n > 1 && e.code == INVALID_PARAMS && e.message@
                == refusal_message(op@, where_clause@, n as int),
        },
{
    match count {
        Some(n) => if n > 1 {
            let mut m: Vec<char> = Vec::new();
            push_str(&mut m, "refusing to ");
            push_str(&mut m, op);
            push_str(&mut m, ": the row identifier (");
            push_str(&mut m, where_clause);
            push_str(&mut m, ") matches ");
            push_i64(&mut m, n);
            push_str(
                &mut m,
                " rows, not 1. This table likely has a composite primary key — edit it from the SQL editor with a WHERE clause that covers every key column.",
            );
            assert(m@ =~= refusal_message(op@, where_clause@, n as int));
            Err(PluginError::invalid_params(string_from_chars(&m)))
        } else {
            Ok(())
        },
        None => Ok(()),
    }
}

/// What `insert_sql` gives.
pub open spec fn insert_outcome(top: JsonValue) -> Result<Seq<char>, Seq<char>> {
    match field_str(top, "table"@) {
        None => Err(missing_field_message("table"@)),
        Some(table) => match top.spec_get("data"@) {
            Some(JsonValue::Object(entries)) => if entries@.len() == 0 {
                Err("insert_record requires at least one column"@)
            } else {
                Ok(
                    "INSERT INTO "@ + enclosed(table, QUOTE) + " ("@ + join(
                        entries@.map_values(|p: (String, JsonValue)| enclosed(p.0@, QUOTE)),
                        ", "@,
                    ) + ") VALUES ("@ + join(
                        entries@.map_values(|p: (String, JsonValue)| sql_literal(p.1)),
                        ", "@,
                    ) + ")"@,
                )
            },
            _ => Err("insert_record requires a 'data' object"@),
        },
    }
}

/// The `INSERT` statement for the `data` object of the params: one column
/// per key, in order, with each value as its SQL literal.
pub fn insert_sql(top: &JsonValue) -> (r: Result<String, PluginError>)
    ensures
        yields(r, insert_outcome(*top)),
{
    let table = require_str(top, "table")?;
    let data = match top.get("data") {
        Some(v) => match v.as_object() {
            Some(d) => d,
            None => {
                return Err(
                    PluginError::invalid_params(
                        string_of("insert_record requires a 'data' object"),
                    ),
                )
            },
        },
        None => {
            return Err(
                PluginError::invalid_params(string_of("insert_record requires a 'data' object")),
            )
        },
    };
    if data.len() == 0 {
        return Err(
            PluginError::invalid_params(string_of("insert_record requires at least one column")),
        );
    }
    let ghost entries = data@;
    let mut cols: Vec<Vec<char>> = Vec::new();
    let mut vals: Vec<Vec<char>> = Vec::new();
    let mut i: usize = 0;
    while i < data.len()
        invariant
            i <= data@.len(),
            entries == data@,
            views(cols@) == entries.take(i as int).map_values(
                |p: (String, JsonValue)| enclosed(p.0@, QUOTE),
            ),
            views(vals@) == entries.take(i as int).map_values(
                |p: (String, JsonValue)| sql_literal(p.1),
            ),
        decreases data@.len() - i,
    {
        let ghost before_cols = views(cols@);
        let ghost before_vals = views(vals@);
        let c = enclose_chars(data[i].0.as_str(), QUOTE);
        let ghost cv = c@;
        cols.push(c);
        let lit = format_sql_value(&data[i].1);
        let mut v: Vec<char> = Vec::new();
        push_str(&mut v, lit.as_str());
        let ghost vv = v@;
        vals.push(v);
        proof {
            assert(views(cols@) =~= before_cols.push(cv));
            assert(views(vals@) =~= before_vals.push(vv));
            assert(entries.take(i + 1).map_values(|p: (String, JsonValue)| enclosed(p.0@, QUOTE))
                =~= entries.take(i as int).map_values(
                |p: (String, JsonValue)| enclosed(p.0@, QUOTE),
            ).push(enclosed(entries[i as int].0@, QUOTE)));
            assert(entries.take(i + 1).map_values(|p: (String, JsonValue)| sql_literal(p.1))
                =~= entries.take(i as int).map_values(
                |p: (String, JsonValue)| sql_literal(p.1),
            ).push(sql_literal(entries[i as int].1)));
        }
        i = i + 1;
    }
    assert(entries.take(data@.len() as int) =~= entries);
    let mut out: Vec<char> = Vec::new();
    push_str(&mut out, "INSERT INTO ");
    let qt = enclose_chars(table, QUOTE);
    push_chars(&mut out, &qt);
    push_str(&mut out, " (");
    let jc = join_chars(&cols, ", ");
    push_chars(&mut out, &jc);
    push_str(&mut out, ") VALUES (");
    let jv = join_chars(&vals, ", ");
    push_chars(&mut out, &jv);
    push_str(&mut out, ")");
    assert(out@ =~= insert_outcome(*top)->Ok_0);
    Ok(string_from_chars(&out))
}

/// The count an insert reports: the affected rows, and at least one.
pub fn inserted_count(affected: u64) -> (r: u64)
    ensures
        r == (if affected < 1 {
            1
        } else {
            affected
        }),
{
    if affected < 1 {
        1
    } else {
        affected
    }
}

/// A row edit: the table it touches, the row identifier, and the statement.
#[derive(Debug)]
pub struct RowEdit {
    pub table: String,
    pub where_clause: String,
    pub sql: String,
}

/// A value of the params, `null` when absent.
pub open spec fn value_or_null(top: JsonValue, key: Seq<char>) -> JsonValue {
    match top.spec_get(key) {
        Some(v) => v,
        None => JsonValue::Null,
    }
}

/// `e` is the row edit `outcome` holds, or `r` is an "invalid params" error
/// carrying its message.
pub open spec fn edits(
    r: Result<RowEdit, PluginError>,
    outcome: Result<(Seq<char>, Seq<char>, Seq<char>), Seq<char>>,
) -> bool {
    match r {
        Ok(e) => outcome == Ok::<(Seq<char>, Seq<char>, Seq<char>), Seq<char>>(
            (e.table@, e.where_clause@, e.sql@),
        ),
        Err(e) => outcome == Err::<(Seq<char>, Seq<char>, Seq<char>), Seq<char>>(e.message@)
            && e.code == INVALID_PARAMS,
    }
}

/// What `update_plan` gives: table, row identifier and `UPDATE` statement.
pub open spec fn update_outcome(top: JsonValue) -> Result<(Seq<char>, Seq<char>, Seq<char>), Seq<char>> {
    match field_str(top, "table"@) {
        None => Err(missing_field_message("table"@)),
        Some(table) => match field_str(top, "pk_col"@) {
            None => Err(missing_field_message("pk_col"@)),
            Some(pk_col) => match field_str(top, "col_name"@) {
                None => Err(missing_field_message("col_name"@)),
                Some(col_name) => {
                    let w = where_eq_spec(pk_col, value_or_null(top, "pk_val"@));
                    Ok(
                        (
                            table,
                            w,
                            "UPDATE "@ + enclosed(table, QUOTE) + " SET "@ + enclosed(
                                col_name,
                                QUOTE,
                            ) + " = "@ + sql_literal(value_or_null(top, "new_val"@))
                                + " WHERE "@ + w,
                        ),
                    )
                },
            },
        },
    }
}

/// What `delete_plan` gives: table, row identifier and `DELETE` statement.
pub open spec fn delete_outcome(top: JsonValue) -> Result<(Seq<char>, Seq<char>, Seq<char>), Seq<char>> {
    match field_str(top, "table"@) {
        None => Err(missing_field_message("table"@)),
        Some(table) => match field_str(top, "pk_col"@) {
            None => Err(missing_field_message("pk_col"@)),
            Some(pk_col) => {
                let w = where_eq_spec(pk_col, value_or_null(top, "pk_val"@));
                Ok((table, w, "DELETE FROM "@ + enclosed(table, QUOTE) + " WHERE "@ + w))
            },
        },
    }
}

fn get_or_null<'a>(top: &'a JsonValue, key: &str, null: &'a JsonValue) -> (r: &'a JsonValue)
    requires
        *null == JsonValue::Null,
    ensures
        *r == value_or_null(*top, key@),
{
    match top.get(key) {
        Some(v) => v,
        None => null,
    }
}

/// The `UPDATE` of one cell of the row the params identify.
pub fn update_plan(top: &JsonValue) -> (r: Result<RowEdit, PluginError>)
    ensures
        edits(r, update_outcome(*top)),
{
    let table = require_str(top, "table")?;
    let pk_col = require_str(top, "pk_col")?;
    let col_name = require_str(top, "col_name")?;
    let null = JsonValue::Null;
    let pk_val = get_or_null(top, "pk_val", &null);
    let new_val = get_or_null(top, "new_val", &null);
    let where_clause = where_eq(pk_col, pk_val);
    let mut out: Vec<char> = Vec::new();
    push_str(&mut out, "UPDATE ");
    let q = enclose_chars(table, QUOTE);
    push_chars(&mut out, &q);
    push_str(&mut out, " SET ");
    let q = enclose_chars(col_name, QUOTE);
    push_chars(&mut out, &q);
    push_str(&mut out, " = ");
    let lit = format_sql_value(new_val);
    push_str(&mut out, lit.as_str());
    push_str(&mut out, " WHERE ");
    push_str(&mut out, where_clause.as_str());
    assert(out@ =~= update_outcome(*top)->Ok_0.2);
    Ok(RowEdit { table: string_of(table), where_clause, sql: string_from_chars(&out) })
}

/// The `DELETE` of the row the params identify.
pub fn delete_plan(top: &JsonValue) -> (r: Result<RowEdit, PluginError>)
    ensures
        edits(r, delete_outcome(*top)),
{
    let table = require_str(top, "table")?;
    let pk_col = require_str(top, "pk_col")?;
    let null = JsonValue::Null;
    let pk_val = get_or_null(top, "pk_val", &null);
    let where_clause = where_eq(pk_col, pk_val);
    let mut out: Vec<char> = Vec::new();
    push_str(&mut out, "DELETE FROM ");
    let q = enclose_chars(table, QUOTE);
    push_chars(&mut out, &q);
    push_str(&mut out, " WHERE ");
    push_str(&mut out, where_clause.as_str());
    assert(out@ =~= delete_outcome(*top)->Ok_0.2);
    Ok(RowEdit { table: string_of(table), where_clause, sql: string_from_chars(&out) })
}

/// The guard before an update or a delete counts the very rows the edit
/// touches: the statement names the same table and ends with `WHERE` and
/// the same row identifier the count query is built from.
pub proof fn law_guard_matches_edit(top: JsonValue)
    ensures
        update_outcome(top) matches Ok((t, w, sql)) ==> ("UPDATE "@ + enclosed(t, QUOTE)).is_prefix_of(
            sql,
        ) && sql.len() >= (" WHERE "@ + w).len() && sql.skip(sql.len() - (" WHERE "@ + w).len())
            == " WHERE "@ + w,
        delete_outcome(top) matches Ok((t, w, sql)) ==> sql == "DELETE FROM "@ + enclosed(t, QUOTE)
            + " WHERE "@ + w,
{
    if update_outcome(top) is Ok {
        let (t, w, sql) = update_outcome(top)->Ok_0;
        let head = "UPDATE "@ + enclosed(t, QUOTE);
        let tail = " WHERE "@ + w;
        let col_name = field_str(top, "col_name"@).unwrap();
        let mid = " SET "@ + enclosed(col_name, QUOTE) + " = "@ + sql_literal(
            value_or_null(top, "new_val"@),
        );
        assert(sql =~= head + mid + tail);
        assert(sql.take(head.len() as int) =~= head);
        assert(sql.skip(sql.len() - tail.len()) =~= tail);
    }
}


/// A non-empty join starts with its first part.
proof fn lemma_join_starts_with_first(parts: Seq<Seq<char>>, sep: Seq<char>)
    requires
        parts.len() >= 1,
    ensures
        parts[0].is_prefix_of(join(parts, sep)),
    decreases parts.len(),
{
    if parts.len() > 1 {
        lemma_join_starts_with_first(parts.drop_last(), sep);
        let j = join(parts.drop_last(), sep);
        assert((j + sep + parts.last()).take(parts[0].len() as int) =~= j.take(
            parts[0].len() as int,
        ));
    }
}

/// The `INSERT` an insert request gives: it is refused without a string
/// `table` (missing-field message), without a `data` object, or with an
/// empty one; otherwise it names the quoted table, lists the quoted keys of
/// `data` in order and their SQL literals in the same order: it opens with
/// the first key, closes with the last value, and for one or two entries it
/// is exactly `INSERT INTO "t" ("k") VALUES (v)` and
/// `INSERT INTO "t" ("k1", "k2") VALUES (v1, v2)`.
pub proof fn law_insert_statement(top: JsonValue, t: Seq<char>, data: Vec<(String, JsonValue)>)
    ensures
        field_str(top, "table"@) is None ==> insert_outcome(top) == Err::<Seq<char>, Seq<char>>(
            missing_field_message("table"@),
        ),
        field_str(top, "table"@) == Some(t) && !(top.spec_get("data"@) matches Some(
            JsonValue::Object(_),
        )) ==> insert_outcome(top) == Err::<Seq<char>, Seq<char>>(
            "insert_record requires a 'data' object"@,
        ),
        field_str(top, "table"@) == Some(t) && top.spec_get("data"@) == Some(JsonValue::Object(data))
            && data@.len() == 0 ==> insert_outcome(top) == Err::<Seq<char>, Seq<char>>(
            "insert_record requires at least one column"@,
        ),
        field_str(top, "table"@) == Some(t) && top.spec_get("data"@) == Some(JsonValue::Object(data))
            && data@.len() >= 1 ==> insert_outcome(top) is Ok && ("INSERT INTO "@ + enclosed(
            t,
            QUOTE,
        ) + " ("@ + enclosed(data@[0].0@, QUOTE)).is_prefix_of(insert_outcome(top)->Ok_0)
            && insert_outcome(top)->Ok_0.len() >= sql_literal(data@.last().1).len() + 1
            && insert_outcome(top)->Ok_0.skip(
            insert_outcome(top)->Ok_0.len() - sql_literal(data@.last().1).len() - 1,
        ) == sql_literal(data@.last().1) + ")"@,
        field_str(top, "table"@) == Some(t) && top.spec_get("data"@) == Some(JsonValue::Object(data))
            && data@.len() == 1 ==> insert_outcome(top) == Ok::<Seq<char>, Seq<char>>(
            "INSERT INTO "@ + enclosed(t, QUOTE) + " ("@ + enclosed(data@[0].0@, QUOTE)
                + ") VALUES ("@ + sql_literal(data@[0].1) + ")"@,
        ),
        field_str(top, "table"@) == Some(t) && top.spec_get("data"@) == Some(JsonValue::Object(data))
            && data@.len() == 2 ==> insert_outcome(top) == Ok::<Seq<char>, Seq<char>>(
            "INSERT INTO "@ + enclosed(t, QUOTE) + " ("@ + enclosed(data@[0].0@, QUOTE) + ", "@
                + enclosed(data@[1].0@, QUOTE) + ") VALUES ("@ + sql_literal(data@[0].1) + ", "@
                + sql_literal(data@[1].1) + ")"@,
        ),
{
    if field_str(top, "table"@) == Some(t) && top.spec_get("data"@) == Some(JsonValue::Object(data)) {
        {
            let es = data@;
            if es.len() >= 1 {
                let cols = es.map_values(|p: (String, JsonValue)| enclosed(p.0@, QUOTE));
                let vals = es.map_values(|p: (String, JsonValue)| sql_literal(p.1));
                let jc = join(cols, ", "@);
                let jv = join(vals, ", "@);
                let head = "INSERT INTO "@ + enclosed(t, QUOTE) + " ("@;
                let sql = head + jc + ") VALUES ("@ + jv + ")"@;
                assert(insert_outcome(top) == Ok::<Seq<char>, Seq<char>>(sql));
                lemma_join_starts_with_first(cols, ", "@);
                assert(cols[0] == enclosed(es[0].0@, QUOTE));
                assert((head + jc).take((head + cols[0]).len() as int) =~= head + cols[0]);
                assert(sql.take((head + cols[0]).len() as int) =~= head + cols[0]);
                let last = vals.last();
                assert(last == sql_literal(es.last().1));
                let pre_v = if es.len() == 1 {
                    Seq::<char>::empty()
                } else {
                    join(vals.drop_last(), ", "@) + ", "@
                };
                assert(jv =~= pre_v + last);
                let front = head + jc + ") VALUES ("@ + pre_v;
                assert(sql =~= front + (last + ")"@));
                reveal_strlit(")");
                assert(sql.len() == front.len() + last.len() + 1);
                assert(sql.skip(front.len() as int) =~= last + ")"@);
                if es.len() == 2 {
                    assert(cols.drop_last().len() == 1);
                    assert(join(cols.drop_last(), ", "@) == cols.drop_last()[0]);
                    assert(join(vals.drop_last(), ", "@) == vals.drop_last()[0]);
                    assert(jc == cols[0] + ", "@ + cols[1]);
                    assert(jv == vals[0] + ", "@ + vals[1]);
                    assert(sql =~= "INSERT INTO "@ + enclosed(t, QUOTE) + " ("@ + enclosed(
                        es[0].0@,
                        QUOTE,
                    ) + ", "@ + enclosed(es[1].0@, QUOTE) + ") VALUES ("@ + sql_literal(es[0].1)
                        + ", "@ + sql_literal(es[1].1) + ")"@);
                }
                if es.len() == 1 {
                    assert(sql =~= "INSERT INTO "@ + enclosed(t, QUOTE) + " ("@ + enclosed(
                        es[0].0@,
                        QUOTE,
                    ) + ") VALUES ("@ + sql_literal(es[0].1) + ")"@);
                }
            }
        }
    }
}

} // verus!
