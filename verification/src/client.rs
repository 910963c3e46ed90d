//! What the execution layer decides about query results.
//!
//! Connections and statements run outside this library. Result sets are
//! fetched as text (the most portable binding across ODBC drivers); the
//! functions here turn that text into JSON cells (integer columns become JSON
//! numbers, decimals and text stay strings) and read scalar results.

use vstd::prelude::*;

use crate::json::{JsonNumber, JsonValue};
use crate::utils::number::{
    dec, int_dec, is_digit, law_i64_text_reads_back, lemma_dec_reads_back, parse_i64,
    parse_i64_spec,
};
use crate::utils::text::{chars_of, lemma_trim_noop, push_range, string_of, trim, trim_bounds};

verus! {

/// Number of rows affected by the most recent statement on a connection,
/// through the Informix `DBINFO('sqlca.sqlerrd2')` pseudo-function.
pub const AFFECTED_ROWS_SQL: &'static str =
    "SELECT DBINFO('sqlca.sqlerrd2') FROM systables WHERE tabid = 1";

/// A fetched result set: column names, and rows of JSON cells.
#[derive(Debug)]
pub struct QueryOutcome {
    pub columns: Vec<String>,
    pub rows: Vec<Vec<JsonValue>>,
}

impl Default for QueryOutcome {
    /// The outcome of a statement that produced no result set.
    fn default() -> (o: QueryOutcome)
        ensures
            o.columns@.len() == 0,
            o.rows@.len() == 0,
    {
        QueryOutcome { columns: Vec::new(), rows: Vec::new() }
    }
}

/// The SQL types a result column can have, as far as cell conversion cares.
#[derive(Debug)]
pub enum SqlTypeKind {
    TinyInt,
    SmallInt,
    Integer,
    BigInt,
    Float,
    Real,
    Double,
    Other,
}

/// How a column's cells are emitted.
#[derive(Debug)]
pub enum NumKind {
    /// As a JSON integer.
    Int,
    /// As a JSON float.
    Float,
    /// As a string (decimals, text, dates, everything else).
    Text,
}

pub open spec fn numeric_kind_spec(k: SqlTypeKind) -> NumKind {
    match k {
        SqlTypeKind::TinyInt | SqlTypeKind::SmallInt | SqlTypeKind::Integer
        | SqlTypeKind::BigInt => NumKind::Int,
        SqlTypeKind::Float | SqlTypeKind::Real | SqlTypeKind::Double => NumKind::Float,
        SqlTypeKind::Other => NumKind::Text,
    }
}

pub fn numeric_kind(k: &SqlTypeKind) -> (r: NumKind)
    ensures
        r == numeric_kind_spec(*k),
{
    match k {
        SqlTypeKind::TinyInt | SqlTypeKind::SmallInt | SqlTypeKind::Integer
        | SqlTypeKind::BigInt => NumKind::Int,
        SqlTypeKind::Float | SqlTypeKind::Real | SqlTypeKind::Double => NumKind::Float,
        SqlTypeKind::Other => NumKind::Text,
    }
}

/// The JSON number of an `i64`.
pub open spec fn i64_number(n: i64) -> JsonNumber {
    if n < 0 {
        JsonNumber::NegInt(n)
    } else {
        JsonNumber::PosInt(n as u64)
    }
}

pub fn i64_to_json(n: i64) -> (v: JsonValue)
    ensures
        v == JsonValue::Number(i64_number(n)),
{
    if n < 0 {
        JsonValue::Number(JsonNumber::NegInt(n))
    } else {
        JsonValue::Number(JsonNumber::PosInt(n as u64))
    }
}

/// A converted cell: a JSON value, or the text of a floating-point cell,
/// which the caller parses as a float.
#[derive(Debug)]
pub enum CellValue {
    Json(JsonValue),
    FloatText(String),
}

/// `cell` holds what `cell_value` makes of the text `text` of a column of
/// kind `kind`.
pub open spec fn cell_value_spec(cell: CellValue, text: Option<Seq<char>>, kind: NumKind) -> bool {
    match text {
        None => cell == CellValue::Json(JsonValue::Null),
        Some(s) => match kind {
            NumKind::Int => match parse_i64_spec(trim(s)) {
                Some(n) => cell == CellValue::Json(JsonValue::Number(i64_number(n as i64))),
                None => cell matches CellValue::Json(JsonValue::String(t)) && t@ == s,
            },
            NumKind::Float => cell matches CellValue::FloatText(t) && t@ == s,
            NumKind::Text => cell matches CellValue::Json(JsonValue::String(t)) && t@ == s,
        },
    }
}

/// Converts a fetched text cell: SQL NULL becomes JSON null, an integer
/// column's cell becomes a JSON integer when its trimmed text parses as
/// `i64` (and stays text otherwise), a text column's cell stays text.
pub fn cell_value(cell: Option<&str>, kind: NumKind) -> (r: CellValue)
    ensures
        cell_value_spec(r, crate::utils::text::opt_str_view(cell), kind),
{
    match cell {
        None => CellValue::Json(JsonValue::Null),
        Some(s) => match kind {
            NumKind::Int => {
                let v = chars_of(s);
                let (a, b) = trim_bounds(&v);
                let mut t: Vec<char> = Vec::new();
                push_range(&mut t, &v, a, b);
                match parse_i64(&t) {
                    Some(n) => CellValue::Json(i64_to_json(n)),
                    None => CellValue::Json(JsonValue::String(string_of(s))),
                }
            },
            NumKind::Float => CellValue::FloatText(string_of(s)),
            NumKind::Text => CellValue::Json(JsonValue::String(string_of(s))),
        },
    }
}

/// The first column of the first row as an `i64`: a JSON integer in range,
/// or text whose trimmed form parses as one.
pub open spec fn scalar_i64_spec(rows: Seq<Vec<JsonValue>>) -> Option<i64> {
    if rows.len() == 0 || rows[0]@.len() == 0 {
        None
    } else {
        match rows[0]@[0] {
            JsonValue::Number(_) => rows[0]@[0].spec_as_i64(),
            JsonValue::String(s) => match parse_i64_spec(trim(s@)) {
                Some(n) => Some(n as i64),
                None => None,
            },
            _ => None,
        }
    }
}

/// Reads a scalar query's result as an `i64`.
pub fn scalar_i64(outcome: &QueryOutcome) -> (r: Option<i64>)
    ensures
        r == scalar_i64_spec(outcome.rows@),
{
    if outcome.rows.len() == 0 || outcome.rows[0].len() == 0 {
        return None;
    }
    let cell = &outcome.rows[0][0];
    match cell {
        JsonValue::Number(_) => cell.as_i64(),
        JsonValue::String(s) => {
            let v = chars_of(s.as_str());
            let (a, b) = trim_bounds(&v);
            let mut t: Vec<char> = Vec::new();
            push_range(&mut t, &v, a, b);
            parse_i64(&t)
        },
        _ => None,
    }
}

/// The affected-row count reported by `AFFECTED_ROWS_SQL`: 0 when it could
/// not be read, and never negative.
pub fn affected_from_scalar(n: Option<i64>) -> (r: u64)
    ensures
        r == (match n {
            Some(k) => if k < 0 {
                0
            } else {
                k as u64
            },
            None => 0,
        }),
{
    match n {
        Some(k) => if k < 0 {
            0
        } else {
            k as u64
        },
        None => 0,
    }
}

/// The decimal text of an `i64` has nothing to trim and parses back to it.
proof fn lemma_i64_text_parses(n: i64)
    ensures
        parse_i64_spec(trim(int_dec(n as int))) == Some(n as int),
{
    let s = int_dec(n as int);
    law_i64_text_reads_back(n);
    let m: nat = if n < 0 {
        (-(n as int)) as nat
    } else {
        n as nat
    };
    lemma_dec_reads_back(m);
    let d = dec(m);
    assert(is_digit(d[0]) && is_digit(d.last()));
    if n < 0 {
        assert(s[0] == '-');
        assert(s.last() == d.last());
    } else {
        assert(s == d);
    }
    lemma_trim_noop(s);
}

/// An integer column's cell holding the decimal text of an `i64` comes back
/// as that very integer.
pub proof fn law_integer_cells_read_back(n: i64, cell: CellValue)
    requires
        cell_value_spec(cell, Some(int_dec(n as int)), NumKind::Int),
    ensures
        cell == CellValue::Json(JsonValue::Number(i64_number(n))),
{
    lemma_i64_text_parses(n);
}

/// A scalar result is read from the first column of the first row: a JSON
/// integer `n`, or a string holding the decimal text of `n`, reads as `n`;
/// no rows, an empty first row, or a first cell that is null, a boolean, an
/// array or an object read as nothing.
pub proof fn law_scalar_reads_back(rows: Seq<Vec<JsonValue>>, n: i64, s: String)
    ensures
        rows.len() == 0 ==> scalar_i64_spec(rows) is None,
        rows.len() >= 1 && rows[0]@.len() == 0 ==> scalar_i64_spec(rows) is None,
        rows.len() >= 1 && rows[0]@.len() >= 1 && rows[0]@[0] == JsonValue::Number(i64_number(n))
            ==> scalar_i64_spec(rows) == Some(n),
        rows.len() >= 1 && rows[0]@.len() >= 1 && rows[0]@[0] == JsonValue::String(s) && s@
            == int_dec(n as int) ==> scalar_i64_spec(rows) == Some(n),
        rows.len() >= 1 && rows[0]@.len() >= 1 && (rows[0]@[0] is Null || rows[0]@[0] is Bool
            || rows[0]@[0] is Array || rows[0]@[0] is Object) ==> scalar_i64_spec(rows) is None,
{
    lemma_i64_text_parses(n);
}

/// How a fetched cell is converted: SQL NULL is JSON null in every column;
/// integer columns (TINYINT, SMALLINT, INTEGER, BIGINT) give a JSON integer
/// when the trimmed text is one and keep the text otherwise; float columns
/// (FLOAT, REAL, DOUBLE) hand their text on for float parsing; every other
/// column (DECIMAL and MONEY among them) keeps its text as a JSON string.
pub proof fn law_cell_kinds(cell: CellValue, text: Option<Seq<char>>, k: SqlTypeKind, t: Seq<char>)
    requires
        cell_value_spec(cell, text, numeric_kind_spec(k)),
    ensures
        text is None ==> cell == CellValue::Json(JsonValue::Null),
        text == Some(t) && k is Other ==> (cell matches CellValue::Json(JsonValue::String(x)) && x@
            == t),
        text == Some(t) && (k is Float || k is Real || k is Double) ==> (
        cell matches CellValue::FloatText(x) && x@ == t),
        text == Some(t) && (k is TinyInt || k is SmallInt || k is Integer || k is BigInt)
            && parse_i64_spec(trim(t)) is Some ==> cell == CellValue::Json(
            JsonValue::Number(
                if parse_i64_spec(trim(t))->0 < 0 {
                    JsonNumber::NegInt(parse_i64_spec(trim(t))->0 as i64)
                } else {
                    JsonNumber::PosInt(parse_i64_spec(trim(t))->0 as u64)
                },
            ),
        ),
        text == Some(t) && (k is TinyInt || k is SmallInt || k is Integer || k is BigInt)
            && parse_i64_spec(trim(t)) is None ==> (cell matches CellValue::Json(
            JsonValue::String(x),
        ) && x@ == t),
{
}

} // verus!
