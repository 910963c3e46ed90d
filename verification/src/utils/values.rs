//! Conversion of JSON values into Informix SQL literals.
//!
//! CRUD statements are built as literal SQL (rather than binding parameters)
//! so that values of any JSON shape can be embedded uniformly. String literals
//! use single quotes with embedded single quotes doubled, per the SQL standard
//! (and Informix with `DELIMIDENT=Y`).

use vstd::prelude::*;

use crate::json::{json_text, number_to_string, number_text, to_json_string, JsonValue};
use crate::utils::identifiers::{enclose_chars, enclosed, lemma_read_doubled, read_delimited};
use crate::utils::text::{string_from_chars, string_of};

verus! {

pub const SQUOTE: char = '\'';

/// The SQL literal a JSON value is written as.
pub open spec fn sql_literal(v: JsonValue) -> Seq<char> {
    match v {
        JsonValue::Null => "NULL"@,
        JsonValue::Bool(b) => if b {
            "'t'"@
        } else {
            "'f'"@
        },
        JsonValue::Number(n) => number_text(n),
        JsonValue::String(s) => enclosed(s@, SQUOTE),
        _ => enclosed(json_text(v), SQUOTE),
    }
}

/// Single-quotes a string and escapes embedded single quotes by doubling.
pub fn quote_string(s: &str) -> (r: String)
    ensures
        r@ == enclosed(s@, SQUOTE),
{
    let v = enclose_chars(s, SQUOTE);
    string_from_chars(&v)
}

/// Formats a JSON value as an Informix SQL literal:
/// `null` as `NULL`, booleans as `'t'` / `'f'` (Informix BOOLEAN literals),
/// numbers verbatim, strings single-quoted and escaped, and arrays and
/// objects as their JSON text, single-quoted and escaped.
pub fn format_sql_value(value: &JsonValue) -> (r: String)
    ensures
        r@ == sql_literal(*value),
{
    match value {
        JsonValue::Null => string_of("NULL"),
        JsonValue::Bool(b) => if *b {
            string_of("'t'")
        } else {
            string_of("'f'")
        },
        JsonValue::Number(n) => number_to_string(n),
        JsonValue::String(s) => quote_string(s.as_str()),
        _ => {
            let text = to_json_string(value);
            quote_string(text.as_str())
        },
    }
}

/// A quoted string literal reads back as exactly the string it quotes: after
/// the opening quote, the literal holds `s` and ends at the last character,
/// whatever quotes `s` contains.
pub proof fn law_quote_string_reads_back(s: Seq<char>)
    ensures
        read_delimited(enclosed(s, SQUOTE).drop_first(), SQUOTE) == Some(
            (s, Seq::<char>::empty()),
        ),
{
    lemma_read_doubled(s, Seq::<char>::empty(), SQUOTE);
    assert(enclosed(s, SQUOTE).drop_first() =~= crate::utils::identifiers::doubled(s, SQUOTE)
        + seq![SQUOTE] + Seq::<char>::empty());
}

/// How each JSON value is embedded in SQL: `null` as `NULL`, booleans as
/// `'t'` / `'f'`, numbers as their JSON text, and strings, arrays and
/// objects as a single-quoted literal that reads back as exactly the string,
/// or the compact JSON text of the array or object.
pub proof fn law_sql_literal_forms(v: JsonValue)
    ensures
        v == JsonValue::Null ==> sql_literal(v) == seq!['N', 'U', 'L', 'L'],
        v == JsonValue::Bool(true) ==> sql_literal(v) == seq![SQUOTE, 't', SQUOTE],
        v == JsonValue::Bool(false) ==> sql_literal(v) == seq![SQUOTE, 'f', SQUOTE],
        v is Number ==> sql_literal(v) == json_text(v),
        v matches JsonValue::String(t) ==> sql_literal(v)[0] == SQUOTE && read_delimited(
            sql_literal(v).drop_first(),
            SQUOTE,
        ) == Some((t@, Seq::<char>::empty())),
        (v is Array || v is Object) ==> sql_literal(v)[0] == SQUOTE && read_delimited(
            sql_literal(v).drop_first(),
            SQUOTE,
        ) == Some((json_text(v), Seq::<char>::empty())),
{
    reveal_strlit("NULL");
    reveal_strlit("'t'");
    reveal_strlit("'f'");
    assert("NULL"@ =~= seq!['N', 'U', 'L', 'L']);
    assert("'t'"@ =~= seq![SQUOTE, 't', SQUOTE]);
    assert("'f'"@ =~= seq![SQUOTE, 'f', SQUOTE]);
    match v {
        JsonValue::String(t) => {
            law_quote_string_reads_back(t@);
        },
        JsonValue::Array(_) | JsonValue::Object(_) => {
            law_quote_string_reads_back(json_text(v));
        },
        _ => {},
    }
}

} // verus!
