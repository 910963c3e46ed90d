//! Request handlers: each reads its parameters from the top-level JSON
//! params and produces the SQL to run or the JSON to answer with.

pub mod crud;
pub mod ddl;
pub mod metadata;
pub mod query;

use vstd::prelude::*;

use crate::error::{PluginError, INVALID_PARAMS};
use crate::json::JsonValue;
use crate::models::str_field;
use crate::utils::text::{push_str, string_from_chars};

verus! {

/// A string field of the params, if present.
pub open spec fn field_str(top: JsonValue, key: Seq<char>) -> Option<Seq<char>> {
    match top.spec_get(key) {
        Some(v) => v.spec_as_str(),
        None => None,
    }
}

/// The message for a missing required field.
pub open spec fn missing_field_message(key: Seq<char>) -> Seq<char> {
    "missing required field '"@ + key + "'"@
}

/// Reads a required string field from the params, erroring if absent.
pub fn require_str<'a>(top: &'a JsonValue, key: &str) -> (r: Result<&'a str, PluginError>)
    ensures
        match r {
            Ok(s) => field_str(*top, key@) == Some(s@),
            Err(e) => field_str(*top, key@) is None && e.code == INVALID_PARAMS && e.message@
                == missing_field_message(key@),
        },
{
    match str_field(top, key) {
        Some(s) => Ok(s),
        None => {
            let mut m: Vec<char> = Vec::new();
            push_str(&mut m, "missing required field '");
            push_str(&mut m, key);
            push_str(&mut m, "'");
            assert(m@ =~= missing_field_message(key@));
            Err(PluginError::invalid_params(string_from_chars(&m)))
        },
    }
}

/// `v` is a JSON array of strings holding exactly `items`.
pub open spec fn is_string_list(v: JsonValue, items: Seq<Seq<char>>) -> bool {
    match v {
        JsonValue::Array(a) => a@.len() == items.len() && forall|i: int|
            0 <= i < items.len() ==> (#[trigger] a@[i] matches JsonValue::String(s) && s@
                == items[i]),
        _ => false,
    }
}

/// A JSON array holding the given strings.
pub fn string_list(items: Vec<String>) -> (v: JsonValue)
    ensures
        is_string_list(v, items@.map_values(|s: String| s@)),
{
    let mut out: Vec<JsonValue> = Vec::new();
    let mut i: usize = 0;
    while i < items.len()
        invariant
            i <= items@.len(),
            out@.len() == i,
            forall|k: int|
                0 <= k < i ==> (#[trigger] out@[k] matches JsonValue::String(s) && s@
                    == items@[k]@),
        decreases items@.len() - i,
    {
        out.push(JsonValue::String(items[i].clone()));
        i = i + 1;
    }
    JsonValue::Array(out)
}

/// `r` answers with the statements of `outcome` as a JSON array of strings,
/// or with an "invalid params" error carrying its message.
pub open spec fn answers(r: Result<JsonValue, PluginError>, outcome: Result<Seq<Seq<char>>, Seq<char>>) -> bool {
    match r {
        Ok(v) => outcome matches Ok(stmts) && is_string_list(v, stmts),
        Err(e) => outcome == Err::<Seq<Seq<char>>, Seq<char>>(e.message@) && e.code == INVALID_PARAMS,
    }
}

/// `r` is the single statement `outcome` holds, or an "invalid params"
/// error carrying its message.
pub open spec fn yields(r: Result<String, PluginError>, outcome: Result<Seq<char>, Seq<char>>) -> bool {
    match r {
        Ok(s) => outcome == Ok::<Seq<char>, Seq<char>>(s@),
        Err(e) => outcome == Err::<Seq<char>, Seq<char>>(e.message@) && e.code == INVALID_PARAMS,
    }
}

/// A JSON array holding one string.
pub fn single_string_list(s: String) -> (v: JsonValue)
    ensures
        is_string_list(v, seq![s@]),
{
    let ghost sv = s@;
    let mut items: Vec<String> = Vec::new();
    items.push(s);
    let ghost iv = items@;
    assert(iv.map_values(|s: String| s@) =~= seq![sv]);
    string_list(items)
}

} // verus!
