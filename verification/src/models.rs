//! Request shapes the host sends to the plugin.
//!
//! The host serialises `ConnectionParams` with the `database` field as an
//! untagged `DatabaseSelection` enum, so on the wire it is *either* a plain
//! string (`"mydb"`) *or* an array of strings (`["a", "b"]`). Both are
//! accepted.

use vstd::prelude::*;

use crate::json::{deref_opt, JsonNumber, JsonValue};
use crate::utils::text::{
    chars_of, find_char, first_index_of, lemma_first_index_unique, opt_str_view, opt_view, push_range, string_from_chars,
    string_of, trim, trim_between,
};

verus! {

/// Connection parameters as entered in the Tabularis connection form.
#[derive(Debug, Clone)]
pub struct ConnectionParams {
    pub host: Option<String>,
    pub port: Option<u16>,
    /// Raw database value. May embed the Informix server as `dbname@server`.
    pub database: Option<String>,
    pub username: Option<String>,
    pub password: Option<String>,
    /// Reserved for a future SSL mode.
    pub ssl_mode: Option<String>,
}

impl Default for ConnectionParams {
    fn default() -> (p: Self)
        ensures
            p.host is None,
            p.port is None,
            p.database is None,
            p.username is None,
            p.password is None,
            p.ssl_mode is None,
    {
        ConnectionParams {
            host: None,
            port: None,
            database: None,
            username: None,
            password: None,
            ssl_mode: None,
        }
    }
}

/// The trimmed text, or `None` when nothing is left.
pub open spec fn non_empty(s: Seq<char>) -> Option<Seq<char>> {
    if trim(s).len() == 0 {
        None
    } else {
        Some(trim(s))
    }
}

/// `"left@right"` split at the first `@`, each part trimmed and `None` when
/// empty; a value without `@` keeps its (trimmed) text on the left.
pub open spec fn split_on_at_spec(value: Option<Seq<char>>) -> (Option<Seq<char>>, Option<Seq<char>>) {
    match value {
        None => (None, None),
        Some(raw) => match first_index_of(raw, '@') {
            Some(i) => (non_empty(raw.take(i)), non_empty(raw.skip(i + 1))),
            None => (non_empty(raw), None),
        },
    }
}

/// A string field that is present and not empty.
pub open spec fn nonempty_str(v: Option<JsonValue>) -> Option<Seq<char>> {
    match v {
        Some(x) => match x.spec_as_str() {
            Some(s) => if s.len() > 0 {
                Some(s)
            } else {
                None
            },
            None => None,
        },
        None => None,
    }
}

/// The untagged `DatabaseSelection`: a non-empty string, or the first element
/// of an array when that is a non-empty string.
pub open spec fn database_as_str_spec(v: JsonValue) -> Option<Seq<char>> {
    match v {
        JsonValue::String(s) => if s@.len() > 0 {
            Some(s@)
        } else {
            None
        },
        JsonValue::Array(arr) => if arr@.len() > 0 {
            nonempty_str(Some(arr@[0]))
        } else {
            None
        },
        _ => None,
    }
}

/// The port, when it is an integer that fits in `u16`.
pub open spec fn port_spec(v: Option<JsonValue>) -> Option<u16> {
    match v {
        Some(x) => match x.spec_as_u64() {
            Some(n) => if n <= u16::MAX as u64 {
                Some(n as u16)
            } else {
                None
            },
            None => None,
        },
        None => None,
    }
}

/// `p` holds what `from_value` reads out of `value`.
pub open spec fn params_from(p: ConnectionParams, value: JsonValue) -> bool {
    &&& opt_view(p.host) == nonempty_str(value.spec_get("host"@))
    &&& p.port == port_spec(value.spec_get("port"@))
    &&& opt_view(p.database) == (match value.spec_get("database"@) {
        Some(d) => database_as_str_spec(d),
        None => None,
    })
    &&& opt_view(p.username) == nonempty_str(value.spec_get("username"@))
    &&& opt_view(p.password) == nonempty_str(value.spec_get("password"@))
    &&& opt_view(p.ssl_mode) == nonempty_str(value.spec_get("ssl_mode"@))
}

/// The connection-parameter object inside the top-level params
/// (`params.params`), `null` when absent.
pub open spec fn inner_params(top: JsonValue) -> JsonValue {
    match top.spec_get("params"@) {
        Some(v) => v,
        None => JsonValue::Null,
    }
}

fn get_nonempty_str(value: &JsonValue, key: &str) -> (r: Option<String>)
    ensures
        opt_view(r) == nonempty_str(value.spec_get(key@)),
{
    match value.get(key) {
        Some(v) => match v.as_str() {
            Some(s) => if s.unicode_len() > 0 {
                Some(string_of(s))
            } else {
                None
            },
            None => None,
        },
        None => None,
    }
}

/// Accepts the untagged `DatabaseSelection`: a bare string or `[strings]`.
fn database_as_str(v: &JsonValue) -> (r: Option<String>)
    ensures
        opt_view(r) == database_as_str_spec(*v),
{
    match v {
        JsonValue::String(s) => if s.as_str().unicode_len() > 0 {
            Some(string_of(s.as_str()))
        } else {
            None
        },
        JsonValue::Array(arr) => if arr.len() > 0 {
            match arr[0].as_str() {
                Some(s) => if s.unicode_len() > 0 {
                    Some(string_of(s))
                } else {
                    None
                },
                None => None,
            }
        } else {
            None
        },
        _ => None,
    }
}

/// Trims `v[a..n]`, giving `None` when nothing is left.
fn non_empty_range(v: &Vec<char>, a: usize, n: usize) -> (r: Option<String>)
    requires
        a <= n <= v@.len(),
    ensures
        opt_view(r) == non_empty(v@.subrange(a as int, n as int)),
{
    let (i, j) = trim_between(v, a, n);
    if i == j {
        None
    } else {
        let mut out: Vec<char> = Vec::new();
        push_range(&mut out, v, i, j);
        Some(string_from_chars(&out))
    }
}

/// Splits `"left@right"` into `(Some(left), Some(right))`, trimming each part
/// and mapping empty parts to `None`. A value without `@` yields `(value, None)`.
pub fn split_on_at(value: Option<&str>) -> (r: (Option<String>, Option<String>))
    ensures
        (opt_view(r.0), opt_view(r.1)) == split_on_at_spec(opt_str_view(value)),
{
    match value {
        None => (None, None),
        Some(raw) => {
            let v = chars_of(raw);
            assert(v@.subrange(0, v@.len() as int) =~= v@);
            match find_char(&v, '@') {
                Some(i) => {
                    assert(v@.subrange(0, i as int) =~= v@.take(i as int));
                    assert(v@.subrange(i + 1, v@.len() as int) =~= v@.skip(i + 1));
                    (non_empty_range(&v, 0, i), non_empty_range(&v, i + 1, v.len()))
                },
                None => (non_empty_range(&v, 0, v.len()), None),
            }
        },
    }
}

impl ConnectionParams {
    /// Reads the connection parameters out of a JSON object. Empty strings
    /// count as absent, and a port that does not fit in `u16` is dropped.
    pub fn from_value(value: &JsonValue) -> (p: Self)
        ensures
            params_from(p, *value),
    {
        let port: Option<u16> = match value.get("port") {
            Some(v) => match v.as_u64() {
                Some(n) => if n <= u16::MAX as u64 {
                    Some(n as u16)
                } else {
                    None
                },
                None => None,
            },
            None => None,
        };
        let database = match value.get("database") {
            Some(d) => database_as_str(d),
            None => None,
        };
        ConnectionParams {
            host: get_nonempty_str(value, "host"),
            port,
            database,
            username: get_nonempty_str(value, "username"),
            password: get_nonempty_str(value, "password"),
            ssl_mode: get_nonempty_str(value, "ssl_mode"),
        }
    }

    /// Splits the `host` field into `(host, Some(server))` when the
    /// `host@server` form is used, otherwise `(host, None)`. This lets each
    /// connection carry its own Informix server (dbservername) even in
    /// multi-database mode, where the database field is not shown.
    pub fn host_and_server(&self) -> (r: (Option<String>, Option<String>))
        ensures
            (opt_view(r.0), opt_view(r.1)) == split_on_at_spec(opt_view(self.host)),
    {
        match &self.host {
            Some(h) => split_on_at(Some(h.as_str())),
            None => split_on_at(None),
        }
    }

    /// Splits the `database` field into `(database, Some(server))` when the
    /// Informix `dbname@server` form is used, otherwise `(database, None)`.
    pub fn database_and_server(&self) -> (r: (Option<String>, Option<String>))
        ensures
            (opt_view(r.0), opt_view(r.1)) == split_on_at_spec(opt_view(self.database)),
    {
        match &self.database {
            Some(d) => split_on_at(Some(d.as_str())),
            None => split_on_at(None),
        }
    }
}

/// The host wraps connection params in `params.params`. Extracts the inner
/// `ConnectionParams` object for the common case.
pub fn connection_params(top: &JsonValue) -> (p: ConnectionParams)
    ensures
        params_from(p, inner_params(*top)),
{
    match top.get("params") {
        Some(v) => ConnectionParams::from_value(v),
        None => ConnectionParams::from_value(&JsonValue::Null),
    }
}

/// Reads a string field from the top-level params object.
pub fn str_field<'a>(top: &'a JsonValue, key: &str) -> (r: Option<&'a str>)
    ensures
        opt_str_view(r) == (match top.spec_get(key@) {
            Some(v) => v.spec_as_str(),
            None => None,
        }),
{
    match top.get(key) {
        Some(v) => v.as_str(),
        None => None,
    }
}

/// `left@right` splits at its first `@` into the trimmed left and right
/// parts, an empty (or blank) part being absent; a value without `@` is the
/// trimmed value with no second part; no value gives neither part.
pub proof fn law_split_on_at(raw: Seq<char>, a: Seq<char>, b: Seq<char>)
    ensures
        split_on_at_spec(None) == (None::<Seq<char>>, None::<Seq<char>>),
        raw == a + seq!['@'] + b && !a.contains('@') ==> split_on_at_spec(Some(raw)) == (
            if trim(a).len() > 0 {
                Some(trim(a))
            } else {
                None
            },
            if trim(b).len() > 0 {
                Some(trim(b))
            } else {
                None
            },
        ),
        !raw.contains('@') ==> split_on_at_spec(Some(raw)) == (
            if trim(raw).len() > 0 {
                Some(trim(raw))
            } else {
                None
            },
            None::<Seq<char>>,
        ),
{
    if raw == a + seq!['@'] + b && !a.contains('@') {
        lemma_first_index_unique(raw, '@', a.len() as int);
        assert(raw.take(a.len() as int) =~= a);
        assert(raw.skip(a.len() as int + 1) =~= b);
    }
}

/// A non-empty string under `key`, if there is one.
pub open spec fn given_text(value: JsonValue, key: Seq<char>) -> Option<Seq<char>> {
    match value.spec_get(key) {
        Some(JsonValue::String(x)) => if x@.len() > 0 {
            Some(x@)
        } else {
            None
        },
        _ => None,
    }
}

/// How connection parameters are read: host, user name and password are
/// the non-empty strings given (absent otherwise); the port is the integer
/// given when it fits in 16 bits; the database is the non-empty string
/// given, or the first element of a list when that is a non-empty string.
pub proof fn law_connection_params(p: ConnectionParams, value: JsonValue)
    requires
        params_from(p, value),
    ensures
        opt_view(p.host) == given_text(value, "host"@),
        opt_view(p.username) == given_text(value, "username"@),
        opt_view(p.password) == given_text(value, "password"@),
        p.port == (match value.spec_get("port"@) {
            Some(JsonValue::Number(JsonNumber::PosInt(n))) => if n <= 65535 {
                Some(n as u16)
            } else {
                None
            },
            _ => None,
        }),
        opt_view(p.database) == (match value.spec_get("database"@) {
            Some(JsonValue::String(x)) => if x@.len() > 0 {
                Some(x@)
            } else {
                None
            },
            Some(JsonValue::Array(items)) => if items@.len() > 0 && items@[0] is String
                && items@[0]->String_0@.len() > 0 {
                Some(items@[0]->String_0@)
            } else {
                None
            },
            _ => None,
        }),
{
}

} // verus!
