//! Builds the ODBC connection string for the IBM Informix ODBC driver.
//!
//! Two shapes are supported:
//!   * **DSN-based**: when `Config::dsn` is set, the string uses `DSN=<name>`
//!     and only overrides credentials / database / locales.
//!   * **DSN-less**: otherwise the full string is assembled from the driver
//!     name, host, server, service (port) and protocol.
//!
//! `DELIMIDENT=Y` is always appended so double-quoted identifiers work.

use vstd::prelude::*;

use crate::config::Config;
use crate::error::{PluginError, INVALID_PARAMS};
use crate::models::{split_on_at_spec, ConnectionParams};
use crate::utils::number::{dec, push_u64};
use crate::utils::text::{
    chars_of, contains_seq, has_char, lemma_trim_last, opt_view, push_chars, push_range, push_str,
    string_from_chars, string_of, trim, trim_bounds, trim_end, trim_end_to,
};

verus! {

/// The error message when no Informix server can be determined.
pub const MISSING_SERVER_MESSAGE: &'static str =
    "Informix server name (dbservername) is required: type the Host as IP@dbservername, or set 'informixserver' in the plugin settings";

/// Characters that would break the `key=value;` grammar.
pub open spec fn needs_braces(v: Seq<char>) -> bool {
    v.contains(';') || v.contains('{') || v.contains('}') || v.contains('=')
}

/// A value, wrapped in `{...}` when it holds characters that would break
/// the `key=value;` grammar.
pub open spec fn attr_value_spec(v: Seq<char>) -> Seq<char> {
    if needs_braces(v) {
        "{"@ + v + "}"@
    } else {
        v
    }
}

/// `key=value;`, nothing for an empty value.
pub open spec fn attr(key: Seq<char>, value: Seq<char>) -> Seq<char> {
    if value.len() == 0 {
        Seq::empty()
    } else {
        key + "="@ + attr_value_spec(value) + ";"@
    }
}

/// `key={value};`, nothing for an empty value.
pub open spec fn attr_braced(key: Seq<char>, value: Seq<char>) -> Seq<char> {
    if value.len() == 0 {
        Seq::empty()
    } else {
        key + "={"@ + value + "};"@
    }
}

pub open spec fn opt_attr(key: Seq<char>, value: Option<Seq<char>>) -> Seq<char> {
    match value {
        Some(v) => attr(key, v),
        None => Seq::empty(),
    }
}

/// The extra attributes, trimmed, with a `;` added unless they already end
/// with one; nothing when they are empty.
pub open spec fn extra_spec(extra: Seq<char>) -> Seq<char> {
    if extra.len() == 0 {
        Seq::empty()
    } else if trim_end(extra).len() > 0 && trim_end(extra).last() == ';' {
        trim(extra)
    } else {
        trim(extra) + ";"@
    }
}

/// Database named by the connection, `sysmaster` when none is selected.
pub open spec fn database_spec(params: ConnectionParams) -> Seq<char> {
    match split_on_at_spec(opt_view(params.database)).0 {
        Some(d) => d,
        None => "sysmaster"@,
    }
}

/// Server precedence: `dbname@server`, then `host@server`, then the global
/// plugin setting.
pub open spec fn server_spec(params: ConnectionParams, cfg: Config) -> Option<Seq<char>> {
    let from_db = split_on_at_spec(opt_view(params.database)).1;
    let from_host = split_on_at_spec(opt_view(params.host)).1;
    if from_db is Some {
        from_db
    } else if from_host is Some {
        from_host
    } else if cfg.informixserver@.len() > 0 {
        Some(cfg.informixserver@)
    } else {
        None
    }
}

/// Database, credentials and locales.
pub open spec fn session_attrs(params: ConnectionParams, cfg: Config) -> Seq<char> {
    attr("DATABASE"@, database_spec(params)) + opt_attr("UID"@, opt_view(params.username))
        + opt_attr("PWD"@, opt_view(params.password)) + attr("DB_LOCALE"@, cfg.db_locale@)
        + attr("CLIENT_LOCALE"@, cfg.client_locale@)
}

/// Attributes that both shapes end with.
pub open spec fn common_tail(params: ConnectionParams, cfg: Config) -> Seq<char> {
    session_attrs(params, cfg) + attr("DELIMIDENT"@, "Y"@) + extra_spec(cfg.extra@)
}

/// The DSN-less head: driver, host, service (port), server and protocol.
pub open spec fn dsnless_head(params: ConnectionParams, cfg: Config, server: Seq<char>) -> Seq<
    char,
> {
    attr_braced("DRIVER"@, cfg.driver_name@) + opt_attr(
        "HOST"@,
        split_on_at_spec(opt_view(params.host)).0,
    ) + (match params.port {
        Some(p) => attr("SERVICE"@, dec(p as nat)),
        None => Seq::empty(),
    }) + attr("SERVER"@, server) + attr("PROTOCOL"@, cfg.protocol@)
}

/// The connection string, or `None` when the DSN-less shape has no server.
pub open spec fn connection_string_spec(params: ConnectionParams, cfg: Config) -> Option<Seq<char>> {
    if cfg.dsn@.len() > 0 {
        Some(attr("DSN"@, cfg.dsn@) + common_tail(params, cfg))
    } else {
        match server_spec(params, cfg) {
            Some(server) => Some(dsnless_head(params, cfg, server) + common_tail(params, cfg)),
            None => None,
        }
    }
}

/// Wraps a value in `{...}` when it contains characters that would otherwise
/// break the `key=value;` connection-string grammar.
fn attr_value(v: &str) -> (r: Vec<char>)
    ensures
        r@ == attr_value_spec(v@),
{
    let cv = chars_of(v);
    if has_char(&cv, ';') || has_char(&cv, '{') || has_char(&cv, '}') || has_char(&cv, '=') {
        let mut out: Vec<char> = Vec::new();
        push_str(&mut out, "{");
        push_chars(&mut out, &cv);
        push_str(&mut out, "}");
        assert(out@ =~= attr_value_spec(v@));
        out
    } else {
        cv
    }
}

fn push_attr(out: &mut Vec<char>, key: &str, value: &str)
    ensures
        final(out)@ == old(out)@ + attr(key@, value@),
{
    if value.unicode_len() == 0 {
        assert(old(out)@ + attr(key@, value@) =~= old(out)@);
        return;
    }
    let ghost start = out@;
    push_str(out, key);
    push_str(out, "=");
    let v = attr_value(value);
    push_chars(out, &v);
    push_str(out, ";");
    assert(out@ =~= start + attr(key@, value@));
}

/// Like `push_attr` but always brace-wraps the value. The Informix `DRIVER`
/// attribute must be brace-wrapped even though the name contains only spaces.
fn push_attr_braced(out: &mut Vec<char>, key: &str, value: &str)
    ensures
        final(out)@ == old(out)@ + attr_braced(key@, value@),
{
    if value.unicode_len() == 0 {
        assert(old(out)@ + attr_braced(key@, value@) =~= old(out)@);
        return;
    }
    let ghost start = out@;
    push_str(out, key);
    push_str(out, "={");
    push_str(out, value);
    push_str(out, "};");
    assert(out@ =~= start + attr_braced(key@, value@));
}

fn push_opt_attr(out: &mut Vec<char>, key: &str, value: &Option<String>)
    ensures
        final(out)@ == old(out)@ + opt_attr(key@, opt_view(*value)),
{
    match value {
        Some(v) => push_attr(out, key, v.as_str()),
        None => {
            assert(old(out)@ + opt_attr(key@, opt_view(*value)) =~= old(out)@);
        },
    }
}

fn push_extra(out: &mut Vec<char>, extra: &str)
    ensures
        final(out)@ == old(out)@ + extra_spec(extra@),
{
    let ghost start = out@;
    let ev = chars_of(extra);
    if ev.len() == 0 {
        assert(out@ =~= start + extra_spec(extra@));
        return;
    }
    let (a, b) = trim_bounds(&ev);
    push_range(out, &ev, a, b);
    assert(ev@.subrange(0, ev@.len() as int) =~= ev@);
    let j = trim_end_to(&ev, 0, ev.len());
    assert(ev@.subrange(0, j as int).len() == j);
    if !(j > 0 && ev[j - 1] == ';') {
        push_str(out, ";");
    }
    assert(out@ =~= start + extra_spec(extra@));
}

fn push_tail(out: &mut Vec<char>, params: &ConnectionParams, cfg: &Config, database: &str)
    requires
        database@ == database_spec(*params),
    ensures
        final(out)@ == old(out)@ + common_tail(*params, *cfg),
{
    let ghost start = out@;
    push_attr(out, "DATABASE", database);
    push_opt_attr(out, "UID", &params.username);
    push_opt_attr(out, "PWD", &params.password);
    push_attr(out, "DB_LOCALE", cfg.db_locale.as_str());
    push_attr(out, "CLIENT_LOCALE", cfg.client_locale.as_str());
    push_attr(out, "DELIMIDENT", "Y");
    push_extra(out, cfg.extra.as_str());
    assert(out@ =~= start + common_tail(*params, *cfg));
}

/// Builds the full ODBC connection string. Returns an "invalid params" error
/// when the DSN-less shape has no Informix server: none in the database
/// field, none in the host field and none in the plugin settings.
pub fn build_connection_string(params: &ConnectionParams, cfg: &Config) -> (r: Result<
    String,
    PluginError,
>)
    ensures
        match r {
            Ok(s) => connection_string_spec(*params, *cfg) == Some(s@),
            Err(e) => connection_string_spec(*params, *cfg) is None && e.code == INVALID_PARAMS
                && e.message@ == MISSING_SERVER_MESSAGE@,
        },
{
    let (database, server_from_db) = params.database_and_server();
    let (host, server_from_host) = params.host_and_server();
    // When no database is selected yet (e.g. while listing databases in the
    // connection modal), connect to `sysmaster`, which exists on every
    // Informix instance and exposes the server-wide database catalog.
    let database = match database {
        Some(d) => d,
        None => string_of("sysmaster"),
    };

    let mut out: Vec<char> = Vec::new();

    if cfg.dsn.as_str().unicode_len() > 0 {
        push_attr(&mut out, "DSN", cfg.dsn.as_str());
    } else {
        let server = match server_from_db {
            Some(s) => s,
            None => match server_from_host {
                Some(s) => s,
                None => if cfg.informixserver.as_str().unicode_len() > 0 {
                    cfg.informixserver.clone()
                } else {
                    return Err(PluginError::invalid_params(string_of(MISSING_SERVER_MESSAGE)));
                },
            },
        };
        push_attr_braced(&mut out, "DRIVER", cfg.driver_name.as_str());
        push_opt_attr(&mut out, "HOST", &host);
        match params.port {
            Some(port) => {
                let pv = crate::utils::number::u64_chars(port as u64);
                let ps = string_from_chars(&pv);
                push_attr(&mut out, "SERVICE", ps.as_str());
            },
            None => {},
        }
        push_attr(&mut out, "SERVER", server.as_str());
        push_attr(&mut out, "PROTOCOL", cfg.protocol.as_str());
        assert(out@ =~= dsnless_head(*params, *cfg, server@));
    }

    push_tail(&mut out, params, cfg, database.as_str());
    Ok(string_from_chars(&out))
}

// ---------------------------------------------------------------------------
// Laws
// ---------------------------------------------------------------------------

proof fn lemma_contains_middle(a: Seq<char>, m: Seq<char>, b: Seq<char>)
    ensures
        contains_seq(a + m + b, m),
{
    let s = a + m + b;
    let i: int = a.len() as int;
    assert(s.subrange(i, i + m.len()) =~= m);
}

proof fn lemma_delimident_attr()
    ensures
        attr("DELIMIDENT"@, "Y"@) == "DELIMIDENT=Y;"@,
{
    reveal_strlit("Y");
    reveal_strlit("DELIMIDENT=Y;");
    reveal_strlit("DELIMIDENT");
    reveal_strlit("=");
    reveal_strlit(";");
    assert(!needs_braces("Y"@)) by {
        assert("Y"@ =~= seq!['Y']);
    }
    assert(attr("DELIMIDENT"@, "Y"@) =~= "DELIMIDENT=Y;"@);
}

/// `DELIMIDENT=Y;` is part of every connection string built.
pub proof fn law_delimident_always_set(params: ConnectionParams, cfg: Config, s: Seq<char>)
    requires
        connection_string_spec(params, cfg) == Some(s),
    ensures
        contains_seq(s, "DELIMIDENT=Y;"@),
{
    lemma_delimident_attr();
    let head = if cfg.dsn@.len() > 0 {
        attr("DSN"@, cfg.dsn@)
    } else {
        dsnless_head(params, cfg, server_spec(params, cfg).unwrap())
    };
    let a = head + session_attrs(params, cfg);
    let m = attr("DELIMIDENT"@, "Y"@);
    let b = extra_spec(cfg.extra@);
    assert(s == head + common_tail(params, cfg));
    assert(s =~= a + m + b);
    lemma_contains_middle(a, m, b);
}

/// With a DSN configured the string never fails and starts with `DSN=`,
/// whatever the server fields say.
pub proof fn law_dsn_mode_needs_no_server(params: ConnectionParams, cfg: Config)
    requires
        cfg.dsn@.len() > 0,
    ensures
        connection_string_spec(params, cfg) is Some,
        "DSN="@.is_prefix_of(connection_string_spec(params, cfg).unwrap()),
{
    reveal_strlit("DSN=");
    reveal_strlit("DSN");
    reveal_strlit("=");
    let s = connection_string_spec(params, cfg).unwrap();
    assert(s =~= "DSN"@ + "="@ + (attr_value_spec(cfg.dsn@) + ";"@ + common_tail(params, cfg)));
    assert(s.take(4) =~= "DSN="@);
}

/// Without a DSN, a string is built exactly when some server is known, and
/// the server named in the database field wins over the one in the host
/// field, which wins over the plugin setting.
pub proof fn law_server_precedence(params: ConnectionParams, cfg: Config)
    requires
        cfg.dsn@.len() == 0,
    ensures
        (connection_string_spec(params, cfg) is Some) == (split_on_at_spec(
            opt_view(params.database),
        ).1 is Some || split_on_at_spec(opt_view(params.host)).1 is Some
            || cfg.informixserver@.len() > 0),
        split_on_at_spec(opt_view(params.database)).1 matches Some(s) ==> server_spec(params, cfg)
            == Some(s),
        split_on_at_spec(opt_view(params.database)).1 is None ==> (split_on_at_spec(
            opt_view(params.host),
        ).1 matches Some(s) ==> server_spec(params, cfg) == Some(s)),
        split_on_at_spec(opt_view(params.database)).1 is None && split_on_at_spec(
            opt_view(params.host),
        ).1 is None && cfg.informixserver@.len() > 0 ==> server_spec(params, cfg) == Some(
            cfg.informixserver@,
        ),
        split_on_at_spec(opt_view(params.database)).1 is None && split_on_at_spec(
            opt_view(params.host),
        ).1 is None && cfg.informixserver@.len() == 0 ==> server_spec(params, cfg) is None,
{
}

proof fn lemma_sysmaster_attr()
    ensures
        attr("DATABASE"@, "sysmaster"@) == "DATABASE=sysmaster;"@,
{
    reveal_strlit("sysmaster");
    reveal_strlit("DATABASE=sysmaster;");
    reveal_strlit("DATABASE");
    reveal_strlit("=");
    reveal_strlit(";");
    assert(!needs_braces("sysmaster"@)) by {
        assert("sysmaster"@ =~= seq!['s', 'y', 's', 'm', 'a', 's', 't', 'e', 'r']);
    }
    assert(attr("DATABASE"@, "sysmaster"@) =~= "DATABASE=sysmaster;"@);
}

/// When no database is selected, the connection goes to `sysmaster`, which
/// every Informix instance has.
pub proof fn law_sysmaster_when_no_database(params: ConnectionParams, cfg: Config, s: Seq<char>)
    requires
        split_on_at_spec(opt_view(params.database)).0 is None,
        connection_string_spec(params, cfg) == Some(s),
    ensures
        contains_seq(s, "DATABASE=sysmaster;"@),
{
    lemma_sysmaster_attr();
    let head = if cfg.dsn@.len() > 0 {
        attr("DSN"@, cfg.dsn@)
    } else {
        dsnless_head(params, cfg, server_spec(params, cfg).unwrap())
    };
    let m = attr("DATABASE"@, "sysmaster"@);
    let b = opt_attr("UID"@, opt_view(params.username)) + opt_attr("PWD"@, opt_view(params.password))
        + attr("DB_LOCALE"@, cfg.db_locale@) + attr("CLIENT_LOCALE"@, cfg.client_locale@)
        + attr("DELIMIDENT"@, "Y"@) + extra_spec(cfg.extra@);
    assert(s == head + common_tail(params, cfg));
    assert(s =~= head + m + b);
    lemma_contains_middle(head, m, b);
}

/// How one attribute is written: nothing for an empty value; otherwise
/// `KEY={value};` when the value holds one of `;`, `{`, `}`, `=`, and
/// `KEY=value;` when it holds none. The driver name is always braced.
pub proof fn law_attr_bracing(key: Seq<char>, value: Seq<char>)
    ensures
        value.len() == 0 ==> attr(key, value) == Seq::<char>::empty(),
        value.len() > 0 && needs_braces(value) ==> attr(key, value) == key + "={"@ + value + "};"@,
        value.len() > 0 && !needs_braces(value) ==> attr(key, value) == key + "="@ + value + ";"@,
        value.len() > 0 ==> attr_braced(key, value) == key + "={"@ + value + "};"@,
        value.contains(';') || value.contains('{') || value.contains('}') || value.contains('=')
            ==> attr(key, value) == key + "={"@ + value + "};"@,
        value.len() > 0 && !value.contains(';') && !value.contains('{') && !value.contains('}')
            && !value.contains('=') ==> attr(key, value) == key + "="@ + value + ";"@,
{
    reveal_strlit("={");
    reveal_strlit("};");
    reveal_strlit("=");
    reveal_strlit(";");
    reveal_strlit("{");
    reveal_strlit("}");
    if value.len() > 0 && needs_braces(value) {
        assert(attr(key, value) =~= key + "={"@ + value + "};"@);
    }
}

/// The extra attributes are appended trimmed and always end with `;`.
proof fn lemma_extra_ends_with_semicolon(extra: Seq<char>)
    ensures
        extra.len() > 0 ==> extra_spec(extra).len() > 0 && extra_spec(extra).last() == ';',
        extra.len() == 0 ==> extra_spec(extra) == Seq::<char>::empty(),
{
    reveal_strlit(";");
    if extra.len() > 0 && trim_end(extra).len() > 0 && trim_end(extra).last() == ';' {
        lemma_trim_last(extra);
    }
}

/// Every connection string built has this shape: it starts with `DSN=...;`
/// when a DSN is set and with the driver, host, service, server and
/// protocol attributes otherwise; then come database, credentials and
/// locales; then `DELIMIDENT=Y;`; and it ends with the trimmed extra
/// attributes. It always ends with `;`.
pub proof fn law_connection_string_shape(params: ConnectionParams, cfg: Config, s: Seq<char>)
    requires
        connection_string_spec(params, cfg) == Some(s),
    ensures
        cfg.dsn@.len() > 0 ==> attr("DSN"@, cfg.dsn@).is_prefix_of(s),
        cfg.dsn@.len() == 0 ==> server_spec(params, cfg) is Some && dsnless_head(
            params,
            cfg,
            server_spec(params, cfg).unwrap(),
        ).is_prefix_of(s),
        contains_seq(s, session_attrs(params, cfg)),
        s.len() >= ("DELIMIDENT=Y;"@ + extra_spec(cfg.extra@)).len(),
        s.skip(s.len() - ("DELIMIDENT=Y;"@ + extra_spec(cfg.extra@)).len()) == "DELIMIDENT=Y;"@
            + extra_spec(cfg.extra@),
        s.len() > 0 && s.last() == ';',
{
    lemma_delimident_attr();
    lemma_extra_ends_with_semicolon(cfg.extra@);
    reveal_strlit("DELIMIDENT=Y;");
    let head = if cfg.dsn@.len() > 0 {
        attr("DSN"@, cfg.dsn@)
    } else {
        dsnless_head(params, cfg, server_spec(params, cfg).unwrap())
    };
    let mid = session_attrs(params, cfg);
    let tail = "DELIMIDENT=Y;"@ + extra_spec(cfg.extra@);
    assert(s == head + common_tail(params, cfg));
    assert(s =~= head + mid + tail);
    assert(s.take(head.len() as int) =~= head);
    assert(s.subrange(head.len() as int, (head.len() + mid.len()) as int) =~= mid);
    assert(s.skip(s.len() - tail.len()) =~= tail);
    assert(s.last() == tail.last());
}

/// How a non-empty value is written under `key`: `KEY={v};` when it holds
/// one of `;`, `{`, `}`, `=`, and `KEY=v;` otherwise.
pub open spec fn rendered(key: Seq<char>, v: Seq<char>) -> Seq<char> {
    if needs_braces(v) {
        key + "={"@ + v + "};"@
    } else {
        key + "="@ + v + ";"@
    }
}

/// `s` writes `v` under `key` (nothing is written for an empty value).
pub open spec fn writes(s: Seq<char>, key: Seq<char>, v: Seq<char>) -> bool {
    v.len() > 0 ==> contains_seq(s, rendered(key, v))
}

pub open spec fn writes_opt(s: Seq<char>, key: Seq<char>, v: Option<Seq<char>>) -> bool {
    v matches Some(x) ==> writes(s, key, x)
}

proof fn lemma_contains_trans(x: Seq<char>, y: Seq<char>, z: Seq<char>)
    requires
        contains_seq(x, y),
        contains_seq(y, z),
    ensures
        contains_seq(x, z),
{
    let i = choose|i: int| 0 <= i && i + y.len() <= x.len() && #[trigger] x.subrange(i, i + y.len()) == y;
    let j = choose|j: int| 0 <= j && j + z.len() <= y.len() && #[trigger] y.subrange(j, j + z.len()) == z;
    assert(x.subrange(i + j, i + j + z.len()) =~= y.subrange(j, j + z.len()));
}

/// `attr(key, v)` is in `s` whenever it is the middle of `whole` and
/// `whole` is in `s`; it then writes `v` under `key`.
proof fn lemma_written(s: Seq<char>, whole: Seq<char>, a: Seq<char>, key: Seq<char>, v: Seq<char>, b: Seq<char>)
    requires
        contains_seq(s, whole),
        whole == a + attr(key, v) + b,
    ensures
        writes(s, key, v),
{
    law_attr_bracing(key, v);
    lemma_contains_middle(a, attr(key, v), b);
    lemma_contains_trans(s, whole, attr(key, v));
}

proof fn lemma_session_written(s: Seq<char>, params: ConnectionParams, cfg: Config)
    requires
        contains_seq(s, session_attrs(params, cfg)),
    ensures
        writes(s, "DATABASE"@, database_spec(params)),
        writes_opt(s, "UID"@, opt_view(params.username)),
        writes_opt(s, "PWD"@, opt_view(params.password)),
        writes(s, "DB_LOCALE"@, cfg.db_locale@),
        writes(s, "CLIENT_LOCALE"@, cfg.client_locale@),
{
    let e = Seq::<char>::empty();
    let session = session_attrs(params, cfg);
    let a1 = attr("DATABASE"@, database_spec(params));
    let a2 = opt_attr("UID"@, opt_view(params.username));
    let a3 = opt_attr("PWD"@, opt_view(params.password));
    let a4 = attr("DB_LOCALE"@, cfg.db_locale@);
    let a5 = attr("CLIENT_LOCALE"@, cfg.client_locale@);
    assert(session =~= e + a1 + (a2 + a3 + a4 + a5));
    lemma_written(s, session, e, "DATABASE"@, database_spec(params), a2 + a3 + a4 + a5);
    if let Some(u) = opt_view(params.username) {
        assert(session =~= a1 + attr("UID"@, u) + (a3 + a4 + a5));
        lemma_written(s, session, a1, "UID"@, u, a3 + a4 + a5);
    }
    if let Some(pw) = opt_view(params.password) {
        assert(session =~= (a1 + a2) + attr("PWD"@, pw) + (a4 + a5));
        lemma_written(s, session, a1 + a2, "PWD"@, pw, a4 + a5);
    }
    assert(session =~= (a1 + a2 + a3) + a4 + a5);
    lemma_written(s, session, a1 + a2 + a3, "DB_LOCALE"@, cfg.db_locale@, a5);
    assert(session =~= (a1 + a2 + a3 + a4) + a5 + e);
    lemma_written(s, session, a1 + a2 + a3 + a4, "CLIENT_LOCALE"@, cfg.client_locale@, e);
}

proof fn lemma_head_written(s: Seq<char>, params: ConnectionParams, cfg: Config, server: Seq<char>)
    requires
        contains_seq(s, dsnless_head(params, cfg, server)),
    ensures
        cfg.driver_name@.len() > 0 ==> contains_seq(s, "DRIVER={"@ + cfg.driver_name@ + "};"@),
        writes_opt(s, "HOST"@, split_on_at_spec(opt_view(params.host)).0),
        params.port matches Some(p) ==> writes(s, "SERVICE"@, dec(p as nat)),
        writes(s, "SERVER"@, server),
        writes(s, "PROTOCOL"@, cfg.protocol@),
{
    let e = Seq::<char>::empty();
    let head = dsnless_head(params, cfg, server);
    let h1 = attr_braced("DRIVER"@, cfg.driver_name@);
    let h2 = opt_attr("HOST"@, split_on_at_spec(opt_view(params.host)).0);
    let h3 = match params.port {
        Some(p) => attr("SERVICE"@, dec(p as nat)),
        None => Seq::empty(),
    };
    let h4 = attr("SERVER"@, server);
    let h5 = attr("PROTOCOL"@, cfg.protocol@);
    if cfg.driver_name@.len() > 0 {
        reveal_strlit("DRIVER={");
        reveal_strlit("DRIVER");
        reveal_strlit("={");
        law_attr_bracing("DRIVER"@, cfg.driver_name@);
        assert("DRIVER"@ + "={"@ =~= "DRIVER={"@);
        assert(h1 =~= "DRIVER={"@ + cfg.driver_name@ + "};"@);
        assert(head =~= e + h1 + (h2 + h3 + h4 + h5));
        lemma_contains_middle(e, h1, h2 + h3 + h4 + h5);
        lemma_contains_trans(s, head, h1);
    }
    if let Some(h) = split_on_at_spec(opt_view(params.host)).0 {
        assert(head =~= h1 + attr("HOST"@, h) + (h3 + h4 + h5));
        lemma_written(s, head, h1, "HOST"@, h, h3 + h4 + h5);
    }
    if let Some(p) = params.port {
        assert(head =~= (h1 + h2) + attr("SERVICE"@, dec(p as nat)) + (h4 + h5));
        lemma_written(s, head, h1 + h2, "SERVICE"@, dec(p as nat), h4 + h5);
    }
    assert(head =~= (h1 + h2 + h3) + h4 + h5);
    lemma_written(s, head, h1 + h2 + h3, "SERVER"@, server, h5);
    assert(head =~= (h1 + h2 + h3 + h4) + h5 + e);
    lemma_written(s, head, h1 + h2 + h3 + h4, "PROTOCOL"@, cfg.protocol@, e);
}

/// How every value is written in a connection string: the database, the
/// credentials, the locales and, without a DSN, host, service, server and
/// protocol each as `KEY={v};` when the value holds one of `;`, `{`, `}`,
/// `=` and as `KEY=v;` otherwise; a DSN likewise; the driver name always as
/// `DRIVER={name};`; then `DELIMIDENT=Y;` and the trimmed extra attributes,
/// the string always ending with `;`.
pub proof fn law_connection_string_values(params: ConnectionParams, cfg: Config, s: Seq<char>)
    requires
        connection_string_spec(params, cfg) == Some(s),
    ensures
        writes(s, "DATABASE"@, database_spec(params)),
        writes_opt(s, "UID"@, opt_view(params.username)),
        writes_opt(s, "PWD"@, opt_view(params.password)),
        writes(s, "DB_LOCALE"@, cfg.db_locale@),
        writes(s, "CLIENT_LOCALE"@, cfg.client_locale@),
        cfg.dsn@.len() > 0 ==> writes(s, "DSN"@, cfg.dsn@),
        cfg.dsn@.len() == 0 ==> server_spec(params, cfg) is Some,
        cfg.dsn@.len() == 0 && cfg.driver_name@.len() > 0 ==> contains_seq(
            s,
            "DRIVER={"@ + cfg.driver_name@ + "};"@,
        ),
        cfg.dsn@.len() == 0 ==> writes_opt(s, "HOST"@, split_on_at_spec(opt_view(params.host)).0),
        cfg.dsn@.len() == 0 ==> (params.port matches Some(p) ==> writes(s, "SERVICE"@, dec(p as nat))),
        cfg.dsn@.len() == 0 ==> writes(s, "SERVER"@, server_spec(params, cfg).unwrap()),
        cfg.dsn@.len() == 0 ==> writes(s, "PROTOCOL"@, cfg.protocol@),
        s.len() >= ("DELIMIDENT=Y;"@ + extra_spec(cfg.extra@)).len(),
        s.skip(s.len() - ("DELIMIDENT=Y;"@ + extra_spec(cfg.extra@)).len()) == "DELIMIDENT=Y;"@
            + extra_spec(cfg.extra@),
        s.len() > 0 && s.last() == ';',
{
    law_connection_string_shape(params, cfg, s);
    let e = Seq::<char>::empty();
    let head = if cfg.dsn@.len() > 0 {
        attr("DSN"@, cfg.dsn@)
    } else {
        dsnless_head(params, cfg, server_spec(params, cfg).unwrap())
    };
    let session = session_attrs(params, cfg);
    let rest = attr("DELIMIDENT"@, "Y"@) + extra_spec(cfg.extra@);
    assert(s == head + common_tail(params, cfg));
    assert(s =~= e + head + (session + rest));
    lemma_contains_middle(e, head, session + rest);
    lemma_session_written(s, params, cfg);
    if cfg.dsn@.len() > 0 {
        assert(head =~= e + attr("DSN"@, cfg.dsn@) + e);
        lemma_written(s, head, e, "DSN"@, cfg.dsn@, e);
    } else {
        lemma_head_written(s, params, cfg, server_spec(params, cfg).unwrap());
    }
}

} // verus!
