//! Plugin-wide settings, set once by the host's `initialize` request.
//!
//! They hold the values of the plugin's `settings` list. They apply to the
//! whole plugin process, so per-connection values such as the Informix
//! server name come from the connection form (see
//! `ConnectionParams::database_and_server`).

use vstd::prelude::*;

use crate::json::JsonValue;
use crate::utils::text::string_of;

verus! {

#[derive(Debug, Clone)]
pub struct Config {
    /// ODBC driver name registered on the machine.
    pub driver_name: String,
    /// Default Informix server (INFORMIXSERVER / dbservername) when the
    /// connection's database field does not use the `dbname@server` form.
    pub informixserver: String,
    /// Network protocol: usually `onsoctcp` (or `onsocssl` for TLS).
    pub protocol: String,
    /// Optional ODBC DSN name. When set, the connection string uses `DSN=`
    /// instead of building a DSN-less string from host/server/protocol.
    pub dsn: String,
    /// Optional DB_LOCALE (e.g. `en_US.819`).
    pub db_locale: String,
    /// Optional CLIENT_LOCALE (e.g. `en_US.819`).
    pub client_locale: String,
    /// Free-form extra connection-string attributes, appended verbatim.
    pub extra: String,
}

/// The settings a fresh plugin process starts with.
pub open spec fn is_default_config(c: Config) -> bool {
    &&& c.driver_name@ == "IBM INFORMIX ODBC DRIVER"@
    &&& c.informixserver@.len() == 0
    &&& c.protocol@ == "onsoctcp"@
    &&& c.dsn@.len() == 0
    &&& c.db_locale@.len() == 0
    &&& c.client_locale@.len() == 0
    &&& c.extra@.len() == 0
}

/// A string setting of the `settings` object, when present.
pub open spec fn setting(settings: JsonValue, key: Seq<char>) -> Option<Seq<char>> {
    match settings.spec_get(key) {
        Some(v) => v.spec_as_str(),
        None => None,
    }
}

/// `value` if the setting is present (and, when `nonempty_only`, not empty),
/// otherwise the default.
pub open spec fn setting_or(
    settings: JsonValue,
    key: Seq<char>,
    nonempty_only: bool,
    default: Seq<char>,
) -> Seq<char> {
    match setting(settings, key) {
        Some(v) => if nonempty_only && v.len() == 0 {
            default
        } else {
            v
        },
        None => default,
    }
}

/// `c` is what `from_settings` builds from `settings`.
pub open spec fn config_from(c: Config, settings: JsonValue) -> bool {
    &&& c.driver_name@ == setting_or(settings, "driver_name"@, true, "IBM INFORMIX ODBC DRIVER"@)
    &&& c.informixserver@ == setting_or(settings, "informixserver"@, false, Seq::empty())
    &&& c.protocol@ == setting_or(settings, "protocol"@, true, "onsoctcp"@)
    &&& c.dsn@ == setting_or(settings, "dsn"@, false, Seq::empty())
    &&& c.db_locale@ == setting_or(settings, "db_locale"@, false, Seq::empty())
    &&& c.client_locale@ == setting_or(settings, "client_locale"@, false, Seq::empty())
    &&& c.extra@ == setting_or(settings, "extra"@, false, Seq::empty())
}

impl Default for Config {
    fn default() -> (c: Self)
        ensures
            is_default_config(c),
    {
        Config {
            driver_name: string_of("IBM INFORMIX ODBC DRIVER"),
            informixserver: String::new(),
            protocol: string_of("onsoctcp"),
            dsn: String::new(),
            db_locale: String::new(),
            client_locale: String::new(),
            extra: String::new(),
        }
    }
}

fn get_setting(settings: &JsonValue, key: &str) -> (r: Option<String>)
    ensures
        match r {
            Some(s) => setting(*settings, key@) == Some(s@),
            None => setting(*settings, key@) is None,
        },
{
    match settings.get(key) {
        Some(v) => match v.as_str() {
            Some(s) => Some(string_of(s)),
            None => None,
        },
        None => None,
    }
}

impl Config {
    /// Builds a `Config` from the `settings` object of an `initialize` call,
    /// falling back to defaults for missing keys (and, for the driver name
    /// and protocol, for empty values).
    pub fn from_settings(settings: &JsonValue) -> (c: Self)
        ensures
            config_from(c, *settings),
    {
        let mut cfg = Config::default();
        assert(is_default_config(cfg));
        if let Some(v) = get_setting(settings, "driver_name") {
            if v.as_str().unicode_len() > 0 {
                cfg.driver_name = v;
            }
        }
        if let Some(v) = get_setting(settings, "informixserver") {
            cfg.informixserver = v;
        }
        if let Some(v) = get_setting(settings, "protocol") {
            if v.as_str().unicode_len() > 0 {
                cfg.protocol = v;
            }
        }
        if let Some(v) = get_setting(settings, "dsn") {
            cfg.dsn = v;
        }
        if let Some(v) = get_setting(settings, "db_locale") {
            cfg.db_locale = v;
        }
        if let Some(v) = get_setting(settings, "client_locale") {
            cfg.client_locale = v;
        }
        if let Some(v) = get_setting(settings, "extra") {
            cfg.extra = v;
        }
        assert(cfg.driver_name@ == setting_or(*settings, "driver_name"@, true, "IBM INFORMIX ODBC DRIVER"@));
        assert(cfg.informixserver@ == setting_or(*settings, "informixserver"@, false, Seq::empty()));
        assert(cfg.extra@ == setting_or(*settings, "extra"@, false, Seq::empty()));
        assert(cfg.protocol@ == setting_or(*settings, "protocol"@, true, "onsoctcp"@));
        assert(cfg.dsn@ == setting_or(*settings, "dsn"@, false, Seq::empty()));
        assert(cfg.db_locale@ == setting_or(*settings, "db_locale"@, false, Seq::empty()));
        assert(cfg.client_locale@ == setting_or(*settings, "client_locale"@, false, Seq::empty()));
        cfg
    }
}

/// The string given for `key` in the settings, if one is.
pub open spec fn given(settings: JsonValue, key: Seq<char>) -> Option<Seq<char>> {
    match settings.spec_get(key) {
        Some(JsonValue::String(x)) => Some(x@),
        _ => None,
    }
}

/// How settings are read: the driver name and the protocol are the strings
/// given when they are not empty, and otherwise `IBM INFORMIX ODBC DRIVER`
/// and `onsoctcp`; the server, DSN, locales and extra attributes are the
/// strings given (empty ones included), and empty when none is given.
pub proof fn law_settings(c: Config, settings: JsonValue)
    requires
        config_from(c, settings),
    ensures
        c.driver_name@ == (if given(settings, "driver_name"@) is Some && given(
            settings,
            "driver_name"@,
        )->0.len() > 0 {
            given(settings, "driver_name"@)->0
        } else {
            "IBM INFORMIX ODBC DRIVER"@
        }),
        c.protocol@ == (if given(settings, "protocol"@) is Some && given(settings, "protocol"@)->0.len()
            > 0 {
            given(settings, "protocol"@)->0
        } else {
            "onsoctcp"@
        }),
        c.informixserver@ == (match given(settings, "informixserver"@) {
            Some(x) => x,
            None => Seq::empty(),
        }),
        c.dsn@ == (match given(settings, "dsn"@) {
            Some(x) => x,
            None => Seq::empty(),
        }),
        c.db_locale@ == (match given(settings, "db_locale"@) {
            Some(x) => x,
            None => Seq::empty(),
        }),
        c.client_locale@ == (match given(settings, "client_locale"@) {
            Some(x) => x,
            None => Seq::empty(),
        }),
        c.extra@ == (match given(settings, "extra"@) {
            Some(x) => x,
            None => Seq::empty(),
        }),
{
}

} // verus!
