use tabularis_informix_plugin::config::Config;
use tabularis_informix_plugin::models::ConnectionParams;
use tabularis_informix_plugin::utils::connstr::build_connection_string;

fn params(db: &str) -> ConnectionParams {
    ConnectionParams {
        host: Some("dbhost".to_string()),
        port: Some(9088),
        database: Some(db.to_string()),
        username: Some("informix".to_string()),
        password: Some("secret".to_string()),
        ssl_mode: None,
    }
}

#[test]
fn dsnless_with_server_from_settings() {
    let mut cfg = Config::default();
    cfg.informixserver = "ol_ids".to_string();
    let s = build_connection_string(&params("stores"), &cfg).unwrap();
    assert!(s.contains("DRIVER={IBM INFORMIX ODBC DRIVER};"), "got: {s}");
    assert!(s.contains("HOST=dbhost;"));
    assert!(s.contains("SERVICE=9088;"));
    assert!(s.contains("SERVER=ol_ids;"));
    assert!(s.contains("PROTOCOL=onsoctcp;"));
    assert!(s.contains("DATABASE=stores;"));
    assert!(s.contains("UID=informix;"));
    assert!(s.contains("PWD=secret;"));
    assert!(s.contains("DELIMIDENT=Y;"));
}

#[test]
fn server_from_database_field_overrides_settings() {
    let mut cfg = Config::default();
    cfg.informixserver = "ignored".to_string();
    let s = build_connection_string(&params("stores@ol_real"), &cfg).unwrap();
    assert!(s.contains("SERVER=ol_real;"), "got: {s}");
    assert!(s.contains("DATABASE=stores;"), "got: {s}");
}

#[test]
fn server_from_host_field() {
    let cfg = Config::default(); // no global informixserver
    let mut p = params("stores");
    p.host = Some("192.0.2.10@ol_ids".to_string());
    let s = build_connection_string(&p, &cfg).unwrap();
    assert!(s.contains("HOST=192.0.2.10;"), "got: {s}");
    assert!(s.contains("SERVER=ol_ids;"), "got: {s}");
}

#[test]
fn dsn_mode_skips_driver_and_server() {
    let mut cfg = Config::default();
    cfg.dsn = "MyInformixDSN".to_string();
    let s = build_connection_string(&params("stores"), &cfg).unwrap();
    assert!(s.contains("DSN=MyInformixDSN;"), "got: {s}");
    assert!(!s.contains("DRIVER="), "got: {s}");
    assert!(s.contains("DATABASE=stores;"));
    assert!(s.contains("DELIMIDENT=Y;"));
}

#[test]
fn missing_server_is_an_error() {
    let cfg = Config::default(); // no informixserver, no dsn
    let err = build_connection_string(&params("stores"), &cfg).unwrap_err();
    assert_eq!(err.code, -32602);
}

#[test]
fn missing_database_defaults_to_sysmaster() {
    let mut cfg = Config::default();
    cfg.informixserver = "ol_ids".to_string();
    let mut p = params("stores");
    p.database = None;
    let s = build_connection_string(&p, &cfg).unwrap();
    assert!(s.contains("DATABASE=sysmaster;"), "got: {s}");
}

#[test]
fn full_dsnless_string_in_order() {
    let mut cfg = Config::default();
    cfg.informixserver = "ol_ids".to_string();
    cfg.db_locale = "en_US.819".to_string();
    cfg.extra = "  OPTOFC=1 ".to_string();
    let s = build_connection_string(&params("stores"), &cfg).unwrap();
    assert_eq!(
        s,
        "DRIVER={IBM INFORMIX ODBC DRIVER};HOST=dbhost;SERVICE=9088;SERVER=ol_ids;PROTOCOL=onsoctcp;\
         DATABASE=stores;UID=informix;PWD=secret;DB_LOCALE=en_US.819;DELIMIDENT=Y;OPTOFC=1;"
    );
}

#[test]
fn values_with_grammar_characters_are_braced() {
    let mut cfg = Config::default();
    cfg.dsn = "d".to_string();
    cfg.extra = "A=1;".to_string();
    let mut p = params("stores");
    p.password = Some("p;w=d".to_string());
    let s = build_connection_string(&p, &cfg).unwrap();
    assert_eq!(
        s,
        "DSN=d;DATABASE=stores;UID=informix;PWD={p;w=d};DELIMIDENT=Y;A=1;"
    );
}

#[test]
fn missing_server_message() {
    let cfg = Config::default();
    let err = build_connection_string(&params("stores"), &cfg).unwrap_err();
    assert_eq!(
        err.message,
        "Informix server name (dbservername) is required: type the Host as IP@dbservername, or set 'informixserver' in the plugin settings"
    );
}

#[test]
fn database_server_wins_over_host_server() {
    let cfg = Config::default();
    let mut p = params(" stores @ ol_db ");
    p.host = Some("10.0.0.1@ol_host".to_string());
    p.port = None;
    let s = build_connection_string(&p, &cfg).unwrap();
    assert!(s.contains("SERVER=ol_db;"), "got: {s}");
    assert!(s.contains("DATABASE=stores;"), "got: {s}");
    assert!(!s.contains("SERVICE="), "got: {s}");
}

#[test]
fn string_shape_and_extra_attributes() {
    let mut cfg = Config::default();
    cfg.informixserver = "ol".to_string();
    cfg.extra = "  OPTOFC=1  ".to_string();
    let s = build_connection_string(&params("db"), &cfg).unwrap();
    assert!(s.ends_with("DELIMIDENT=Y;OPTOFC=1;"), "got: {s}");
    cfg.extra = " A=1;B=2; ".to_string();
    let s = build_connection_string(&params("db"), &cfg).unwrap();
    assert!(s.ends_with("DELIMIDENT=Y;A=1;B=2;"), "got: {s}");
    cfg.extra = "   ".to_string();
    let s = build_connection_string(&params("db"), &cfg).unwrap();
    assert!(s.ends_with("DELIMIDENT=Y;;"), "got: {s}");
    cfg.extra = String::new();
    let mut p = params("db");
    p.password = Some("a;b".to_string());
    let s = build_connection_string(&p, &cfg).unwrap();
    assert!(s.contains("PWD={a;b};"), "got: {s}");
    assert!(s.ends_with("DELIMIDENT=Y;"));
}
