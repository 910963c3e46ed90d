use tabularis_informix_plugin::utils::types::{decode_default, decode_type, DecodedType};

fn t(coltype: i64, collength: i64) -> DecodedType {
    decode_type(coltype, collength, None)
}

#[test]
fn plain_integer() {
    let d = t(2, 4);
    assert_eq!(d.sql_type, "INTEGER");
    assert!(!d.is_not_null);
    assert!(!d.is_auto_increment);
}

#[test]
fn not_null_flag_detected() {
    let d = t(2 + 0x100, 4);
    assert_eq!(d.sql_type, "INTEGER");
    assert!(d.is_not_null);
}

#[test]
fn serial_is_auto_increment() {
    let d = t(6 + 0x100, 4);
    assert_eq!(d.sql_type, "SERIAL");
    assert!(d.is_auto_increment);
}

#[test]
fn bigserial_is_auto_increment() {
    assert!(t(53, 8).is_auto_increment);
}

#[test]
fn char_and_varchar_lengths() {
    let c = t(0, 20);
    assert_eq!(c.sql_type, "CHAR(20)");
    assert_eq!(c.char_max_len, Some(20));

    let v = t(13, 40);
    assert_eq!(v.sql_type, "VARCHAR(40)");
    assert_eq!(v.char_max_len, Some(40));

    // VARCHAR(20,5): collength = 5*256 + 20 = 1300
    let v2 = t(13, 1300);
    assert_eq!(v2.sql_type, "VARCHAR(20)");
}

#[test]
fn decimal_precision_scale() {
    // DECIMAL(10,2): collength = 10*256 + 2 = 2562
    assert_eq!(t(5, 2562).sql_type, "DECIMAL(10,2)");
    // MONEY(16,2): collength = 16*256 + 2 = 4098
    assert_eq!(t(8, 4098).sql_type, "MONEY(16,2)");
    // Floating DECIMAL(10): scale 255
    assert_eq!(t(5, 10 * 256 + 255).sql_type, "DECIMAL(10)");
}

#[test]
fn datetime_qualifier() {
    // YEAR TO SECOND: start=0, end=10 -> q = 0*16+10 = 10
    assert_eq!(t(10, 10).sql_type, "DATETIME YEAR TO SECOND");
    // HOUR TO MINUTE: start=6, end=8 -> q = 6*16+8 = 104
    assert_eq!(t(10, 104).sql_type, "DATETIME HOUR TO MINUTE");
}

#[test]
fn bigint_and_boolean() {
    assert_eq!(t(52, 8).sql_type, "BIGINT");
    assert_eq!(t(45, 1).sql_type, "BOOLEAN");
}

#[test]
fn opaque_uses_extended_name() {
    let d = decode_type(41, 0, Some("boolean"));
    assert_eq!(d.sql_type, "BOOLEAN");
    let blob = decode_type(41, 0, Some("blob"));
    assert_eq!(blob.sql_type, "BLOB");
}

#[test]
fn default_keywords_and_literals() {
    assert_eq!(decode_default("T", ""), Some("TODAY".to_string()));
    assert_eq!(decode_default("C", ""), Some("CURRENT".to_string()));
    assert_eq!(decode_default("U", ""), Some("USER".to_string()));
    assert_eq!(decode_default("N", ""), None);
    // Numeric literal: class prefix stripped.
    assert_eq!(decode_default("L", "0 100"), Some("100".to_string()));
    // Plain literal kept as-is.
    assert_eq!(decode_default("L", "pending"), Some("pending".to_string()));
    assert_eq!(decode_default("L", ""), None);
}

#[test]
fn datetime_single_unit_and_fraction() {
    // DAY TO DAY: start=4, end=4 -> q = 68
    assert_eq!(t(10, 68).sql_type, "DATETIME DAY");
    // FRACTION(3) and FRACTION(5) share the keyword.
    assert_eq!(t(10, 11 * 16 + 13).sql_type, "DATETIME FRACTION");
    // Odd unit codes have no keyword.
    assert_eq!(t(10, 16 + 10).sql_type, "DATETIME");
    // A negative collength truncates towards zero.
    assert_eq!(t(10, -256).sql_type, "DATETIME YEAR");
    assert_eq!(t(10, -5).sql_type, "DATETIME");
}

#[test]
fn char_and_decimal_edge_lengths() {
    let c = t(0, 0);
    assert_eq!(c.sql_type, "CHAR");
    assert_eq!(c.char_max_len, None);
    assert_eq!(t(15, -3).sql_type, "NCHAR");
    assert_eq!(t(16, -1).sql_type, "NVARCHAR");
    assert_eq!(t(5, 255).sql_type, "DECIMAL");
    assert_eq!(t(5, 10 * 256).sql_type, "DECIMAL(10)");
    assert_eq!(t(8, -2562).sql_type, "MONEY");
}

#[test]
fn lvarchar_and_unknown() {
    let l = t(40, 2048);
    assert_eq!(l.sql_type, "LVARCHAR(2048)");
    assert_eq!(l.char_max_len, Some(2048));
    assert_eq!(t(43, 0).sql_type, "LVARCHAR");
    let clob = decode_type(40, 2048, Some("  clob "));
    assert_eq!(clob.sql_type, "CLOB");
    assert_eq!(clob.char_max_len, None);
    assert_eq!(t(99, 0).sql_type, "UNKNOWN(99)");
    assert_eq!(decode_type(99, 0, Some("mytype")).sql_type, "MYTYPE");
    assert_eq!(decode_type(19, 0, Some("   ")).sql_type, "SET");
    // Flags above the low byte do not change the base type.
    assert_eq!(t(0x1000 + 2, 4).sql_type, "INTEGER");
}

#[test]
fn extended_name_is_unicode_uppercased() {
    assert_eq!(decode_type(41, 0, Some("straße")).sql_type, "STRASSE");
}

#[test]
fn default_edge_cases() {
    assert_eq!(decode_default(" S ", ""), Some("DBSERVERNAME".to_string()));
    assert_eq!(decode_default("X", "1"), None);
    assert_eq!(decode_default("L", "  -7   42  "), Some("42".to_string()));
    assert_eq!(decode_default("L", "abc def"), Some("abc def".to_string()));
    assert_eq!(decode_default("L", "5 "), Some("5".to_string()));
    assert_eq!(decode_default("L", "99999999999999999999 1"), Some("99999999999999999999 1".to_string()));
}
