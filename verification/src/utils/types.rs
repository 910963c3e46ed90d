//! Decoding of Informix `syscolumns.coltype` / `collength` into SQL type names.
//!
//! Informix packs three things into `coltype`:
//!   * the base type code in the low byte (`coltype & 0xFF`, values 0..=53),
//!   * the NOT NULL flag in bit 8 (`coltype & 0x100`),
//!   * other internal flags above that, which are ignored.
//!
//! `collength` is type-dependent: a byte length for CHAR/NCHAR, an encoded
//! `(min, max)` pair for VARCHAR/NVARCHAR, a `(precision, scale)` pair for
//! DECIMAL/MONEY, and an encoded qualifier for DATETIME/INTERVAL.

use vstd::prelude::*;

use crate::utils::number::{dec, int_dec, parse_i64, parse_i64_spec, push_i64, push_u64};
use crate::utils::text::{
    chars_of, find_char, first_index_of, lemma_first_index_unique, push_chars, push_range, push_str, str_eq,
    opt_view, string_from_chars, string_of, to_uppercase, trim, trim_bounds, trim_str, unicode_upper,
};

verus! {

pub const NOT_NULL_BIT: i64 = 0x100;

/// Remainder of Rust's truncating integer division.
pub open spec fn trem(a: int, b: int) -> int {
    if a >= 0 {
        a % b
    } else {
        -((-a) % b)
    }
}

/// Quotient of Rust's truncating integer division.
pub open spec fn tdiv(a: int, b: int) -> int {
    if a >= 0 {
        a / b
    } else {
        -((-a) / b)
    }
}

#[derive(Debug, Clone, PartialEq, Eq)]
pub struct DecodedType {
    /// SQL type as it would appear in DDL, e.g. `VARCHAR(40)`, `DECIMAL(10,2)`.
    pub sql_type: String,
    /// Maximum character length for character types, if applicable.
    pub char_max_len: Option<u64>,
    pub is_not_null: bool,
    pub is_auto_increment: bool,
}

/// `name(n)`.
pub open spec fn with_len(name: Seq<char>, n: int) -> Seq<char> {
    name + "("@ + int_dec(n) + ")"@
}

pub open spec fn char_type_spec(name: Seq<char>, collength: i64) -> (Seq<char>, Option<u64>) {
    let len: int = if collength < 0 {
        0
    } else {
        collength as int
    };
    if len == 0 {
        (name, None)
    } else {
        (with_len(name, len), Some(len as u64))
    }
}

pub open spec fn varchar_type_spec(name: Seq<char>, collength: i64) -> (Seq<char>, Option<u64>) {
    // collength = min * 256 + max ; max is the declared size.
    let m = trem(collength as int, 256);
    let max: int = if m < 0 {
        0
    } else {
        m
    };
    if max == 0 {
        (name, None)
    } else {
        (with_len(name, max), Some(max as u64))
    }
}

pub open spec fn decimal_type_spec(name: Seq<char>, collength: i64) -> Seq<char> {
    let precision = tdiv(collength as int, 256);
    let scale = trem(collength as int, 256);
    if precision <= 0 {
        name
    } else if scale == 255 || scale == 0 {
        // scale 255 marks a floating-point DECIMAL (no fixed scale).
        with_len(name, precision)
    } else {
        name + "("@ + int_dec(precision) + ","@ + int_dec(scale) + ")"@
    }
}

/// Keyword of an Informix time-unit code.
pub open spec fn tu_name_spec(code: int) -> Option<Seq<char>> {
    if code == 0 {
        Some("YEAR"@)
    } else if code == 2 {
        Some("MONTH"@)
    } else if code == 4 {
        Some("DAY"@)
    } else if code == 6 {
        Some("HOUR"@)
    } else if code == 8 {
        Some("MINUTE"@)
    } else if code == 10 {
        Some("SECOND"@)
    } else if 11 <= code <= 15 {
        Some("FRACTION"@)
    } else {
        None
    }
}

pub open spec fn datetime_type_spec(collength: i64) -> Seq<char> {
    let q = trem(collength as int, 256);
    let start = tu_name_spec(tdiv(q, 16));
    let end = tu_name_spec(trem(q, 16));
    match (start, end) {
        (Some(s), Some(e)) => if s == e {
            "DATETIME "@ + s
        } else {
            "DATETIME "@ + s + " TO "@ + e
        },
        _ => "DATETIME"@,
    }
}

pub open spec fn ext_or(ext: Option<Seq<char>>, default: Seq<char>) -> Seq<char> {
    match ext {
        Some(e) => e,
        None => default,
    }
}

/// The base type code: the low byte of `coltype`.
pub open spec fn base_code(coltype: i64) -> int {
    (coltype & 0xff) as int
}

/// The SQL type name and character length of a column, given its
/// (already trimmed and uppercased) extended-type name.
pub open spec fn decode_type_spec(coltype: i64, collength: i64, ext: Option<Seq<char>>) -> (
    Seq<char>,
    Option<u64>,
) {
    let base = base_code(coltype);
    if base == 0 {
        char_type_spec("CHAR"@, collength)
    } else if base == 1 {
        ("SMALLINT"@, None)
    } else if base == 2 {
        ("INTEGER"@, None)
    } else if base == 3 {
        ("FLOAT"@, None)
    } else if base == 4 {
        ("SMALLFLOAT"@, None)
    } else if base == 5 {
        (decimal_type_spec("DECIMAL"@, collength), None)
    } else if base == 6 {
        ("SERIAL"@, None)
    } else if base == 7 {
        ("DATE"@, None)
    } else if base == 8 {
        (decimal_type_spec("MONEY"@, collength), None)
    } else if base == 10 {
        (datetime_type_spec(collength), None)
    } else if base == 11 {
        ("BYTE"@, None)
    } else if base == 12 {
        ("TEXT"@, None)
    } else if base == 13 {
        varchar_type_spec("VARCHAR"@, collength)
    } else if base == 14 {
        ("INTERVAL"@, None)
    } else if base == 15 {
        char_type_spec("NCHAR"@, collength)
    } else if base == 16 {
        varchar_type_spec("NVARCHAR"@, collength)
    } else if base == 17 {
        ("INT8"@, None)
    } else if base == 18 {
        ("SERIAL8"@, None)
    } else if base == 19 {
        (ext_or(ext, "SET"@), None)
    } else if base == 20 {
        (ext_or(ext, "MULTISET"@), None)
    } else if base == 21 {
        (ext_or(ext, "LIST"@), None)
    } else if base == 22 {
        (ext_or(ext, "ROW"@), None)
    } else if base == 23 {
        (ext_or(ext, "COLLECTION"@), None)
    } else if base == 40 || base == 43 {
        // Variable-length opaque (LVARCHAR family) and fixed-length opaque
        // (BOOLEAN, BLOB, CLOB...). The real extended-type name wins.
        let len: int = if collength < 0 {
            0
        } else {
            collength as int
        };
        match ext {
            Some(name) => (name, None),
            None => if len > 0 {
                (with_len("LVARCHAR"@, len), Some(len as u64))
            } else {
                ("LVARCHAR"@, None)
            },
        }
    } else if base == 41 {
        (ext_or(ext, "BLOB"@), None)
    } else if base == 45 {
        ("BOOLEAN"@, None)
    } else if base == 52 {
        ("BIGINT"@, None)
    } else if base == 53 {
        ("BIGSERIAL"@, None)
    } else {
        (ext_or(ext, with_len("UNKNOWN"@, base)), None)
    }
}

pub open spec fn is_auto_increment_code(base: int) -> bool {
    base == 6 || base == 18 || base == 53
}

/// The extended-type name as `decode_type` uses it: trimmed, `None` when
/// empty, then uppercased.
pub open spec fn ext_spec(ext_name: Option<Seq<char>>) -> Option<Seq<char>> {
    match ext_name {
        Some(s) => if trim(s).len() == 0 {
            None
        } else {
            Some(unicode_upper(trim(s)))
        },
        None => None,
    }
}

/// What a decoded column type holds, for `coltype`, `collength` and an
/// extended-type name already prepared as `ext_spec` describes.
pub open spec fn decoded_matches(
    d: DecodedType,
    coltype: i64,
    collength: i64,
    ext: Option<Seq<char>>,
) -> bool {
    let (sql_type, char_max_len) = decode_type_spec(coltype, collength, ext);
    &&& d.sql_type@ == sql_type
    &&& d.char_max_len == char_max_len
    &&& d.is_not_null == ((coltype & NOT_NULL_BIT) != 0)
    &&& d.is_auto_increment == is_auto_increment_code(base_code(coltype))
}

fn with_len_chars(name: &str, n: i64) -> (r: Vec<char>)
    ensures
        r@ == with_len(name@, n as int),
{
    let mut out: Vec<char> = Vec::new();
    push_str(&mut out, name);
    push_str(&mut out, "(");
    push_i64(&mut out, n);
    push_str(&mut out, ")");
    assert(out@ =~= with_len(name@, n as int));
    out
}

fn char_type(name: &str, collength: i64) -> (r: (String, Option<u64>))
    ensures
        r.0@ == char_type_spec(name@, collength).0,
        r.1 == char_type_spec(name@, collength).1,
{
    let len: i64 = if collength < 0 {
        0
    } else {
        collength
    };
    if len == 0 {
        (string_of(name), None)
    } else {
        let v = with_len_chars(name, len);
        (string_from_chars(&v), Some(len as u64))
    }
}

fn varchar_type(name: &str, collength: i64) -> (r: (String, Option<u64>))
    ensures
        r.0@ == varchar_type_spec(name@, collength).0,
        r.1 == varchar_type_spec(name@, collength).1,
{
    let m = collength % 256;
    let max: i64 = if m < 0 {
        0
    } else {
        m
    };
    if max == 0 {
        (string_of(name), None)
    } else {
        let v = with_len_chars(name, max);
        (string_from_chars(&v), Some(max as u64))
    }
}

fn decimal_type(name: &str, collength: i64) -> (r: String)
    ensures
        r@ == decimal_type_spec(name@, collength),
{
    let precision = collength / 256;
    let scale = collength % 256;
    if precision <= 0 {
        return string_of(name);
    }
    if scale == 255 || scale == 0 {
        let v = with_len_chars(name, precision);
        string_from_chars(&v)
    } else {
        let mut out: Vec<char> = Vec::new();
        push_str(&mut out, name);
        push_str(&mut out, "(");
        push_i64(&mut out, precision);
        push_str(&mut out, ",");
        push_i64(&mut out, scale);
        push_str(&mut out, ")");
        assert(out@ =~= decimal_type_spec(name@, collength));
        string_from_chars(&out)
    }
}

/// Maps an Informix time-unit code to its keyword.
fn tu_name(code: i64) -> (r: Option<&'static str>)
    ensures
        match r {
            Some(s) => tu_name_spec(code as int) == Some(s@),
            None => tu_name_spec(code as int) is None,
        },
{
    if code == 0 {
        Some("YEAR")
    } else if code == 2 {
        Some("MONTH")
    } else if code == 4 {
        Some("DAY")
    } else if code == 6 {
        Some("HOUR")
    } else if code == 8 {
        Some("MINUTE")
    } else if code == 10 {
        Some("SECOND")
    } else if 11 <= code && code <= 15 {
        Some("FRACTION")
    } else {
        None
    }
}

fn datetime_type(collength: i64) -> (r: String)
    ensures
        r@ == datetime_type_spec(collength),
{
    let q = collength % 256;
    let s = tu_name(q / 16);
    let e = tu_name(q % 16);
    match (s, e) {
        (Some(s), Some(e)) => {
            let mut out: Vec<char> = Vec::new();
            push_str(&mut out, "DATETIME ");
            push_str(&mut out, s);
            if !str_eq(s, e) {
                push_str(&mut out, " TO ");
                push_str(&mut out, e);
            }
            assert(out@ =~= datetime_type_spec(collength));
            string_from_chars(&out)
        },
        _ => string_of("DATETIME"),
    }
}

fn ext_or_name(ext: Option<String>, default: &str) -> (r: String)
    ensures
        r@ == ext_or(opt_view(ext), default@),
{
    match ext {
        Some(e) => e,
        None => string_of(default),
    }
}

/// Decodes a column's type from `coltype`, `collength` and the extended-type
/// name `ext`, already trimmed, uppercased and `None` when empty.
pub fn decode_type_with(coltype: i64, collength: i64, ext: Option<String>) -> (d: DecodedType)
    ensures
        decoded_matches(
            d,
            coltype,
            collength,
            opt_view(ext),
        ),
{
    let base = coltype & 0xFF;
    assert(0 <= base <= 255) by (bit_vector)
        requires
            base == coltype & 0xFF,
    ;
    let is_not_null = (coltype & NOT_NULL_BIT) != 0;
    let is_auto_increment = base == 6 || base == 18 || base == 53;
    let (sql_type, char_max_len): (String, Option<u64>) = if base == 0 {
        char_type("CHAR", collength)
    } else if base == 1 {
        (string_of("SMALLINT"), None)
    } else if base == 2 {
        (string_of("INTEGER"), None)
    } else if base == 3 {
        (string_of("FLOAT"), None)
    } else if base == 4 {
        (string_of("SMALLFLOAT"), None)
    } else if base == 5 {
        (decimal_type("DECIMAL", collength), None)
    } else if base == 6 {
        (string_of("SERIAL"), None)
    } else if base == 7 {
        (string_of("DATE"), None)
    } else if base == 8 {
        (decimal_type("MONEY", collength), None)
    } else if base == 10 {
        (datetime_type(collength), None)
    } else if base == 11 {
        (string_of("BYTE"), None)
    } else if base == 12 {
        (string_of("TEXT"), None)
    } else if base == 13 {
        varchar_type("VARCHAR", collength)
    } else if base == 14 {
        (string_of("INTERVAL"), None)
    } else if base == 15 {
        char_type("NCHAR", collength)
    } else if base == 16 {
        varchar_type("NVARCHAR", collength)
    } else if base == 17 {
        (string_of("INT8"), None)
    } else if base == 18 {
        (string_of("SERIAL8"), None)
    } else if base == 19 {
        (ext_or_name(ext, "SET"), None)
    } else if base == 20 {
        (ext_or_name(ext, "MULTISET"), None)
    } else if base == 21 {
        (ext_or_name(ext, "LIST"), None)
    } else if base == 22 {
        (ext_or_name(ext, "ROW"), None)
    } else if base == 23 {
        (ext_or_name(ext, "COLLECTION"), None)
    } else if base == 40 || base == 43 {
        let len: i64 = if collength < 0 {
            0
        } else {
            collength
        };
        match ext {
            Some(name) => (name, None),
            None => if len > 0 {
                let v = with_len_chars("LVARCHAR", len);
                (string_from_chars(&v), Some(len as u64))
            } else {
                (string_of("LVARCHAR"), None)
            },
        }
    } else if base == 41 {
        (ext_or_name(ext, "BLOB"), None)
    } else if base == 45 {
        (string_of("BOOLEAN"), None)
    } else if base == 52 {
        (string_of("BIGINT"), None)
    } else if base == 53 {
        (string_of("BIGSERIAL"), None)
    } else {
        match ext {
            Some(name) => (name, None),
            None => {
                let v = with_len_chars("UNKNOWN", base);
                (string_from_chars(&v), None)
            },
        }
    };
    DecodedType { sql_type, char_max_len, is_not_null, is_auto_increment }
}

/// Decodes a column's type. `ext_name` is the name from `sysxtdtypes` for
/// opaque / extended types (BOOLEAN, BLOB, CLOB, LVARCHAR, distinct types).
pub fn decode_type(coltype: i64, collength: i64, ext_name: Option<&str>) -> (d: DecodedType)
    ensures
        decoded_matches(
            d,
            coltype,
            collength,
            ext_spec(
                match ext_name {
                    Some(s) => Some(s@),
                    None => None,
                },
            ),
        ),
{
    let ext: Option<String> = match ext_name {
        Some(s) => {
            let t = trim_str(s);
            if t.unicode_len() == 0 {
                None
            } else {
                Some(to_uppercase(t))
            }
        },
        None => None,
    };
    decode_type_with(coltype, collength, ext)
}

// ---------------------------------------------------------------------------
// Defaults
// ---------------------------------------------------------------------------

/// What `decode_default` returns for a literal (`L`) default's text.
pub open spec fn literal_default_spec(text: Seq<char>) -> Option<Seq<char>> {
    let t = trim(text);
    if t.len() == 0 {
        None
    } else {
        match first_index_of(t, ' ') {
            Some(i) => {
                let prefix = t.take(i);
                let rest = t.skip(i + 1);
                if parse_i64_spec(prefix) is Some && trim(rest).len() > 0 {
                    Some(trim(rest))
                } else {
                    Some(t)
                }
            },
            None => Some(t),
        }
    }
}

/// What `decode_default` returns.
pub open spec fn decode_default_spec(type_code: Seq<char>, text: Seq<char>) -> Option<Seq<char>> {
    let c = trim(type_code);
    if c == "T"@ {
        Some("TODAY"@)
    } else if c == "C"@ {
        Some("CURRENT"@)
    } else if c == "U"@ {
        Some("USER"@)
    } else if c == "S"@ {
        Some("DBSERVERNAME"@)
    } else if c == "L"@ {
        literal_default_spec(text)
    } else {
        None
    }
}

fn literal_default(text: &str) -> (r: Option<String>)
    ensures
        match r {
            Some(s) => literal_default_spec(text@) == Some(s@),
            None => literal_default_spec(text@) is None,
        },
{
    let tv = chars_of(text);
    let (a, b) = trim_bounds(&tv);
    if a == b {
        return None;
    }
    let mut t: Vec<char> = Vec::new();
    push_range(&mut t, &tv, a, b);
    assert(t@ == trim(text@));
    // Numeric literals are stored as "<class> <value>"; drop the class.
    match find_char(&t, ' ') {
        Some(i) => {
            let mut prefix: Vec<char> = Vec::new();
            push_range(&mut prefix, &t, 0, i);
            let mut rest: Vec<char> = Vec::new();
            push_range(&mut rest, &t, i + 1, t.len());
            assert(prefix@ =~= t@.take(i as int));
            assert(rest@ =~= t@.skip(i + 1));
            let (ra, rb) = trim_bounds(&rest);
            if parse_i64(&prefix).is_some() && ra < rb {
                let mut kept: Vec<char> = Vec::new();
                push_range(&mut kept, &rest, ra, rb);
                Some(string_from_chars(&kept))
            } else {
                Some(string_from_chars(&t))
            }
        },
        None => Some(string_from_chars(&t)),
    }
}

/// Decodes a `sysdefaults` entry into a display/DDL default expression.
///
/// `type_code` is the single-character `sysdefaults.type`; `text` is the
/// `sysdefaults.default` value (only meaningful for literal defaults). Keyword
/// defaults map to their SQL keyword. Literal defaults are best-effort: the
/// internal numeric class prefix Informix stores before numeric literals is
/// stripped. Returns `None` when there is no usable default.
pub fn decode_default(type_code: &str, text: &str) -> (r: Option<String>)
    ensures
        match r {
            Some(s) => decode_default_spec(type_code@, text@) == Some(s@),
            None => decode_default_spec(type_code@, text@) is None,
        },
{
    let c = trim_str(type_code);
    if str_eq(c, "T") {
        Some(string_of("TODAY"))
    } else if str_eq(c, "C") {
        Some(string_of("CURRENT"))
    } else if str_eq(c, "U") {
        Some(string_of("USER"))
    } else if str_eq(c, "S") {
        Some(string_of("DBSERVERNAME"))
    } else if str_eq(c, "L") {
        literal_default(text)
    } else {
        None
    }
}

/// Only the base type code (the low byte) and the NOT NULL bit of `coltype`
/// count: the internal flags above them change nothing in the decoding.
pub proof fn law_high_flags_ignored(
    d: DecodedType,
    c1: i64,
    c2: i64,
    collength: i64,
    ext: Option<Seq<char>>,
)
    requires
        c1 & 0x1ff == c2 & 0x1ff,
    ensures
        decoded_matches(d, c1, collength, ext) == decoded_matches(d, c2, collength, ext),
{
    assert(c1 & 0xff == c2 & 0xff && c1 & 0x100 == c2 & 0x100) by (bit_vector)
        requires
            c1 & 0x1ff == c2 & 0x1ff,
    ;
}

/// What a decoded type says, by the base type code (`coltype & 0xff`) of the
/// IBM `syscolumns.coltype` table, the NOT NULL bit (`0x100`) and
/// `collength`; `ext` is the (trimmed, uppercased) extended-type name.
///
/// The fixed-name codes: 1 SMALLINT, 2 INTEGER, 3 FLOAT, 4 SMALLFLOAT,
/// 6 SERIAL, 7 DATE, 11 BYTE, 12 TEXT, 14 INTERVAL, 17 INT8, 18 SERIAL8,
/// 45 BOOLEAN, 52 BIGINT, 53 BIGSERIAL, none with a character length. CHAR
/// (0) and NCHAR (15) carry their byte length; VARCHAR (13) and NVARCHAR
/// (16) the maximum held in the low byte of `collength`; DECIMAL (5) and
/// MONEY (8) the precision in the high byte and the scale in the low byte
/// (0 or 255 meaning no fixed scale). Only SERIAL, SERIAL8 and BIGSERIAL
/// are auto-increment.
pub proof fn law_decode_type_table(d: DecodedType, coltype: i64, collength: i64, ext: Option<Seq<char>>)
    requires
        decoded_matches(d, coltype, collength, ext),
    ensures
        d.is_not_null == (coltype & 0x100 != 0),
        d.is_auto_increment == (coltype & 0xff == 6 || coltype & 0xff == 18 || coltype & 0xff
            == 53),
        coltype & 0xff == 1 ==> d.sql_type@ == "SMALLINT"@ && d.char_max_len is None,
        coltype & 0xff == 2 ==> d.sql_type@ == "INTEGER"@ && d.char_max_len is None,
        coltype & 0xff == 3 ==> d.sql_type@ == "FLOAT"@ && d.char_max_len is None,
        coltype & 0xff == 4 ==> d.sql_type@ == "SMALLFLOAT"@ && d.char_max_len is None,
        coltype & 0xff == 6 ==> d.sql_type@ == "SERIAL"@ && d.char_max_len is None,
        coltype & 0xff == 7 ==> d.sql_type@ == "DATE"@ && d.char_max_len is None,
        coltype & 0xff == 11 ==> d.sql_type@ == "BYTE"@ && d.char_max_len is None,
        coltype & 0xff == 12 ==> d.sql_type@ == "TEXT"@ && d.char_max_len is None,
        coltype & 0xff == 14 ==> d.sql_type@ == "INTERVAL"@ && d.char_max_len is None,
        coltype & 0xff == 17 ==> d.sql_type@ == "INT8"@ && d.char_max_len is None,
        coltype & 0xff == 18 ==> d.sql_type@ == "SERIAL8"@ && d.char_max_len is None,
        coltype & 0xff == 45 ==> d.sql_type@ == "BOOLEAN"@ && d.char_max_len is None,
        coltype & 0xff == 52 ==> d.sql_type@ == "BIGINT"@ && d.char_max_len is None,
        coltype & 0xff == 53 ==> d.sql_type@ == "BIGSERIAL"@ && d.char_max_len is None,
        coltype & 0xff == 0 && collength > 0 ==> d.sql_type@ == "CHAR"@ + "("@ + dec(collength as nat)
            + ")"@ && d.char_max_len == Some(collength as u64),
        coltype & 0xff == 0 && collength <= 0 ==> d.sql_type@ == "CHAR"@ && d.char_max_len is None,
        coltype & 0xff == 15 && collength > 0 ==> d.sql_type@ == "NCHAR"@ + "("@ + dec(collength as nat)
            + ")"@ && d.char_max_len == Some(collength as u64),
        coltype & 0xff == 15 && collength <= 0 ==> d.sql_type@ == "NCHAR"@ && d.char_max_len is None,
        coltype & 0xff == 13 && collength >= 0 && collength % 256 > 0 ==> d.sql_type@ == "VARCHAR"@ + "("@
            + dec((collength % 256) as nat) + ")"@ && d.char_max_len == Some((collength % 256) as u64),
        coltype & 0xff == 13 && (collength < 0 || collength % 256 == 0) ==> d.sql_type@
            == "VARCHAR"@ && d.char_max_len is None,
        coltype & 0xff == 16 && collength >= 0 && collength % 256 > 0 ==> d.sql_type@
            == "NVARCHAR"@ + "("@ + dec((collength % 256) as nat) + ")"@ && d.char_max_len == Some(
            (collength % 256) as u64,
        ),
        coltype & 0xff == 16 && (collength < 0 || collength % 256 == 0) ==> d.sql_type@
            == "NVARCHAR"@ && d.char_max_len is None,
        coltype & 0xff == 5 && collength < 256 ==> d.sql_type@ == "DECIMAL"@,
        coltype & 0xff == 5 && collength >= 256 && (collength % 256 == 0 || collength % 256 == 255)
            ==> d.sql_type@ == "DECIMAL"@ + "("@ + dec((collength / 256) as nat) + ")"@,
        coltype & 0xff == 5 && collength >= 256 && collength % 256 != 0 && collength % 256 != 255
            ==> d.sql_type@ == "DECIMAL"@ + "("@ + dec((collength / 256) as nat) + ","@ + dec(
            (collength % 256) as nat,
        ) + ")"@,
        coltype & 0xff == 8 && collength < 256 ==> d.sql_type@ == "MONEY"@,
        coltype & 0xff == 8 && collength >= 256 && (collength % 256 == 0 || collength % 256 == 255)
            ==> d.sql_type@ == "MONEY"@ + "("@ + dec((collength / 256) as nat) + ")"@,
        coltype & 0xff == 8 && collength >= 256 && collength % 256 != 0 && collength % 256 != 255
            ==> d.sql_type@ == "MONEY"@ + "("@ + dec((collength / 256) as nat) + ","@ + dec(
            (collength % 256) as nat,
        ) + ")"@,
        coltype & 0xff == 5 || coltype & 0xff == 8 || coltype & 0xff == 10 ==> d.char_max_len is None,
        coltype & 0xff == 19 ==> d.sql_type@ == (match ext { Some(e) => e, None => "SET"@ }),
        coltype & 0xff == 20 ==> d.sql_type@ == (match ext { Some(e) => e, None => "MULTISET"@ }),
        coltype & 0xff == 21 ==> d.sql_type@ == (match ext { Some(e) => e, None => "LIST"@ }),
        coltype & 0xff == 22 ==> d.sql_type@ == (match ext { Some(e) => e, None => "ROW"@ }),
        coltype & 0xff == 23 ==> d.sql_type@ == (match ext { Some(e) => e, None => "COLLECTION"@ }),
        coltype & 0xff == 41 ==> d.sql_type@ == (match ext { Some(e) => e, None => "BLOB"@ }),
        (coltype & 0xff == 40 || coltype & 0xff == 43) && ext is Some ==> d.sql_type@ == ext->0
            && d.char_max_len is None,
        (coltype & 0xff == 40 || coltype & 0xff == 43) && ext is None && collength > 0
            ==> d.sql_type@ == "LVARCHAR"@ + "("@ + dec(collength as nat) + ")"@ && d.char_max_len
            == Some(collength as u64),
        (coltype & 0xff == 40 || coltype & 0xff == 43) && ext is None && collength <= 0
            ==> d.sql_type@ == "LVARCHAR"@ && d.char_max_len is None,
{
    reveal_strlit("(");
    reveal_strlit(")");
    reveal_strlit(",");
    let b = coltype & 0xff;
    assert(0 <= b < 256) by (bit_vector)
        requires
            b == coltype & 0xff,
    ;
    assert(with_len("CHAR"@, collength as int) == "CHAR"@ + "("@ + int_dec(collength as int) + ")"@);
}

/// The Informix time-unit codes of a DATETIME qualifier: 0 YEAR, 2 MONTH,
/// 4 DAY, 6 HOUR, 8 MINUTE, 10 SECOND, 11 to 15 FRACTION, and no keyword for
/// any other code.
pub proof fn law_time_units(code: int)
    ensures
        code == 0 ==> tu_name_spec(code) == Some("YEAR"@),
        code == 2 ==> tu_name_spec(code) == Some("MONTH"@),
        code == 4 ==> tu_name_spec(code) == Some("DAY"@),
        code == 6 ==> tu_name_spec(code) == Some("HOUR"@),
        code == 8 ==> tu_name_spec(code) == Some("MINUTE"@),
        code == 10 ==> tu_name_spec(code) == Some("SECOND"@),
        11 <= code <= 15 ==> tu_name_spec(code) == Some("FRACTION"@),
        !(code == 0 || code == 2 || code == 4 || code == 6 || code == 8 || 10 <= code <= 15)
            ==> tu_name_spec(code) is None,
{
}

/// A DATETIME column (code 10) is written `DATETIME start TO end` from the
/// qualifier in the low byte of `collength` (start unit in its high nibble,
/// end unit in its low nibble), `DATETIME unit` when both are the same, and
/// plain `DATETIME` when either unit is unknown. A code outside the table
/// gives the extended-type name or `UNKNOWN(code)`.
pub proof fn law_decode_datetime_and_unknown(
    d: DecodedType,
    coltype: i64,
    collength: i64,
    ext: Option<Seq<char>>,
)
    requires
        decoded_matches(d, coltype, collength, ext),
    ensures
        coltype & 0xff == 10 && collength >= 0 ==> ({
            let q = collength % 256;
            let start = tu_name_spec(q / 16);
            let end = tu_name_spec((q % 16) as int);
            &&& start matches Some(a) ==> (end matches Some(b) ==> d.sql_type@ == (if a == b {
                "DATETIME "@ + a
            } else {
                "DATETIME "@ + a + " TO "@ + b
            }))
            &&& (start is None || end is None) ==> d.sql_type@ == "DATETIME"@
        }),
        !(0 <= coltype & 0xff <= 8 || 10 <= coltype & 0xff <= 23 || coltype & 0xff == 40
            || coltype & 0xff == 41 || coltype & 0xff == 43 || coltype & 0xff == 45 || coltype
            & 0xff == 52 || coltype & 0xff == 53) ==> d.sql_type@ == (match ext {
            Some(e) => e,
            None => "UNKNOWN"@ + "("@ + dec((coltype & 0xff) as nat) + ")"@,
        }),
{
    let b = coltype & 0xff;
    assert(0 <= b < 256) by (bit_vector)
        requires
            b == coltype & 0xff,
    ;
    assert(int_dec(b as int) == dec(b as nat));
    if collength >= 0 {
        let q = collength % 256;
        assert(trem(collength as int, 256) == q);
        assert(tdiv(q as int, 16) == q / 16);
        assert(trem(q as int, 16) == q % 16);
    }
    if ext is None {
        assert(with_len("UNKNOWN"@, b as int) =~= "UNKNOWN"@ + "("@ + dec(b as nat) + ")"@);
    }
}

/// How a `sysdefaults` entry reads, by its trimmed type code `c`: `T`
/// TODAY, `C` CURRENT, `U` USER, `S` DBSERVERNAME, `L` a literal, and no
/// default for `N` or any other code.
pub proof fn law_default_codes(type_code: Seq<char>, text: Seq<char>)
    ensures
        trim(type_code) == seq!['T'] ==> decode_default_spec(type_code, text) == Some("TODAY"@),
        trim(type_code) == seq!['C'] ==> decode_default_spec(type_code, text) == Some("CURRENT"@),
        trim(type_code) == seq!['U'] ==> decode_default_spec(type_code, text) == Some("USER"@),
        trim(type_code) == seq!['S'] ==> decode_default_spec(type_code, text) == Some(
            "DBSERVERNAME"@,
        ),
        trim(type_code) == seq!['L'] ==> decode_default_spec(type_code, text)
            == literal_default_spec(text),
        !(trim(type_code) == seq!['T'] || trim(type_code) == seq!['C'] || trim(type_code)
            == seq!['U'] || trim(type_code) == seq!['S'] || trim(type_code) == seq!['L'])
            ==> decode_default_spec(type_code, text) is None,
{
    reveal_strlit("T");
    reveal_strlit("C");
    reveal_strlit("U");
    reveal_strlit("S");
    reveal_strlit("L");
    let c = trim(type_code);
    if c.len() == 1 {
        assert(c[0] == c[0]);
    }
    assert("T"@ =~= seq!['T']);
    assert("C"@ =~= seq!['C']);
    assert("U"@ =~= seq!['U']);
    assert("S"@ =~= seq!['S']);
    assert("L"@ =~= seq!['L']);
    assert("T"@[0] == 'T' && "C"@[0] == 'C' && "U"@[0] == 'U' && "S"@[0] == 'S' && "L"@[0] == 'L');
    if c == seq!['C'] || c == seq!['U'] || c == seq!['S'] || c == seq!['L'] {
        assert(c[0] != 'T');
        assert(c != "T"@);
    }
    if c == seq!['U'] || c == seq!['S'] || c == seq!['L'] {
        assert(c[0] != 'C');
        assert(c != "C"@);
    }
    if c == seq!['S'] || c == seq!['L'] {
        assert(c[0] != 'U');
        assert(c != "U"@);
    }
    if c == seq!['L'] {
        assert(c[0] != 'S');
        assert(c != "S"@);
    }
}

/// A literal default is its trimmed text, except that a leading integer
/// class followed by a space and a non-blank value is dropped; a blank
/// literal is no default.
pub proof fn law_literal_default(text: Seq<char>, p: Seq<char>, r: Seq<char>)
    ensures
        trim(text).len() == 0 ==> literal_default_spec(text) is None,
        trim(text).len() > 0 && !trim(text).contains(' ') ==> literal_default_spec(text) == Some(
            trim(text),
        ),
        trim(text) == p + seq![' '] + r && !p.contains(' ') ==> literal_default_spec(text) == (
        if parse_i64_spec(p) is Some && trim(r).len() > 0 {
            Some(trim(r))
        } else {
            Some(trim(text))
        }),
{
    let t = trim(text);
    if t == p + seq![' '] + r && !p.contains(' ') {
        lemma_first_index_unique(t, ' ', p.len() as int);
        assert(t.take(p.len() as int) =~= p);
        assert(t.skip(p.len() as int + 1) =~= r);
    }
}

} // verus!
