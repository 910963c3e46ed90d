//! The JSON values that requests carry and responses return.
//!
//! `JsonValue` mirrors the JSON data model the host speaks: an object is a
//! list of `(key, value)` entries in the order the host's map yields them, and
//! a number is either an integer or, for a floating-point number, the text the
//! JSON layer renders it as.

use vstd::prelude::*;

use crate::utils::number::{
    all_digits, dec, digits_value, int_dec, law_i64_text_reads_back, lemma_dec_reads_back,
    parse_i64_spec, push_i64, push_u64,
};
use crate::utils::text::{join, push_str, str_eq, string_from_chars};

verus! {

/// A JSON number: a non-negative integer, a negative integer, or a
/// floating-point number held as its JSON text.
#[derive(Debug, Clone, PartialEq)]
pub enum JsonNumber {
    PosInt(u64),
    NegInt(i64),
    Float(String),
}

#[derive(Debug)]
pub enum JsonValue {
    Null,
    Bool(bool),
    Number(JsonNumber),
    String(String),
    Array(Vec<JsonValue>),
    Object(Vec<(String, JsonValue)>),
}

/// The value stored under `key` in `entries` (the first entry with that key).
pub open spec fn lookup(entries: Seq<(String, JsonValue)>, key: Seq<char>) -> Option<JsonValue>
    decreases entries.len(),
{
    if entries.len() == 0 {
        None
    } else if entries[0].0@ == key {
        Some(entries[0].1)
    } else {
        lookup(entries.drop_first(), key)
    }
}

/// Dereferences an optional borrowed value, for stating results in specs.
pub open spec fn deref_opt(o: Option<&JsonValue>) -> Option<JsonValue> {
    match o {
        Some(x) => Some(*x),
        None => None,
    }
}

/// Decimal text of a JSON number, as the JSON layer prints it.
pub open spec fn number_text(n: JsonNumber) -> Seq<char> {
    match n {
        JsonNumber::PosInt(u) => dec(u as nat),
        JsonNumber::NegInt(i) => int_dec(i as int),
        JsonNumber::Float(s) => s@,
    }
}

impl JsonValue {
    /// `Value::get` with a string key: the entry of an object, `None` for
    /// anything else.
    pub open spec fn spec_get(self, key: Seq<char>) -> Option<JsonValue> {
        match self {
            JsonValue::Object(entries) => lookup(entries@, key),
            _ => None,
        }
    }

    pub open spec fn spec_as_str(self) -> Option<Seq<char>> {
        match self {
            JsonValue::String(s) => Some(s@),
            _ => None,
        }
    }

    pub open spec fn spec_as_u64(self) -> Option<u64> {
        match self {
            JsonValue::Number(JsonNumber::PosInt(n)) => Some(n),
            _ => None,
        }
    }

    pub open spec fn spec_as_i64(self) -> Option<i64> {
        match self {
            JsonValue::Number(JsonNumber::PosInt(n)) => if n <= i64::MAX as u64 {
                Some(n as i64)
            } else {
                None
            },
            JsonValue::Number(JsonNumber::NegInt(n)) => Some(n),
            _ => None,
        }
    }

    pub open spec fn spec_as_bool(self) -> Option<bool> {
        match self {
            JsonValue::Bool(b) => Some(b),
            _ => None,
        }
    }

    pub fn get(&self, key: &str) -> (r: Option<&JsonValue>)
        ensures
            deref_opt(r) == self.spec_get(key@),
    {
        match self {
            JsonValue::Object(entries) => {
                let mut i: usize = 0;
                assert(entries@.skip(0) =~= entries@);
                while i < entries.len()
                    invariant
                        i <= entries@.len(),
                        self.spec_get(key@) == lookup(entries@, key@),
                        lookup(entries@, key@) == lookup(entries@.skip(i as int), key@),
                    decreases entries@.len() - i,
                {
                    assert(entries@.skip(i as int)[0] == entries@[i as int]);
                    if str_eq(entries[i].0.as_str(), key) {
                        assert(lookup(entries@.skip(i as int), key@) == Some(entries@[i as int].1));
                        let found = &entries[i].1;
                        assert(*found == entries@[i as int].1);
                        return Some(found);
                    }
                    assert(entries@.skip(i as int).drop_first() =~= entries@.skip(i + 1));
                    i = i + 1;
                }
                None
            },
            _ => None,
        }
    }

    pub fn as_str(&self) -> (r: Option<&str>)
        ensures
            match r {
                Some(s) => self.spec_as_str() == Some(s@),
                None => self.spec_as_str() is None,
            },
    {
        match self {
            JsonValue::String(s) => Some(s.as_str()),
            _ => None,
        }
    }

    pub fn as_u64(&self) -> (r: Option<u64>)
        ensures
            r == self.spec_as_u64(),
    {
        match self {
            JsonValue::Number(JsonNumber::PosInt(n)) => Some(*n),
            _ => None,
        }
    }

    pub fn as_i64(&self) -> (r: Option<i64>)
        ensures
            r == self.spec_as_i64(),
    {
        match self {
            JsonValue::Number(JsonNumber::PosInt(n)) => if *n <= i64::MAX as u64 {
                Some(*n as i64)
            } else {
                None
            },
            JsonValue::Number(JsonNumber::NegInt(n)) => Some(*n),
            _ => None,
        }
    }

    pub fn as_bool(&self) -> (r: Option<bool>)
        ensures
            r == self.spec_as_bool(),
    {
        match self {
            JsonValue::Bool(b) => Some(*b),
            _ => None,
        }
    }

    pub fn as_array(&self) -> (r: Option<&Vec<JsonValue>>)
        ensures
            match r {
                Some(v) => self == JsonValue::Array(*v),
                None => !(self is Array),
            },
    {
        match self {
            JsonValue::Array(v) => Some(v),
            _ => None,
        }
    }

    pub fn as_object(&self) -> (r: Option<&Vec<(String, JsonValue)>>)
        ensures
            match r {
                Some(v) => self == JsonValue::Object(*v),
                None => !(self is Object),
            },
    {
        match self {
            JsonValue::Object(v) => Some(v),
            _ => None,
        }
    }
}

/// Appends the JSON text of a number.
pub fn push_number(out: &mut Vec<char>, n: &JsonNumber)
    ensures
        final(out)@ == old(out)@ + number_text(*n),
{
    match n {
        JsonNumber::PosInt(u) => push_u64(out, *u),
        JsonNumber::NegInt(i) => push_i64(out, *i),
        JsonNumber::Float(s) => push_str(out, s.as_str()),
    }
}

/// Text of a JSON number (`Number`'s `Display`).
pub fn number_to_string(n: &JsonNumber) -> (r: String)
    ensures
        r@ == number_text(*n),
{
    let mut out: Vec<char> = Vec::new();
    push_number(&mut out, n);
    assert(out@ =~= number_text(*n));
    string_from_chars(&out)
}

// ---------------------------------------------------------------------------
// Compact JSON text
// ---------------------------------------------------------------------------

pub open spec fn hex_digit(d: int) -> char {
    if d < 10 {
        crate::utils::number::digit_char(d)
    } else if d == 10 {
        'a'
    } else if d == 11 {
        'b'
    } else if d == 12 {
        'c'
    } else if d == 13 {
        'd'
    } else if d == 14 {
        'e'
    } else {
        'f'
    }
}

/// How one character of a string is written inside JSON quotes.
pub open spec fn escape_json_char(c: char) -> Seq<char> {
    if c == '"' {
        seq!['\\', '"']
    } else if c == '\\' {
        seq!['\\', '\\']
    } else if c == '\u{8}' {
        seq!['\\', 'b']
    } else if c == '\t' {
        seq!['\\', 't']
    } else if c == '\n' {
        seq!['\\', 'n']
    } else if c == '\u{c}' {
        seq!['\\', 'f']
    } else if c == '\r' {
        seq!['\\', 'r']
    } else if (c as int) < 0x20 {
        seq!['\\', 'u', '0', '0', hex_digit((c as int) / 16), hex_digit((c as int) % 16)]
    } else {
        seq![c]
    }
}

pub open spec fn escaped(s: Seq<char>) -> Seq<char>
    decreases s.len(),
{
    if s.len() == 0 {
        Seq::<char>::empty()
    } else {
        escaped(s.drop_last()) + escape_json_char(s.last())
    }
}

/// A JSON string literal holding `s`.
pub open spec fn string_text(s: Seq<char>) -> Seq<char> {
    seq!['"'] + escaped(s) + seq!['"']
}

/// Compact JSON text of a value: no whitespace, object entries in order.
pub open spec fn json_text(v: JsonValue) -> Seq<char>
    decreases v, 0int,
{
    match v {
        JsonValue::Null => "null"@,
        JsonValue::Bool(b) => if b {
            "true"@
        } else {
            "false"@
        },
        JsonValue::Number(n) => number_text(n),
        JsonValue::String(s) => string_text(s@),
        JsonValue::Array(items) => seq!['['] + items_text(items@, items@.len() as int) + seq![']'],
        JsonValue::Object(entries) => seq!['{'] + entries_text(entries@, entries@.len() as int)
            + seq!['}'],
    }
}

/// The first `n` items, comma-separated.
pub open spec fn items_text(items: Seq<JsonValue>, n: int) -> Seq<char>
    decreases items, n,
{
    if n <= 0 || n > items.len() {
        Seq::<char>::empty()
    } else if n == 1 {
        json_text(items[0])
    } else {
        items_text(items, n - 1) + seq![','] + json_text(items[n - 1])
    }
}

/// The first `n` entries as `"key":value`, comma-separated.
pub open spec fn entries_text(entries: Seq<(String, JsonValue)>, n: int) -> Seq<char>
    decreases entries, n,
{
    if n <= 0 || n > entries.len() {
        Seq::<char>::empty()
    } else if n == 1 {
        string_text(entries[0].0@) + seq![':'] + json_text(entries[0].1)
    } else {
        entries_text(entries, n - 1) + seq![','] + string_text(entries[n - 1].0@) + seq![':']
            + json_text(entries[n - 1].1)
    }
}

fn hex(d: u32) -> (c: char)
    requires
        d < 16,
    ensures
        c == hex_digit(d as int),
{
    if d < 10 {
        crate::utils::number::digit_of(d as u64)
    } else if d == 10 {
        'a'
    } else if d == 11 {
        'b'
    } else if d == 12 {
        'c'
    } else if d == 13 {
        'd'
    } else if d == 14 {
        'e'
    } else {
        'f'
    }
}

fn push_escaped_char(out: &mut Vec<char>, c: char)
    ensures
        final(out)@ == old(out)@ + escape_json_char(c),
{
    let ghost start = out@;
    if c == '"' {
        out.push('\\');
        out.push('"');
    } else if c == '\\' {
        out.push('\\');
        out.push('\\');
    } else if c == '\u{8}' {
        out.push('\\');
        out.push('b');
    } else if c == '\t' {
        out.push('\\');
        out.push('t');
    } else if c == '\n' {
        out.push('\\');
        out.push('n');
    } else if c == '\u{c}' {
        out.push('\\');
        out.push('f');
    } else if c == '\r' {
        out.push('\\');
        out.push('r');
    } else if (c as u32) < 0x20 {
        let b = c as u32;
        out.push('\\');
        out.push('u');
        out.push('0');
        out.push('0');
        out.push(hex(b / 16));
        out.push(hex(b % 16));
    } else {
        out.push(c);
    }
    assert(out@ =~= start + escape_json_char(c));
}

/// Appends `s` as a JSON string literal.
pub fn push_string_text(out: &mut Vec<char>, s: &str)
    ensures
        final(out)@ == old(out)@ + string_text(s@),
{
    let ghost start = out@;
    let v = crate::utils::text::chars_of(s);
    out.push('"');
    let mut i: usize = 0;
    while i < v.len()
        invariant
            i <= v@.len(),
            out@ == start + seq!['"'] + escaped(v@.take(i as int)),
        decreases v@.len() - i,
    {
        push_escaped_char(out, v[i]);
        assert(v@.take(i + 1).drop_last() =~= v@.take(i as int));
        i = i + 1;
    }
    out.push('"');
    assert(v@.take(v@.len() as int) =~= v@);
    assert(out@ =~= start + string_text(s@));
}

/// Appends the compact JSON text of `v`.
pub fn push_json(out: &mut Vec<char>, v: &JsonValue)
    ensures
        final(out)@ == old(out)@ + json_text(*v),
    decreases *v,
{
    let ghost start = out@;
    match v {
        JsonValue::Null => push_str(out, "null"),
        JsonValue::Bool(b) => if *b {
            push_str(out, "true")
        } else {
            push_str(out, "false")
        },
        JsonValue::Number(n) => push_number(out, n),
        JsonValue::String(s) => push_string_text(out, s.as_str()),
        JsonValue::Array(items) => {
            out.push('[');
            let mut i: usize = 0;
            while i < items.len()
                invariant
                    i <= items@.len(),
                    *v == JsonValue::Array(*items),
                    out@ == start + seq!['['] + items_text(items@, i as int),
                decreases items@.len() - i,
            {
                if i > 0 {
                    out.push(',');
                }
                proof {
                    assert(decreases_to!(*v => v->Array_0));
                    assert(decreases_to!(*items => items@));
                    assert(decreases_to!(items@ => items@[i as int]));
                }
                push_json(out, &items[i]);
                assert(out@ =~= start + seq!['['] + items_text(items@, i + 1));
                i = i + 1;
            }
            out.push(']');
            assert(out@ =~= start + json_text(*v));
        },
        JsonValue::Object(entries) => {
            out.push('{');
            let mut i: usize = 0;
            while i < entries.len()
                invariant
                    i <= entries@.len(),
                    *v == JsonValue::Object(*entries),
                    out@ == start + seq!['{'] + entries_text(entries@, i as int),
                decreases entries@.len() - i,
            {
                if i > 0 {
                    out.push(',');
                }
                push_string_text(out, entries[i].0.as_str());
                out.push(':');
                proof {
                    assert(decreases_to!(*v => v->Object_0));
                    assert(decreases_to!(*entries => entries@));
                    assert(decreases_to!(entries@ => entries@[i as int]));
                    assert(decreases_to!(entries@[i as int] => entries@[i as int].1));
                }
                push_json(out, &entries[i].1);
                assert(out@ =~= start + seq!['{'] + entries_text(entries@, i + 1));
                i = i + 1;
            }
            out.push('}');
            assert(out@ =~= start + json_text(*v));
        },
    }
}

/// Compact JSON text of `v` (`Value`'s `Display`).
pub fn to_json_string(v: &JsonValue) -> (r: String)
    ensures
        r@ == json_text(*v),
{
    let mut out: Vec<char> = Vec::new();
    push_json(&mut out, v);
    assert(out@ =~= json_text(*v));
    string_from_chars(&out)
}

// ---------------------------------------------------------------------------
// The mathematical model of a JSON value
// ---------------------------------------------------------------------------

/// A JSON value as mathematics sees it: integers as `int`, texts as
/// character sequences, arrays and objects as sequences.
pub enum JModel {
    Null,
    Bool(bool),
    Int(int),
    /// A floating-point number, by its JSON text.
    Float(Seq<char>),
    Str(Seq<char>),
    Arr(Seq<JModel>),
    Obj(Seq<(Seq<char>, JModel)>),
}

pub open spec fn model(v: JsonValue) -> JModel
    decreases v, 0int,
{
    match v {
        JsonValue::Null => JModel::Null,
        JsonValue::Bool(b) => JModel::Bool(b),
        JsonValue::Number(JsonNumber::PosInt(u)) => JModel::Int(u as int),
        JsonValue::Number(JsonNumber::NegInt(i)) => JModel::Int(i as int),
        JsonValue::Number(JsonNumber::Float(s)) => JModel::Float(s@),
        JsonValue::String(s) => JModel::Str(s@),
        JsonValue::Array(items) => JModel::Arr(model_items(items@, items@.len() as int)),
        JsonValue::Object(entries) => JModel::Obj(model_entries(entries@, entries@.len() as int)),
    }
}

/// Models of the first `n` items.
pub open spec fn model_items(items: Seq<JsonValue>, n: int) -> Seq<JModel>
    decreases items, n,
{
    if n <= 0 || n > items.len() {
        Seq::empty()
    } else {
        model_items(items, n - 1).push(model(items[n - 1]))
    }
}

/// Models of the first `n` entries.
pub open spec fn model_entries(entries: Seq<(String, JsonValue)>, n: int) -> Seq<(Seq<char>, JModel)>
    decreases entries, n,
{
    if n <= 0 || n > entries.len() {
        Seq::empty()
    } else {
        model_entries(entries, n - 1).push((entries[n - 1].0@, model(entries[n - 1].1)))
    }
}

pub proof fn lemma_model_items_len(items: Seq<JsonValue>, n: int)
    requires
        0 <= n <= items.len(),
    ensures
        model_items(items, n).len() == n,
        forall|k: int| 0 <= k < n ==> #[trigger] model_items(items, n)[k] == model(items[k]),
    decreases n,
{
    if n > 0 {
        lemma_model_items_len(items, n - 1);
    }
}

pub proof fn lemma_model_entries_len(entries: Seq<(String, JsonValue)>, n: int)
    requires
        0 <= n <= entries.len(),
    ensures
        model_entries(entries, n).len() == n,
        forall|k: int|
            0 <= k < n ==> #[trigger] model_entries(entries, n)[k] == (
                entries[k].0@,
                model(entries[k].1),
            ),
    decreases n,
{
    if n > 0 {
        lemma_model_entries_len(entries, n - 1);
    }
}

/// The model of an array, item by item.
pub proof fn lemma_model_array(items: Vec<JsonValue>)
    ensures
        model(JsonValue::Array(items)) matches JModel::Arr(m) && m.len() == items@.len() && (
        forall|k: int| 0 <= k < items@.len() ==> #[trigger] m[k] == model(items@[k])),
{
    lemma_model_items_len(items@, items@.len() as int);
}

/// The model of an object, entry by entry.
pub proof fn lemma_model_object(entries: Vec<(String, JsonValue)>)
    ensures
        model(JsonValue::Object(entries)) matches JModel::Obj(m) && m.len() == entries@.len() && (
        forall|k: int|
            0 <= k < entries@.len() ==> #[trigger] m[k] == (
                entries@[k].0@,
                model(entries@[k].1),
            )),
{
    lemma_model_entries_len(entries@, entries@.len() as int);
}

/// Models of a list of values.
pub open spec fn models_of(items: Seq<JsonValue>) -> Seq<JModel> {
    items.map_values(|x: JsonValue| model(x))
}

/// Models of a list of object entries.
pub open spec fn entry_models(entries: Seq<(String, JsonValue)>) -> Seq<(Seq<char>, JModel)> {
    entries.map_values(|e: (String, JsonValue)| (e.0@, model(e.1)))
}

/// A JSON array of the given items.
pub fn array_value(items: Vec<JsonValue>) -> (v: JsonValue)
    ensures
        model(v) == JModel::Arr(models_of(items@)),
{
    proof {
        lemma_model_array(items);
        let m = model(JsonValue::Array(items))->Arr_0;
        assert(m =~= models_of(items@));
    }
    JsonValue::Array(items)
}

/// A JSON object of the given entries, in order.
pub fn object_value(entries: Vec<(String, JsonValue)>) -> (v: JsonValue)
    ensures
        model(v) == JModel::Obj(entry_models(entries@)),
{
    proof {
        lemma_model_object(entries);
        let m = model(JsonValue::Object(entries))->Obj_0;
        assert(m =~= entry_models(entries@));
    }
    JsonValue::Object(entries)
}

/// A JSON string.
pub fn string_value(s: String) -> (v: JsonValue)
    ensures
        model(v) == JModel::Str(s@),
        v == JsonValue::String(s),
{
    JsonValue::String(s)
}

/// An object entry `key: value`.
pub fn entry(key: &str, value: JsonValue) -> (e: (String, JsonValue))
    ensures
        e.0@ == key@,
        e.1 == value,
{
    (crate::utils::text::string_of(key), value)
}

// ---------------------------------------------------------------------------
// Reading JSON string literals back
// ---------------------------------------------------------------------------

/// The value of a hexadecimal digit, -1 for anything else.
pub open spec fn hex_value(c: char) -> int {
    if '0' <= c && c <= '9' {
        c as int - '0' as int
    } else if 'a' <= c && c <= 'f' {
        c as int - 'a' as int + 10
    } else if 'A' <= c && c <= 'F' {
        c as int - 'A' as int + 10
    } else {
        -1
    }
}

/// The character a two-character escape `\c` stands for (RFC 8259, 7).
pub open spec fn short_escape(c: char) -> Option<char> {
    if c == '"' {
        Some('"')
    } else if c == '\\' {
        Some('\\')
    } else if c == '/' {
        Some('/')
    } else if c == 'b' {
        Some('\u{8}')
    } else if c == 'f' {
        Some('\u{c}')
    } else if c == 'n' {
        Some('\n')
    } else if c == 'r' {
        Some('\r')
    } else if c == 't' {
        Some('\t')
    } else {
        None
    }
}

/// The code point of the four hex digits after `\u` at the start of `t`.
pub open spec fn u_escape_value(t: Seq<char>) -> int {
    hex_value(t[2]) * 4096 + hex_value(t[3]) * 256 + hex_value(t[4]) * 16 + hex_value(t[5])
}

pub open spec fn is_u_escape(t: Seq<char>) -> bool {
    &&& t.len() >= 6
    &&& t[0] == '\\'
    &&& t[1] == 'u'
    &&& hex_value(t[2]) >= 0 && hex_value(t[3]) >= 0 && hex_value(t[4]) >= 0 && hex_value(t[5])
        >= 0
    &&& (u_escape_value(t) < 0xD800 || 0xE000 <= u_escape_value(t))
}

/// What the body of a JSON string literal stands for, read as RFC 8259
/// section 7 describes (surrogate pairs aside): `None` when the body is not
/// well formed, that is when it holds an unescaped `"` or control
/// character, or an escape that is not one.
pub open spec fn unescape(t: Seq<char>) -> Option<Seq<char>>
    decreases t.len(),
{
    if t.len() == 0 {
        Some(Seq::empty())
    } else if t[0] == '\\' {
        if t.len() >= 2 && short_escape(t[1]) is Some {
            match unescape(t.skip(2)) {
                Some(r) => Some(seq![short_escape(t[1])->0] + r),
                None => None,
            }
        } else if is_u_escape(t) {
            match unescape(t.skip(6)) {
                Some(r) => Some(seq![u_escape_value(t) as char] + r),
                None => None,
            }
        } else {
            None
        }
    } else if t[0] == '"' || (t[0] as int) < 0x20 {
        None
    } else {
        match unescape(t.skip(1)) {
            Some(r) => Some(seq![t[0]] + r),
            None => None,
        }
    }
}

/// The string a JSON string literal `t` stands for, if it is one.
pub open spec fn read_json_string(t: Seq<char>) -> Option<Seq<char>> {
    if t.len() >= 2 && t[0] == '"' && t.last() == '"' {
        unescape(t.subrange(1, t.len() - 1))
    } else {
        None
    }
}

proof fn lemma_hex_digit_value(d: int)
    requires
        0 <= d < 16,
    ensures
        hex_value(hex_digit(d)) == d,
{
}

proof fn lemma_unescape_one(c: char, rest: Seq<char>)
    ensures
        unescape(escape_json_char(c) + rest) == (match unescape(rest) {
            Some(r) => Some(seq![c] + r),
            None => None,
        }),
{
    let t = escape_json_char(c) + rest;
    if escape_json_char(c).len() == 2 {
        assert(t.skip(2) =~= rest);
    } else if escape_json_char(c).len() == 6 {
        let v = c as int;
        lemma_hex_digit_value(v / 16);
        lemma_hex_digit_value(v % 16);
        assert(hex_value('0') == 0);
        assert(t[2] == '0' && t[3] == '0');
        assert(u_escape_value(t) == v);
        assert(is_u_escape(t));
        assert(t.skip(6) =~= rest);
        assert((v as char) == c);
    } else {
        assert(t[0] == c);
        assert(t.skip(1) =~= rest);
    }
}

proof fn lemma_escaped_append(a: Seq<char>, b: Seq<char>)
    ensures
        escaped(a + b) == escaped(a) + escaped(b),
    decreases b.len(),
{
    if b.len() == 0 {
        assert(a + b =~= a);
        assert(escaped(a) + escaped(b) =~= escaped(a));
    } else {
        lemma_escaped_append(a, b.drop_last());
        assert((a + b).drop_last() =~= a + b.drop_last());
        assert((a + b).last() == b.last());
    }
}

/// Reading back the escaped text of `s` gives exactly `s`: every character,
/// control characters included, is written as a sequence that reads as
/// that same character.
pub proof fn law_escaped_reads_back(s: Seq<char>)
    ensures
        unescape(escaped(s)) == Some(s),
    decreases s.len(),
{
    if s.len() > 0 {
        let rest = s.drop_first();
        lemma_escaped_append(seq![s[0]], rest);
        assert(seq![s[0]] + rest =~= s);
        let one = seq![s[0]];
        assert(one.drop_last() =~= Seq::<char>::empty());
        assert(one.last() == s[0]);
        assert(escaped(one) == escaped(one.drop_last()) + escape_json_char(one.last()));
        assert(escaped(one) =~= escape_json_char(s[0]));
        law_escaped_reads_back(rest);
        lemma_unescape_one(s[0], escaped(rest));
        assert(seq![s[0]] + rest =~= s);
    }
}

/// A JSON string literal, and the JSON text of a string value, read back as
/// exactly the string written.
pub proof fn law_string_text_reads_back(s: Seq<char>, v: String)
    ensures
        read_json_string(string_text(s)) == Some(s),
        read_json_string(json_text(JsonValue::String(v))) == Some(v@),
{
    law_escaped_reads_back(s);
    let t = string_text(s);
    assert(t.subrange(1, t.len() - 1) =~= escaped(s));
    law_escaped_reads_back(v@);
    let u = string_text(v@);
    assert(u.subrange(1, u.len() - 1) =~= escaped(v@));
}

/// Only `"`, `\\` and the control characters are escaped; every other
/// character is written as itself.
pub proof fn law_plain_characters_unescaped(c: char)
    ensures
        escape_json_char(c) == seq![c] <==> !(c == '"' || c == '\\' || (c as int) < 0x20),
{
    if c == '"' || c == '\\' || (c as int) < 0x20 {
        assert(escape_json_char(c).len() >= 2);
        assert(seq![c].len() == 1);
    }
}

/// The control characters with a two-character escape (backspace, tab, line
/// feed, form feed, carriage return) are written that way; every other
/// control character as `\u00` and two lowercase hexadecimal digits; `"`
/// and `\\` with a backslash before them.
pub proof fn law_control_escapes(c: char)
    ensures
        (c == '\u{8}' || c == '\t' || c == '\n' || c == '\u{c}' || c == '\r' || c == '"' || c
            == '\\') ==> escape_json_char(c).len() == 2 && escape_json_char(c)[0] == '\\',
        (c as int) < 0x20 && !(c == '\u{8}' || c == '\t' || c == '\n' || c == '\u{c}' || c
            == '\r') ==> escape_json_char(c).len() == 6 && escape_json_char(c).take(4) == seq![
            '\\',
            'u',
            '0',
            '0',
        ] && !('A' <= escape_json_char(c)[4] <= 'F') && !('A' <= escape_json_char(c)[5] <= 'F'),
{
    if (c as int) < 0x20 && !(c == '\u{8}' || c == '\t' || c == '\n' || c == '\u{c}' || c == '\r') {
        assert(escape_json_char(c).take(4) =~= seq!['\\', 'u', '0', '0']);
    }
}

proof fn lemma_items_text_join(items: Seq<JsonValue>, n: int)
    requires
        0 <= n <= items.len(),
    ensures
        items_text(items, n) == join(items.take(n).map_values(|x: JsonValue| json_text(x)), seq![',']),
    decreases n,
{
    let m = items.take(n).map_values(|x: JsonValue| json_text(x));
    if n == 0 {
        assert(m =~= Seq::<Seq<char>>::empty());
    } else if n == 1 {
        assert(m =~= seq![json_text(items[0])]);
    } else {
        lemma_items_text_join(items, n - 1);
        assert(m.drop_last() =~= items.take(n - 1).map_values(|x: JsonValue| json_text(x)));
    }
}

/// The text of one object entry: the key as a string literal, `:`, the value.
pub open spec fn entry_text(e: (String, JsonValue)) -> Seq<char> {
    string_text(e.0@) + seq![':'] + json_text(e.1)
}

proof fn lemma_entries_text_join(entries: Seq<(String, JsonValue)>, n: int)
    requires
        0 <= n <= entries.len(),
    ensures
        entries_text(entries, n) == join(
            entries.take(n).map_values(|e: (String, JsonValue)| entry_text(e)),
            seq![','],
        ),
    decreases n,
{
    let m = entries.take(n).map_values(|e: (String, JsonValue)| entry_text(e));
    if n == 0 {
        assert(m =~= Seq::<Seq<char>>::empty());
    } else if n == 1 {
        assert(m =~= seq![entry_text(entries[0])]);
    } else {
        lemma_entries_text_join(entries, n - 1);
        assert(m.drop_last() =~= entries.take(n - 1).map_values(
            |e: (String, JsonValue)| entry_text(e),
        ));
        assert(entries_text(entries, n) =~= entries_text(entries, n - 1) + seq![','] + entry_text(
            entries[n - 1],
        ));
    }
}

/// The compact JSON text of each kind of value: `null`, `true`, `false`;
/// an unsigned number as its decimal digits, whose value it is; a negative
/// number as text that parses back to it; a string as a literal that reads
/// back to it; an array as its items' texts between `[` and `]`, separated
/// by `,`; an object as its entries' `"key":value` texts between `{` and
/// `}`, separated by `,`, in order.
pub proof fn law_json_text_shape(v: JsonValue)
    ensures
        v == JsonValue::Null ==> json_text(v) == seq!['n', 'u', 'l', 'l'],
        v == JsonValue::Bool(true) ==> json_text(v) == seq!['t', 'r', 'u', 'e'],
        v == JsonValue::Bool(false) ==> json_text(v) == seq!['f', 'a', 'l', 's', 'e'],
        v matches JsonValue::Number(JsonNumber::PosInt(u)) ==> all_digits(json_text(v))
            && json_text(v).len() > 0 && digits_value(json_text(v)) == u,
        v matches JsonValue::Number(JsonNumber::NegInt(i)) ==> parse_i64_spec(json_text(v)) == Some(
            i as int,
        ),
        v matches JsonValue::Number(JsonNumber::Float(t)) ==> json_text(v) == t@,
        v matches JsonValue::String(t) ==> read_json_string(json_text(v)) == Some(t@),
        v matches JsonValue::Array(items) ==> json_text(v) == seq!['['] + join(
            items@.map_values(|x: JsonValue| json_text(x)),
            seq![','],
        ) + seq![']'],
        v matches JsonValue::Object(entries) ==> json_text(v) == seq!['{'] + join(
            entries@.map_values(|e: (String, JsonValue)| entry_text(e)),
            seq![','],
        ) + seq!['}'],
{
    reveal_strlit("null");
    reveal_strlit("true");
    reveal_strlit("false");
    match v {
        JsonValue::Null => {
            assert("null"@ =~= seq!['n', 'u', 'l', 'l']);
        },
        JsonValue::Bool(b) => {
            assert("true"@ =~= seq!['t', 'r', 'u', 'e']);
            assert("false"@ =~= seq!['f', 'a', 'l', 's', 'e']);
        },
        JsonValue::Number(JsonNumber::PosInt(u)) => {
            lemma_dec_reads_back(u as nat);
        },
        JsonValue::Number(JsonNumber::NegInt(i)) => {
            law_i64_text_reads_back(i);
        },
        JsonValue::Number(JsonNumber::Float(_)) => {},
        JsonValue::String(t) => {
            law_string_text_reads_back(t@, t);
        },
        JsonValue::Array(items) => {
            lemma_items_text_join(items@, items@.len() as int);
            assert(items@.take(items@.len() as int) =~= items@);
        },
        JsonValue::Object(entries) => {
            lemma_entries_text_join(entries@, entries@.len() as int);
            assert(entries@.take(entries@.len() as int) =~= entries@);
        },
    }
}

} // verus!
