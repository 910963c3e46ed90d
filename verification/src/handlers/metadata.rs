//! Schema metadata from the Informix system catalogs (`systables`,
//! `syscolumns`, `sysindexes`, `sysconstraints`, `sysreferences`, `sysviews`,
//! `sysprocedures`, ...).
//!
//! This module writes the catalog queries and turns their result rows into
//! the JSON the host expects; the caller runs the queries. Schemas (owners)
//! are not exposed as a separate namespace; tables are listed and referenced
//! unqualified within the connected database.

use std::collections::{HashMap, HashSet};

use vstd::prelude::*;

use crate::json::{
    array_value, entry, entry_models, model, models_of, number_text, number_to_string,
    object_value, string_value, JModel, JsonNumber, JsonValue,
};
use crate::models::{connection_params, inner_params, split_on_at_spec};
use crate::utils::number::{dec, int_dec, parse_i64, parse_i64_spec, push_i64, push_u64};
use crate::utils::text::{
    chars_of, opt_view, push_chars, push_range, push_str, str_eq, string_from_chars, string_of,
    trim, trim_bounds, trim_str,
};
use crate::utils::types::{decode_default, decode_default_spec, decode_type, decode_type_spec, ext_spec, NOT_NULL_BIT, base_code, is_auto_increment_code};
use crate::utils::values::{quote_string, SQUOTE};
use crate::utils::identifiers::enclosed;

verus! {

// ---------------------------------------------------------------------------
// Row cells
// ---------------------------------------------------------------------------

/// A cell read as an integer: a JSON integer in range, text whose trimmed
/// form parses as one, and 0 otherwise (or when the cell is missing).
pub open spec fn cint_spec(row: Seq<JsonValue>, i: int) -> i64 {
    if 0 <= i < row.len() {
        match row[i] {
            JsonValue::Number(_) => match row[i].spec_as_i64() {
                Some(k) => k,
                None => 0,
            },
            JsonValue::String(s) => match parse_i64_spec(trim(s@)) {
                Some(k) => k as i64,
                None => 0,
            },
            _ => 0,
        }
    } else {
        0
    }
}

/// A cell read as text: a string as is, a number as its JSON text, and
/// empty otherwise (or when the cell is missing).
pub open spec fn cstr_spec(row: Seq<JsonValue>, i: int) -> Seq<char> {
    if 0 <= i < row.len() {
        match row[i] {
            JsonValue::String(s) => s@,
            JsonValue::Number(n) => number_text(n),
            _ => Seq::empty(),
        }
    } else {
        Seq::empty()
    }
}

pub fn cint(row: &Vec<JsonValue>, i: usize) -> (r: i64)
    ensures
        r == cint_spec(row@, i as int),
{
    if i >= row.len() {
        return 0;
    }
    match &row[i] {
        JsonValue::Number(_) => match row[i].as_i64() {
            Some(k) => k,
            None => 0,
        },
        JsonValue::String(s) => {
            let v = chars_of(s.as_str());
            let (a, b) = trim_bounds(&v);
            let mut t: Vec<char> = Vec::new();
            push_range(&mut t, &v, a, b);
            match parse_i64(&t) {
                Some(k) => k,
                None => 0,
            }
        },
        _ => 0,
    }
}

pub fn cstr(row: &Vec<JsonValue>, i: usize) -> (r: String)
    ensures
        r@ == cstr_spec(row@, i as int),
{
    if i >= row.len() {
        return String::new();
    }
    match &row[i] {
        JsonValue::String(s) => s.clone(),
        JsonValue::Number(n) => number_to_string(n),
        _ => String::new(),
    }
}

/// The first column of each row, as text.
pub open spec fn first_column_texts(rows: Seq<Vec<JsonValue>>) -> Seq<Seq<char>> {
    rows.map_values(|r: Vec<JsonValue>| cstr_spec(r@, 0))
}

/// The first column of each row, as text.
pub fn names_from_rows(rows: &Vec<Vec<JsonValue>>) -> (r: Vec<String>)
    ensures
        r@.map_values(|s: String| s@) == first_column_texts(rows@),
{
    let mut out: Vec<String> = Vec::new();
    let mut i: usize = 0;
    while i < rows.len()
        invariant
            i <= rows@.len(),
            out@.map_values(|s: String| s@) == first_column_texts(rows@.take(i as int)),
        decreases rows@.len() - i,
    {
        let ghost before = out@.map_values(|s: String| s@);
        let c = cstr(&rows[i], 0);
        let ghost cv = c@;
        out.push(c);
        assert(out@.map_values(|s: String| s@) =~= before.push(cv));
        assert(first_column_texts(rows@.take(i + 1)) =~= first_column_texts(rows@.take(i as int)).push(
            cstr_spec(rows@[i as int]@, 0),
        ));
        i = i + 1;
    }
    assert(rows@.take(rows@.len() as int) =~= rows@);
    out
}

/// The concatenated first column of all rows (a view or routine body
/// stored in pieces).
pub open spec fn concat_texts(rows: Seq<Vec<JsonValue>>) -> Seq<char>
    decreases rows.len(),
{
    if rows.len() == 0 {
        Seq::empty()
    } else {
        concat_texts(rows.drop_last()) + cstr_spec(rows.last()@, 0)
    }
}

pub fn definition_from_rows(rows: &Vec<Vec<JsonValue>>) -> (r: String)
    ensures
        r@ == concat_texts(rows@),
{
    let mut out: Vec<char> = Vec::new();
    let mut i: usize = 0;
    while i < rows.len()
        invariant
            i <= rows@.len(),
            out@ == concat_texts(rows@.take(i as int)),
        decreases rows@.len() - i,
    {
        let c = cstr(&rows[i], 0);
        push_str(&mut out, c.as_str());
        assert(rows@.take(i + 1).drop_last() =~= rows@.take(i as int));
        i = i + 1;
    }
    assert(rows@.take(rows@.len() as int) =~= rows@);
    string_from_chars(&out)
}

// ---------------------------------------------------------------------------
// Index parts and column-number lookups
// ---------------------------------------------------------------------------

/// `i64::abs` as a release build computes it (wrapping at `i64::MIN`).
pub open spec fn wabs(p: i64) -> i64 {
    if p == i64::MIN {
        p
    } else if p < 0 {
        (-p) as i64
    } else {
        p
    }
}

/// Absolute values of the non-zero cells among the `n` cells of `row` from
/// `start` on (the `part1..part16` columns of `sysindexes`).
pub open spec fn parts_of(row: Seq<JsonValue>, start: int, n: nat) -> Seq<i64>
    decreases n,
{
    if n == 0 {
        Seq::empty()
    } else {
        let prev = parts_of(row, start, (n - 1) as nat);
        let p = cint_spec(row, start + n - 1);
        if p != 0 {
            prev.push(wabs(p))
        } else {
            prev
        }
    }
}

/// The index column numbers held in the sixteen part cells of `row` from
/// `start` on, without the empty (zero) parts.
pub fn part_colnos(row: &Vec<JsonValue>, start: usize) -> (r: Vec<i64>)
    requires
        start + 16 <= usize::MAX,
    ensures
        r@ == parts_of(row@, start as int, 16),
{
    let mut out: Vec<i64> = Vec::new();
    let mut i: usize = 0;
    while i < 16
        invariant
            i <= 16,
            start + 16 <= usize::MAX,
            out@ == parts_of(row@, start as int, i as nat),
        decreases 16 - i,
    {
        let p = cint(row, start + i);
        if p != 0 {
            let a = if p == i64::MIN {
                p
            } else if p < 0 {
                -p
            } else {
                p
            };
            out.push(a);
        }
        i = i + 1;
    }
    out
}

/// Column numbers and names as the catalog lists them.
pub open spec fn colno_entries(rows: Seq<Vec<JsonValue>>) -> Seq<(i64, Seq<char>)> {
    rows.map_values(|r: Vec<JsonValue>| (cint_spec(r@, 0), cstr_spec(r@, 1)))
}

/// Column numbers mapped to names, filled in catalog order (the last entry
/// for a number wins, as in a map filled in order).
pub open spec fn entries_map(entries: Seq<(i64, Seq<char>)>) -> Map<i64, Seq<char>>
    decreases entries.len(),
{
    if entries.len() == 0 {
        Map::empty()
    } else {
        entries_map(entries.drop_last()).insert(entries.last().0, entries.last().1)
    }
}

/// The name a map gives column number `k`, if any.
pub open spec fn name_of(names: Map<i64, Seq<char>>, k: i64) -> Option<Seq<char>> {
    if names.contains_key(k) {
        Some(names[k])
    } else {
        None
    }
}

/// A map of names by the characters of each name.
pub open spec fn names_view(m: Map<i64, String>) -> Map<i64, Seq<char>> {
    m.map_values(|s: String| s@)
}

/// Maps column numbers to names, from the rows of `colno_names_sql`.
pub fn colno_names(rows: &Vec<Vec<JsonValue>>) -> (r: HashMap<i64, String>)
    ensures
        names_view(r@) == entries_map(colno_entries(rows@)),
{
    let mut out: HashMap<i64, String> = HashMap::new();
    let mut i: usize = 0;
    assert(names_view(out@) =~= entries_map(colno_entries(rows@.take(0))));
    while i < rows.len()
        invariant
            i <= rows@.len(),
            names_view(out@) == entries_map(colno_entries(rows@.take(i as int))),
        decreases rows@.len() - i,
    {
        let ghost before = names_view(out@);
        let k = cint(&rows[i], 0);
        let n = cstr(&rows[i], 1);
        let ghost nv = n@;
        out.insert(k, n);
        assert(names_view(out@) =~= before.insert(k, nv));
        assert(colno_entries(rows@.take(i + 1)).drop_last() =~= colno_entries(rows@.take(i as int)));
        i = i + 1;
    }
    assert(rows@.take(rows@.len() as int) =~= rows@);
    out
}

/// The name recorded for column number `k`.
pub fn lookup_name(names: &HashMap<i64, String>, k: i64) -> (r: Option<String>)
    ensures
        opt_view(r) == name_of(names_view(names@), k),
{
    match names.get(&k) {
        Some(n) => Some(n.clone()),
        None => None,
    }
}

/// Names of the given column numbers, skipping those without a name.
pub open spec fn resolve_parts(parts: Seq<i64>, names: Map<i64, Seq<char>>) -> Seq<Seq<char>>
    decreases parts.len(),
{
    if parts.len() == 0 {
        Seq::empty()
    } else {
        resolve_parts(parts.drop_last(), names) + (match name_of(names, parts.last()) {
            Some(n) => seq![n],
            None => Seq::empty(),
        })
    }
}

/// Parts of the first row, when there is one.
pub open spec fn first_row_parts(rows: Seq<Vec<JsonValue>>, start: int) -> Seq<i64> {
    if rows.len() > 0 {
        parts_of(rows[0]@, start, 16)
    } else {
        Seq::empty()
    }
}

/// Column numbers in the primary key, from the rows of `pk_colnos_sql`.
pub fn pk_colnos(rows: &Vec<Vec<JsonValue>>) -> (r: HashSet<i64>)
    ensures
        r@ == first_row_parts(rows@, 0).to_set(),
{
    let parts = first_parts(rows);
    let mut out: HashSet<i64> = HashSet::new();
    let mut i: usize = 0;
    while i < parts.len()
        invariant
            i <= parts@.len(),
            out@ == parts@.take(i as int).to_set(),
        decreases parts@.len() - i,
    {
        assert(parts@.take(i + 1) =~= parts@.take(i as int).push(parts@[i as int]));
        proof {
            parts@.take(i as int).lemma_push_to_set_commute(parts@[i as int]);
        }
        out.insert(parts[i]);
        i = i + 1;
    }
    assert(parts@.take(parts@.len() as int) =~= parts@);
    out
}

/// The parts of the first row, in part order.
fn first_parts(rows: &Vec<Vec<JsonValue>>) -> (r: Vec<i64>)
    ensures
        r@ == first_row_parts(rows@, 0),
{
    if rows.len() > 0 {
        part_colnos(&rows[0], 0)
    } else {
        Vec::new()
    }
}

/// An index's columns in key order, from the rows of `index_parts_sql`
/// (descending parts use the absolute column number).
pub fn index_part_cols(rows: &Vec<Vec<JsonValue>>, names: &HashMap<i64, String>) -> (r: Vec<String>)
    ensures
        r@.map_values(|s: String| s@) == resolve_parts(first_row_parts(rows@, 0), names_view(names@)),
{
    let parts = first_parts(rows);
    let mut out: Vec<String> = Vec::new();
    let mut i: usize = 0;
    while i < parts.len()
        invariant
            i <= parts@.len(),
            parts@ == first_row_parts(rows@, 0),
            out@.map_values(|s: String| s@) == resolve_parts(parts@.take(i as int), names_view(names@)),
        decreases parts@.len() - i,
    {
        let ghost before = out@.map_values(|s: String| s@);
        assert(parts@.take(i + 1).drop_last() =~= parts@.take(i as int));
        match lookup_name(names, parts[i]) {
            Some(n) => {
                let ghost nv = n@;
                out.push(n);
                assert(out@.map_values(|s: String| s@) =~= before.push(nv));
            },
            None => {},
        }
        i = i + 1;
    }
    assert(parts@.take(parts@.len() as int) =~= parts@);
    out
}

// ---------------------------------------------------------------------------
// Catalog queries
// ---------------------------------------------------------------------------

/// `part1, part2, ..., partn`.
pub open spec fn part_list(n: nat) -> Seq<char>
    decreases n,
{
    if n == 0 {
        Seq::empty()
    } else if n == 1 {
        "part1"@
    } else {
        part_list((n - 1) as nat) + ", part"@ + dec(n)
    }
}

/// `part1, part2, ..., part16` for use in a SELECT list.
pub fn part_columns() -> (r: String)
    ensures
        r@ == part_list(16),
{
    let mut out: Vec<char> = Vec::new();
    let mut n: u64 = 1;
    while n <= 16
        invariant
            1 <= n <= 17,
            out@ == part_list((n - 1) as nat),
        decreases 17 - n,
    {
        if n > 1 {
            push_str(&mut out, ", ");
        }
        push_str(&mut out, "part");
        push_u64(&mut out, n);
        proof {
            reveal_strlit("part");
            if n == 1 {
                reveal_strlit("part1");
                assert(dec(1) =~= seq!['1']);
            } else {
                reveal_strlit(", part");
                reveal_strlit(", ");
                assert(", part"@ =~= ", "@ + "part"@);
            }
        }
        assert(out@ =~= part_list(n as nat));
        n = n + 1;
    }
    string_from_chars(&out)
}

pub open spec fn list_objects_spec(tabtype: Seq<char>) -> Seq<char> {
    "SELECT TRIM(tabname) FROM systables WHERE tabid >= 100 AND tabtype = '"@ + tabtype
        + "' ORDER BY tabname"@
}

/// Lists user object names of the given `tabtype` ('T' table, 'V' view).
pub fn list_objects_sql(tabtype: &str) -> (r: String)
    ensures
        r@ == list_objects_spec(tabtype@),
{
    let mut out: Vec<char> = Vec::new();
    push_str(&mut out, "SELECT TRIM(tabname) FROM systables WHERE tabid >= 100 AND tabtype = '");
    push_str(&mut out, tabtype);
    push_str(&mut out, "' ORDER BY tabname");
    assert(out@ =~= list_objects_spec(tabtype@));
    string_from_chars(&out)
}

pub open spec fn tabid_spec(name: Seq<char>) -> Seq<char> {
    "SELECT tabid FROM systables WHERE tabname = "@ + enclosed(name, SQUOTE) + " AND tabid >= 100"@
}

/// Resolves a table/view name to its `tabid`.
pub fn tabid_sql(name: &str) -> (r: String)
    ensures
        r@ == tabid_spec(name@),
{
    let mut out: Vec<char> = Vec::new();
    push_str(&mut out, "SELECT tabid FROM systables WHERE tabname = ");
    let q = quote_string(name);
    push_str(&mut out, q.as_str());
    push_str(&mut out, " AND tabid >= 100");
    assert(out@ =~= tabid_spec(name@));
    string_from_chars(&out)
}

/// The `tabid` a `tabid_sql` result names, if any.
pub fn tabid_from_rows(rows: &Vec<Vec<JsonValue>>) -> (r: Option<i64>)
    ensures
        r == (if rows@.len() > 0 {
            Some(cint_spec(rows@[0]@, 0))
        } else {
            None
        }),
{
    if rows.len() > 0 {
        Some(cint(&rows[0], 0))
    } else {
        None
    }
}

/// `prefix` followed by the decimal text of `n` and `suffix`.
fn sql_with_number(prefix: &str, n: i64, suffix: &str) -> (r: String)
    ensures
        r@ == prefix@ + int_dec(n as int) + suffix@,
{
    let mut out: Vec<char> = Vec::new();
    push_str(&mut out, prefix);
    push_i64(&mut out, n);
    push_str(&mut out, suffix);
    assert(out@ =~= prefix@ + int_dec(n as int) + suffix@);
    string_from_chars(&out)
}

/// Maps column numbers to names for a table.
pub fn colno_names_sql(tabid: i64) -> (r: String)
    ensures
        r@ == "SELECT colno, TRIM(colname) FROM syscolumns WHERE tabid = "@ + int_dec(tabid as int),
{
    let r = sql_with_number("SELECT colno, TRIM(colname) FROM syscolumns WHERE tabid = ", tabid, "");
    proof {
        reveal_strlit("");
    }
    assert(r@ =~= "SELECT colno, TRIM(colname) FROM syscolumns WHERE tabid = "@ + int_dec(tabid as int));
    r
}

pub open spec fn pk_colnos_spec(tabid: i64) -> Seq<char> {
    "SELECT "@ + part_list(16)
        + " FROM sysindexes i JOIN sysconstraints c ON c.idxname = i.idxname AND c.tabid = i.tabid WHERE c.tabid = "@
        + int_dec(tabid as int) + " AND c.constrtype = 'P'"@
}

/// Column numbers participating in the primary key.
pub fn pk_colnos_sql(tabid: i64) -> (r: String)
    ensures
        r@ == pk_colnos_spec(tabid),
{
    let mut out: Vec<char> = Vec::new();
    push_str(&mut out, "SELECT ");
    let parts = part_columns();
    push_str(&mut out, parts.as_str());
    push_str(
        &mut out,
        " FROM sysindexes i JOIN sysconstraints c ON c.idxname = i.idxname AND c.tabid = i.tabid WHERE c.tabid = ",
    );
    push_i64(&mut out, tabid);
    push_str(&mut out, " AND c.constrtype = 'P'");
    assert(out@ =~= pk_colnos_spec(tabid));
    string_from_chars(&out)
}

pub open spec fn index_parts_spec(tabid: i64, idxname: Seq<char>) -> Seq<char> {
    "SELECT "@ + part_list(16) + " FROM sysindexes WHERE tabid = "@ + int_dec(tabid as int)
        + " AND TRIM(idxname) = "@ + enclosed(idxname, SQUOTE)
}

/// An index's part columns. `sysindexes.idxname` is a space-padded CHAR
/// column, so it is TRIMmed before comparing against the (already trimmed)
/// constraint index name.
pub fn index_parts_sql(tabid: i64, idxname: &str) -> (r: String)
    ensures
        r@ == index_parts_spec(tabid, idxname@),
{
    let mut out: Vec<char> = Vec::new();
    push_str(&mut out, "SELECT ");
    let parts = part_columns();
    push_str(&mut out, parts.as_str());
    push_str(&mut out, " FROM sysindexes WHERE tabid = ");
    push_i64(&mut out, tabid);
    push_str(&mut out, " AND TRIM(idxname) = ");
    let q = quote_string(idxname);
    push_str(&mut out, q.as_str());
    assert(out@ =~= index_parts_spec(tabid, idxname@));
    string_from_chars(&out)
}

/// Default expressions per column number.
pub fn defaults_sql(tabid: i64) -> (r: String)
    ensures
        r@ == "SELECT colno, TRIM(type), NVL(default, '') FROM sysdefaults WHERE tabid = "@
            + int_dec(tabid as int),
{
    let r = sql_with_number(
        "SELECT colno, TRIM(type), NVL(default, '') FROM sysdefaults WHERE tabid = ",
        tabid,
        "",
    );
    proof {
        reveal_strlit("");
    }
    assert(r@ =~= "SELECT colno, TRIM(type), NVL(default, '') FROM sysdefaults WHERE tabid = "@
        + int_dec(tabid as int));
    r
}

/// Columns of a table with their type codes and extended-type names.
pub fn columns_sql(tabid: i64) -> (r: String)
    ensures
        r@ == "SELECT TRIM(c.colname), c.coltype, c.collength, c.colno, NVL(TRIM(x.name), '') FROM syscolumns c LEFT OUTER JOIN sysxtdtypes x ON x.extended_id = c.extended_id WHERE c.tabid = "@
            + int_dec(tabid as int) + " ORDER BY c.colno"@,
{
    sql_with_number(
        "SELECT TRIM(c.colname), c.coltype, c.collength, c.colno, NVL(TRIM(x.name), '') FROM syscolumns c LEFT OUTER JOIN sysxtdtypes x ON x.extended_id = c.extended_id WHERE c.tabid = ",
        tabid,
        " ORDER BY c.colno",
    )
}

/// Foreign-key constraints of a table.
pub fn foreign_keys_sql(tabid: i64) -> (r: String)
    ensures
        r@ == "SELECT TRIM(con.constrname), TRIM(con.idxname), r.\"primary\", NVL(TRIM(r.delrule), '') FROM sysconstraints con JOIN sysreferences r ON r.constrid = con.constrid WHERE con.tabid = "@
            + int_dec(tabid as int) + " AND con.constrtype = 'R'"@,
{
    sql_with_number(
        "SELECT TRIM(con.constrname), TRIM(con.idxname), r.\"primary\", NVL(TRIM(r.delrule), '') FROM sysconstraints con JOIN sysreferences r ON r.constrid = con.constrid WHERE con.tabid = ",
        tabid,
        " AND con.constrtype = 'R'",
    )
}

/// The referenced (primary) constraint: table, index and `tabid`.
pub fn parent_constraint_sql(primary_constrid: i64) -> (r: String)
    ensures
        r@ == "SELECT TRIM(pt.tabname), TRIM(pc.idxname), pt.tabid FROM sysconstraints pc JOIN systables pt ON pt.tabid = pc.tabid WHERE pc.constrid = "@
            + int_dec(primary_constrid as int),
{
    let r = sql_with_number(
        "SELECT TRIM(pt.tabname), TRIM(pc.idxname), pt.tabid FROM sysconstraints pc JOIN systables pt ON pt.tabid = pc.tabid WHERE pc.constrid = ",
        primary_constrid,
        "",
    );
    proof {
        reveal_strlit("");
    }
    assert(r@ =~= "SELECT TRIM(pt.tabname), TRIM(pc.idxname), pt.tabid FROM sysconstraints pc JOIN systables pt ON pt.tabid = pc.tabid WHERE pc.constrid = "@
        + int_dec(primary_constrid as int));
    r
}

/// Index names backing a PRIMARY KEY constraint.
pub fn pk_index_names_sql(tabid: i64) -> (r: String)
    ensures
        r@ == "SELECT TRIM(idxname) FROM sysconstraints WHERE tabid = "@ + int_dec(tabid as int)
            + " AND constrtype = 'P'"@,
{
    sql_with_number(
        "SELECT TRIM(idxname) FROM sysconstraints WHERE tabid = ",
        tabid,
        " AND constrtype = 'P'",
    )
}

pub open spec fn indexes_spec(tabid: i64) -> Seq<char> {
    "SELECT TRIM(idxname), TRIM(idxtype), "@ + part_list(16) + " FROM sysindexes WHERE tabid = "@
        + int_dec(tabid as int) + " ORDER BY idxname"@
}

/// Indexes of a table with their type and part columns.
pub fn indexes_sql(tabid: i64) -> (r: String)
    ensures
        r@ == indexes_spec(tabid),
{
    let mut out: Vec<char> = Vec::new();
    push_str(&mut out, "SELECT TRIM(idxname), TRIM(idxtype), ");
    let parts = part_columns();
    push_str(&mut out, parts.as_str());
    push_str(&mut out, " FROM sysindexes WHERE tabid = ");
    push_i64(&mut out, tabid);
    push_str(&mut out, " ORDER BY idxname");
    assert(out@ =~= indexes_spec(tabid));
    string_from_chars(&out)
}

/// The server-wide database list (held by `sysmaster`).
pub const DATABASES_SQL: &'static str = "SELECT TRIM(name) FROM sysmaster:sysdatabases ORDER BY name";

/// User routines, with whether each is a procedure.
pub const ROUTINES_SQL: &'static str =
    "SELECT TRIM(procname), TRIM(isproc) FROM sysprocedures WHERE TRIM(owner) <> 'informix' ORDER BY procname";

/// A view's text, in pieces.
pub fn view_definition_sql(view: &str) -> (r: String)
    ensures
        r@ == "SELECT v.viewtext FROM sysviews v JOIN systables t ON t.tabid = v.tabid WHERE t.tabname = "@
            + enclosed(view@, SQUOTE) + " ORDER BY v.seqno"@,
{
    let mut out: Vec<char> = Vec::new();
    push_str(
        &mut out,
        "SELECT v.viewtext FROM sysviews v JOIN systables t ON t.tabid = v.tabid WHERE t.tabname = ",
    );
    let q = quote_string(view);
    push_str(&mut out, q.as_str());
    push_str(&mut out, " ORDER BY v.seqno");
    assert(out@ =~= "SELECT v.viewtext FROM sysviews v JOIN systables t ON t.tabid = v.tabid WHERE t.tabname = "@
        + enclosed(view@, SQUOTE) + " ORDER BY v.seqno"@);
    string_from_chars(&out)
}

/// A routine's text, in pieces.
pub fn routine_definition_sql(routine: &str) -> (r: String)
    ensures
        r@ == "SELECT b.data FROM sysprocbody b JOIN sysprocedures p ON p.procid = b.procid WHERE p.procname = "@
            + enclosed(routine@, SQUOTE) + " AND b.datakey = 'T' ORDER BY b.seqno"@,
{
    let mut out: Vec<char> = Vec::new();
    push_str(
        &mut out,
        "SELECT b.data FROM sysprocbody b JOIN sysprocedures p ON p.procid = b.procid WHERE p.procname = ",
    );
    let q = quote_string(routine);
    push_str(&mut out, q.as_str());
    push_str(&mut out, " AND b.datakey = 'T' ORDER BY b.seqno");
    assert(out@ =~= "SELECT b.data FROM sysprocbody b JOIN sysprocedures p ON p.procid = b.procid WHERE p.procname = "@
        + enclosed(routine@, SQUOTE) + " AND b.datakey = 'T' ORDER BY b.seqno"@);
    string_from_chars(&out)
}

// ---------------------------------------------------------------------------
// Result rows to host JSON
// ---------------------------------------------------------------------------

/// Decoded defaults per column number, from the rows of `defaults_sql`
/// (rows without a usable default are skipped).
pub open spec fn defaults_entries(rows: Seq<Vec<JsonValue>>) -> Seq<(i64, Seq<char>)>
    decreases rows.len(),
{
    if rows.len() == 0 {
        Seq::empty()
    } else {
        let r = rows.last()@;
        defaults_entries(rows.drop_last()) + (match decode_default_spec(
            cstr_spec(r, 1),
            cstr_spec(r, 2),
        ) {
            Some(d) => seq![(cint_spec(r, 0), d)],
            None => Seq::empty(),
        })
    }
}

/// Default expressions per column number, from the rows of `defaults_sql`.
pub fn defaults_of(rows: &Vec<Vec<JsonValue>>) -> (r: HashMap<i64, String>)
    ensures
        names_view(r@) == entries_map(defaults_entries(rows@)),
{
    let mut out: HashMap<i64, String> = HashMap::new();
    let mut i: usize = 0;
    assert(names_view(out@) =~= entries_map(defaults_entries(rows@.take(0))));
    while i < rows.len()
        invariant
            i <= rows@.len(),
            names_view(out@) == entries_map(defaults_entries(rows@.take(i as int))),
        decreases rows@.len() - i,
    {
        let ghost before = names_view(out@);
        assert(rows@.take(i + 1).drop_last() =~= rows@.take(i as int));
        let t = cstr(&rows[i], 1);
        let x = cstr(&rows[i], 2);
        match decode_default(t.as_str(), x.as_str()) {
            Some(d) => {
                let k = cint(&rows[i], 0);
                let ghost dv = d@;
                out.insert(k, d);
                assert(names_view(out@) =~= before.insert(k, dv));
                assert(defaults_entries(rows@.take(i + 1)).drop_last() =~= defaults_entries(
                    rows@.take(i as int),
                ));
            },
            None => {
                assert(defaults_entries(rows@.take(i + 1)) =~= defaults_entries(
                    rows@.take(i as int),
                ));
            },
        }
        i = i + 1;
    }
    assert(rows@.take(rows@.len() as int) =~= rows@);
    out
}

/// The extended-type name cell as `decode_type` takes it: `None` when empty.
pub open spec fn ext_cell(row: Seq<JsonValue>) -> Option<Seq<char>> {
    if cstr_spec(row, 4).len() == 0 {
        None
    } else {
        Some(cstr_spec(row, 4))
    }
}

/// The `TableColumn` object for one row of `columns_sql`.
pub open spec fn column_entry_model(
    row: Seq<JsonValue>,
    pk: Set<i64>,
    defaults: Map<i64, Seq<char>>,
) -> JModel {
    let coltype = cint_spec(row, 1);
    let colno = cint_spec(row, 3);
    let (sql_type, char_len) = decode_type_spec(coltype, cint_spec(row, 2), ext_spec(ext_cell(row)));
    let base = seq![
        ("name"@, JModel::Str(cstr_spec(row, 0))),
        ("data_type"@, JModel::Str(sql_type)),
        ("is_pk"@, JModel::Bool(pk.contains(colno))),
        ("is_nullable"@, JModel::Bool(!((coltype & NOT_NULL_BIT) != 0))),
        ("is_auto_increment"@, JModel::Bool(is_auto_increment_code(base_code(coltype)))),
    ];
    let with_len = match char_len {
        Some(l) => base.push(("character_maximum_length"@, JModel::Int(l as int))),
        None => base,
    };
    JModel::Obj(
        match name_of(defaults, colno) {
            Some(d) => with_len.push(("default_value"@, JModel::Str(d))),
            None => with_len,
        },
    )
}

/// The `TableColumn` object for one row of `columns_sql`, given the table's
/// primary-key column numbers and decoded defaults.
pub fn column_entry(row: &Vec<JsonValue>, pk: &HashSet<i64>, defaults: &HashMap<i64, String>) -> (v:
    JsonValue)
    ensures
        model(v) == column_entry_model(row@, pk@, names_view(defaults@)),
{
    let colname = cstr(row, 0);
    let coltype = cint(row, 1);
    let collength = cint(row, 2);
    let colno = cint(row, 3);
    let ext = cstr(row, 4);
    let ext_opt: Option<&str> = if ext.as_str().unicode_len() == 0 {
        None
    } else {
        Some(ext.as_str())
    };
    let decoded = decode_type(coltype, collength, ext_opt);
    let is_pk = pk.contains(&colno);
    let mut e: Vec<(String, JsonValue)> = Vec::new();
    e.push(entry("name", string_value(colname)));
    e.push(entry("data_type", string_value(decoded.sql_type)));
    e.push(entry("is_pk", JsonValue::Bool(is_pk)));
    e.push(entry("is_nullable", JsonValue::Bool(!decoded.is_not_null)));
    e.push(entry("is_auto_increment", JsonValue::Bool(decoded.is_auto_increment)));
    match decoded.char_max_len {
        Some(len) => {
            e.push(entry("character_maximum_length", JsonValue::Number(JsonNumber::PosInt(len))));
        },
        None => {},
    }
    match lookup_name(defaults, colno) {
        Some(def) => {
            e.push(entry("default_value", string_value(def)));
        },
        None => {},
    }
    let ghost expected = column_entry_model(row@, pk@, names_view(defaults@));
    assert(entry_models(e@) =~= expected->Obj_0);
    object_value(e)
}

/// The `TableColumn` objects for the rows of `columns_sql`.
pub fn column_entries(rows: &Vec<Vec<JsonValue>>, pk: &HashSet<i64>, defaults: &HashMap<i64, String>) -> (r:
    Vec<JsonValue>)
    ensures
        r@.len() == rows@.len(),
        forall|k: int|
            0 <= k < rows@.len() ==> model(#[trigger] r@[k]) == column_entry_model(
                rows@[k]@,
                pk@,
                names_view(defaults@),
            ),
{
    let mut out: Vec<JsonValue> = Vec::new();
    let mut i: usize = 0;
    while i < rows.len()
        invariant
            i <= rows@.len(),
            out@.len() == i,
            forall|k: int|
                0 <= k < i ==> model(#[trigger] out@[k]) == column_entry_model(
                    rows@[k]@,
                    pk@,
                    names_view(defaults@),
                ),
        decreases rows@.len() - i,
    {
        out.push(column_entry(&rows[i], pk, defaults));
        i = i + 1;
    }
    out
}

/// A foreign-key constraint row of `foreign_keys_sql`.
#[derive(Debug)]
pub struct FkConstraint {
    pub name: String,
    pub child_index: String,
    pub primary_constrid: i64,
    /// `CASCADE` when the delete rule says so.
    pub on_delete: Option<String>,
}

/// Reads one row of `foreign_keys_sql`. Only `ON DELETE CASCADE` (delete
/// rule `C`) is reported; Informix has no `ON UPDATE` actions.
pub fn fk_constraint(row: &Vec<JsonValue>) -> (c: FkConstraint)
    ensures
        c.name@ == cstr_spec(row@, 0),
        c.child_index@ == cstr_spec(row@, 1),
        c.primary_constrid == cint_spec(row@, 2),
        opt_view(c.on_delete) == (if trim(cstr_spec(row@, 3)) == "C"@ {
            Some("CASCADE"@)
        } else {
            None
        }),
{
    let delrule = cstr(row, 3);
    let rule = trim_str(delrule.as_str());
    let on_delete = if str_eq(rule, "C") {
        Some(string_of("CASCADE"))
    } else {
        None
    };
    FkConstraint {
        name: cstr(row, 0),
        child_index: cstr(row, 1),
        primary_constrid: cint(row, 2),
        on_delete,
    }
}

/// The referenced side of a foreign key, from `parent_constraint_sql`.
#[derive(Debug)]
pub struct ParentKey {
    pub ref_table: String,
    pub index: String,
    pub tabid: i64,
}

pub fn parent_key(rows: &Vec<Vec<JsonValue>>) -> (r: Option<ParentKey>)
    ensures
        match r {
            Some(p) => rows@.len() > 0 && p.ref_table@ == cstr_spec(rows@[0]@, 0) && p.index@
                == cstr_spec(rows@[0]@, 1) && p.tabid == cint_spec(rows@[0]@, 2),
            None => rows@.len() == 0,
        },
{
    if rows.len() == 0 {
        return None;
    }
    Some(ParentKey { ref_table: cstr(&rows[0], 0), index: cstr(&rows[0], 1), tabid: cint(&rows[0], 2) })
}

/// The `ForeignKey` object for the `i`-th column of a constraint: the
/// referenced column at the same position (empty when there is none).
pub open spec fn fk_entry_model(
    name: Seq<char>,
    column: Seq<char>,
    ref_table: Seq<char>,
    parent_cols: Seq<Seq<char>>,
    i: int,
    on_delete: Option<Seq<char>>,
) -> JModel {
    JModel::Obj(
        seq![
            ("name"@, JModel::Str(name)),
            ("column_name"@, JModel::Str(column)),
            ("ref_table"@, JModel::Str(ref_table)),
            ("ref_column"@, JModel::Str(if i < parent_cols.len() {
                parent_cols[i]
            } else {
                Seq::empty()
            })),
            ("on_delete"@, match on_delete {
                Some(a) => JModel::Str(a),
                None => JModel::Null,
            }),
            ("on_update"@, JModel::Null),
        ],
    )
}

/// One `ForeignKey` object per column of the constraint, pairing child and
/// parent columns by position.
pub fn fk_entries(
    c: &FkConstraint,
    child_cols: &Vec<String>,
    ref_table: &str,
    parent_cols: &Vec<String>,
) -> (r: Vec<JsonValue>)
    ensures
        r@.len() == child_cols@.len(),
        forall|i: int|
            0 <= i < child_cols@.len() ==> model(#[trigger] r@[i]) == fk_entry_model(
                c.name@,
                child_cols@[i]@,
                ref_table@,
                parent_cols@.map_values(|s: String| s@),
                i,
                opt_view(c.on_delete),
            ),
{
    let ghost pcs = parent_cols@.map_values(|s: String| s@);
    let mut out: Vec<JsonValue> = Vec::new();
    let mut i: usize = 0;
    while i < child_cols.len()
        invariant
            i <= child_cols@.len(),
            out@.len() == i,
            pcs == parent_cols@.map_values(|s: String| s@),
            forall|k: int|
                0 <= k < i ==> model(#[trigger] out@[k]) == fk_entry_model(
                    c.name@,
                    child_cols@[k]@,
                    ref_table@,
                    pcs,
                    k,
                    opt_view(c.on_delete),
                ),
        decreases child_cols@.len() - i,
    {
        let ref_column = if i < parent_cols.len() {
            parent_cols[i].clone()
        } else {
            String::new()
        };
        let mut e: Vec<(String, JsonValue)> = Vec::new();
        e.push(entry("name", string_value(c.name.clone())));
        e.push(entry("column_name", string_value(child_cols[i].clone())));
        e.push(entry("ref_table", string_value(string_of(ref_table))));
        e.push(entry("ref_column", string_value(ref_column)));
        e.push(
            entry(
                "on_delete",
                match &c.on_delete {
                    Some(a) => string_value(a.clone()),
                    None => JsonValue::Null,
                },
            ),
        );
        e.push(entry("on_update", JsonValue::Null));
        let ghost expected = fk_entry_model(
            c.name@,
            child_cols@[i as int]@,
            ref_table@,
            pcs,
            i as int,
            opt_view(c.on_delete),
        );
        assert(entry_models(e@) =~= expected->Obj_0);
        out.push(object_value(e));
        i = i + 1;
    }
    out
}

/// The `Index` object for column `col` at 1-based position `pos` of an index.
pub open spec fn index_entry(
    idxname: Seq<char>,
    col: Seq<char>,
    unique: bool,
    primary: bool,
    pos: int,
) -> JModel {
    JModel::Obj(
        seq![
            ("name"@, JModel::Str(idxname)),
            ("column_name"@, JModel::Str(col)),
            ("is_unique"@, JModel::Bool(unique)),
            ("is_primary"@, JModel::Bool(primary)),
            ("seq_in_index"@, JModel::Int(pos)),
        ],
    )
}

/// The `Index` objects of one index: one per named column, in key order,
/// with its 1-based position among the index's parts.
pub open spec fn index_row_models(
    idxname: Seq<char>,
    unique: bool,
    primary: bool,
    parts: Seq<i64>,
    names: Map<i64, Seq<char>>,
) -> Seq<JModel>
    decreases parts.len(),
{
    if parts.len() == 0 {
        Seq::empty()
    } else {
        index_row_models(idxname, unique, primary, parts.drop_last(), names) + (match name_of(
            names,
            parts.last(),
        ) {
            Some(col) => seq![index_entry(idxname, col, unique, primary, parts.len() as int)],
            None => Seq::empty(),
        })
    }
}

/// The `Index` objects of one row of `indexes_sql`: unique when its type is
/// `U`, primary when its name backs the primary key, over its non-zero parts.
pub open spec fn index_row_entries(
    r: Seq<JsonValue>,
    names: Map<i64, Seq<char>>,
    pk_idx: Seq<Seq<char>>,
) -> Seq<JModel> {
    index_row_models(
        cstr_spec(r, 0),
        trim(cstr_spec(r, 1)) == "U"@,
        pk_idx.contains(cstr_spec(r, 0)),
        parts_of(r, 2, 16),
        names,
    )
}

/// The `Index` objects for the rows of `indexes_sql`, given the table's
/// column names and the names of the indexes behind its primary key.
pub open spec fn index_models(
    rows: Seq<Vec<JsonValue>>,
    names: Map<i64, Seq<char>>,
    pk_idx: Seq<Seq<char>>,
) -> Seq<JModel>
    decreases rows.len(),
{
    if rows.len() == 0 {
        Seq::empty()
    } else {
        index_models(rows.drop_last(), names, pk_idx) + index_row_entries(rows.last()@, names, pk_idx)
    }
}

fn contains_string(v: &Vec<String>, s: &str) -> (b: bool)
    ensures
        b == v@.map_values(|x: String| x@).contains(s@),
{
    let ghost vs = v@.map_values(|x: String| x@);
    let mut i: usize = 0;
    while i < v.len()
        invariant
            i <= v@.len(),
            vs == v@.map_values(|x: String| x@),
            forall|m: int| 0 <= m < i ==> vs[m] != s@,
        decreases v@.len() - i,
    {
        if str_eq(v[i].as_str(), s) {
            assert(vs[i as int] == s@);
            return true;
        }
        i = i + 1;
    }
    false
}

/// The `Index` objects for the rows of `indexes_sql`.
pub fn index_entries(rows: &Vec<Vec<JsonValue>>, names: &HashMap<i64, String>, pk_idx: &Vec<String>) -> (r:
    Vec<JsonValue>)
    ensures
        models_of(r@) == index_models(rows@, names_view(names@), pk_idx@.map_values(|x: String| x@)),
{
    let ghost nv = names_view(names@);
    let ghost pv = pk_idx@.map_values(|x: String| x@);
    let mut out: Vec<JsonValue> = Vec::new();
    let mut i: usize = 0;
    while i < rows.len()
        invariant
            i <= rows@.len(),
            nv == names_view(names@),
            pv == pk_idx@.map_values(|x: String| x@),
            models_of(out@) == index_models(rows@.take(i as int), nv, pv),
        decreases rows@.len() - i,
    {
        assert(rows@.take(i + 1).drop_last() =~= rows@.take(i as int));
        let row = &rows[i];
        let idxname = cstr(row, 0);
        let idxtype = cstr(row, 1);
        let is_unique = str_eq(trim_str(idxtype.as_str()), "U");
        let is_primary = contains_string(pk_idx, idxname.as_str());
        let parts = part_colnos(row, 2);
        let ghost before = models_of(out@);
        let mut j: usize = 0;
        while j < parts.len()
            invariant
                j <= parts@.len(),
                i < rows@.len(),
                parts@ == parts_of(rows@[i as int]@, 2, 16),
                nv == names_view(names@),
                models_of(out@) == before + index_row_models(
                    idxname@,
                    is_unique,
                    is_primary,
                    parts@.take(j as int),
                    nv,
                ),
            decreases parts@.len() - j,
        {
            assert(parts@.take(j + 1).drop_last() =~= parts@.take(j as int));
            let ghost prev = models_of(out@);
            match lookup_name(names, parts[j]) {
                Some(col) => {
                    let mut e: Vec<(String, JsonValue)> = Vec::new();
                    e.push(entry("name", string_value(idxname.clone())));
                    e.push(entry("column_name", string_value(col)));
                    e.push(entry("is_unique", JsonValue::Bool(is_unique)));
                    e.push(entry("is_primary", JsonValue::Bool(is_primary)));
                    e.push(
                        entry(
                            "seq_in_index",
                            JsonValue::Number(JsonNumber::PosInt((j + 1) as u64)),
                        ),
                    );
                    let ghost expected = JModel::Obj(
                        seq![
                            ("name"@, JModel::Str(idxname@)),
                            ("column_name"@, JModel::Str(name_of(nv, parts@[j as int])->0)),
                            ("is_unique"@, JModel::Bool(is_unique)),
                            ("is_primary"@, JModel::Bool(is_primary)),
                            ("seq_in_index"@, JModel::Int(parts@.take(j + 1).len() as int)),
                        ],
                    );
                    assert(entry_models(e@) =~= expected->Obj_0);
                    let v = object_value(e);
                    out.push(v);
                    assert(models_of(out@) =~= prev.push(expected));
                    assert(parts@.take(j + 1).last() == parts@[j as int]);
                },
                None => {
                    assert(parts@.take(j + 1).last() == parts@[j as int]);
                    assert(models_of(out@) =~= prev + Seq::<JModel>::empty());
                },
            }
            j = j + 1;
        }
        assert(parts@.take(parts@.len() as int) =~= parts@);
        i = i + 1;
    }
    assert(rows@.take(rows@.len() as int) =~= rows@);
    out
}

/// The `Routine` object for one row of `ROUTINES_SQL`.
pub open spec fn routine_model(row: Seq<JsonValue>) -> JModel {
    JModel::Obj(
        seq![
            ("name"@, JModel::Str(cstr_spec(row, 0))),
            ("routine_type"@, JModel::Str(if trim(cstr_spec(row, 1)) == "t"@ {
                "PROCEDURE"@
            } else {
                "FUNCTION"@
            })),
            ("definition"@, JModel::Null),
        ],
    )
}

/// A routine row `[name, kind, ...]` describes a `PROCEDURE` exactly when
/// its kind is `t` (surrounding whitespace aside), and a `FUNCTION`
/// otherwise; the definition is not sent.
pub proof fn law_routine_kind(row: Seq<JsonValue>, name: String, kind: String)
    requires
        row.len() >= 2,
        row[0] == JsonValue::String(name),
        row[1] == JsonValue::String(kind),
    ensures
        trim(kind@) == seq!['t'] ==> routine_model(row) == JModel::Obj(
            seq![
                ("name"@, JModel::Str(name@)),
                ("routine_type"@, JModel::Str("PROCEDURE"@)),
                ("definition"@, JModel::Null),
            ],
        ),
        trim(kind@) != seq!['t'] ==> routine_model(row) == JModel::Obj(
            seq![
                ("name"@, JModel::Str(name@)),
                ("routine_type"@, JModel::Str("FUNCTION"@)),
                ("definition"@, JModel::Null),
            ],
        ),
{
    reveal_strlit("t");
    assert("t"@ =~= seq!['t']);
}

// ---------------------------------------------------------------------------
// Whole-table results
// ---------------------------------------------------------------------------

/// The `TableColumn` objects of a table: none when the table is unknown
/// (`tabid` is `None`); otherwise one per row of `columns_sql`, in order,
/// with the primary-key columns read from the rows of `pk_colnos_sql` and
/// the defaults from the rows of `defaults_sql` (none when that query could
/// not be read).
pub open spec fn columns_result_models(
    tabid: Option<i64>,
    pk_rows: Seq<Vec<JsonValue>>,
    default_rows: Option<Seq<Vec<JsonValue>>>,
    column_rows: Seq<Vec<JsonValue>>,
) -> Seq<JModel> {
    match tabid {
        None => Seq::empty(),
        Some(_) => column_rows.map_values(
            |r: Vec<JsonValue>|
                column_entry_model(
                    r@,
                    first_row_parts(pk_rows, 0).to_set(),
                    match default_rows {
                        Some(d) => entries_map(defaults_entries(d)),
                        None => Map::empty(),
                    },
                ),
        ),
    }
}

/// Assembles the columns of a table from its catalog rows.
pub fn columns_result(
    tabid: Option<i64>,
    pk_rows: &Vec<Vec<JsonValue>>,
    default_rows: Option<&Vec<Vec<JsonValue>>>,
    column_rows: &Vec<Vec<JsonValue>>,
) -> (r: Vec<JsonValue>)
    ensures
        models_of(r@) == columns_result_models(
            tabid,
            pk_rows@,
            match default_rows {
                Some(d) => Some(d@),
                None => None,
            },
            column_rows@,
        ),
{
    if tabid.is_none() {
        let r: Vec<JsonValue> = Vec::new();
        assert(models_of(r@) =~= Seq::<JModel>::empty());
        return r;
    }
    let pk = pk_colnos(pk_rows);
    let defaults: HashMap<i64, String> = match default_rows {
        Some(d) => defaults_of(d),
        None => HashMap::new(),
    };
    proof {
        if default_rows is None {
            assert(names_view(defaults@) =~= Map::<i64, Seq<char>>::empty());
        }
    }
    let r = column_entries(column_rows, &pk, &defaults);
    assert(models_of(r@) =~= columns_result_models(
        tabid,
        pk_rows@,
        match default_rows {
            Some(d) => Some(d@),
            None => None,
        },
        column_rows@,
    ));
    r
}

/// The `Index` objects of a table: none when the table is unknown;
/// otherwise those of the rows of `indexes_sql`, in order, with column
/// names from the rows of `colno_names_sql` and the primary-key index names
/// from the rows of `pk_index_names_sql`.
pub open spec fn indexes_result_models(
    tabid: Option<i64>,
    name_rows: Seq<Vec<JsonValue>>,
    pk_rows: Seq<Vec<JsonValue>>,
    index_rows: Seq<Vec<JsonValue>>,
) -> Seq<JModel> {
    match tabid {
        None => Seq::empty(),
        Some(_) => index_models(index_rows, entries_map(colno_entries(name_rows)), first_column_texts(pk_rows)),
    }
}

/// Assembles the indexes of a table from its catalog rows.
pub fn indexes_result(
    tabid: Option<i64>,
    name_rows: &Vec<Vec<JsonValue>>,
    pk_rows: &Vec<Vec<JsonValue>>,
    index_rows: &Vec<Vec<JsonValue>>,
) -> (r: Vec<JsonValue>)
    ensures
        models_of(r@) == indexes_result_models(tabid, name_rows@, pk_rows@, index_rows@),
{
    if tabid.is_none() {
        let r: Vec<JsonValue> = Vec::new();
        assert(models_of(r@) =~= Seq::<JModel>::empty());
        return r;
    }
    let names = colno_names(name_rows);
    let pk_idx = names_from_rows(pk_rows);
    index_entries(index_rows, &names, &pk_idx)
}

/// The catalog rows read for one foreign-key constraint.
#[derive(Debug)]
pub struct FkRows {
    /// The constraint's row of `foreign_keys_sql`.
    pub constraint: Vec<JsonValue>,
    /// The rows of `index_parts_sql` for the constraint's (child) index.
    pub child_parts: Vec<Vec<JsonValue>>,
    /// The rows of `parent_constraint_sql` for the referenced constraint.
    pub parent: Vec<Vec<JsonValue>>,
    /// The rows of `colno_names_sql` for the referenced table.
    pub parent_names: Vec<Vec<JsonValue>>,
    /// The rows of `index_parts_sql` for the referenced index.
    pub parent_parts: Vec<Vec<JsonValue>>,
}

/// The `ON DELETE` action a constraint row reports.
pub open spec fn fk_on_delete(row: Seq<JsonValue>) -> Option<Seq<char>> {
    if trim(cstr_spec(row, 3)) == "C"@ {
        Some("CASCADE"@)
    } else {
        None
    }
}

/// The names of a constraint's child key columns, in key order.
pub open spec fn fk_child_cols(f: FkRows, child_names: Map<i64, Seq<char>>) -> Seq<Seq<char>> {
    resolve_parts(first_row_parts(f.child_parts@, 0), child_names)
}

/// The names of the referenced key columns, in key order.
pub open spec fn fk_parent_cols(f: FkRows) -> Seq<Seq<char>> {
    resolve_parts(first_row_parts(f.parent_parts@, 0), entries_map(colno_entries(f.parent_names@)))
}

/// The `ForeignKey` objects of one constraint: none when its referenced
/// constraint cannot be found; otherwise one per child key column, in key
/// order, paired with the referenced column at the same position.
pub open spec fn fk_rows_models(f: FkRows, child_names: Map<i64, Seq<char>>) -> Seq<JModel> {
    if f.parent@.len() == 0 {
        Seq::empty()
    } else {
        let child_cols = fk_child_cols(f, child_names);
        let parent_cols = fk_parent_cols(f);
        Seq::new(
            child_cols.len(),
            |k: int|
                fk_entry_model(
                    cstr_spec(f.constraint@, 0),
                    child_cols[k],
                    cstr_spec(f.parent@[0]@, 0),
                    parent_cols,
                    k,
                    fk_on_delete(f.constraint@),
                ),
        )
    }
}

/// The `ForeignKey` objects of the constraints, joined in catalog order.
pub open spec fn foreign_keys_models(fs: Seq<FkRows>, child_names: Map<i64, Seq<char>>) -> Seq<
    JModel,
>
    decreases fs.len(),
{
    if fs.len() == 0 {
        Seq::empty()
    } else {
        foreign_keys_models(fs.drop_last(), child_names) + fk_rows_models(fs.last(), child_names)
    }
}

/// Assembles the foreign keys of a table from its catalog rows: none when
/// the table is unknown; otherwise those of each constraint in turn, with
/// the child column names from the rows of `colno_names_sql`.
pub fn foreign_keys_result(
    tabid: Option<i64>,
    child_name_rows: &Vec<Vec<JsonValue>>,
    constraints: &Vec<FkRows>,
) -> (r: Vec<JsonValue>)
    ensures
        models_of(r@) == (match tabid {
            None => Seq::empty(),
            Some(_) => foreign_keys_models(constraints@, entries_map(colno_entries(child_name_rows@))),
        }),
{
    let mut out: Vec<JsonValue> = Vec::new();
    assert(models_of(out@) =~= Seq::<JModel>::empty());
    if tabid.is_none() {
        return out;
    }
    let child_names = colno_names(child_name_rows);
    let ghost names = entries_map(colno_entries(child_name_rows@));
    let mut i: usize = 0;
    while i < constraints.len()
        invariant
            i <= constraints@.len(),
            names_view(child_names@) == names,
            models_of(out@) == foreign_keys_models(constraints@.take(i as int), names),
        decreases constraints@.len() - i,
    {
        let f = &constraints[i];
        let ghost prev = models_of(out@);
        assert(constraints@.take(i + 1).drop_last() =~= constraints@.take(i as int));
        assert(constraints@.take(i + 1).last() == constraints@[i as int]);
        match parent_key(&f.parent) {
            None => {
                assert(fk_rows_models(*f, names) =~= Seq::<JModel>::empty());
                assert(prev + fk_rows_models(*f, names) =~= prev);
            },
            Some(p) => {
                let c = fk_constraint(&f.constraint);
                let child_cols = index_part_cols(&f.child_parts, &child_names);
                let pnames = colno_names(&f.parent_names);
                let pcols = index_part_cols(&f.parent_parts, &pnames);
                let mut es = fk_entries(&c, &child_cols, p.ref_table.as_str(), &pcols);
                let ghost esv = es@;
                proof {
                    let expected = fk_rows_models(*f, names);
                    assert(child_cols@.len() == child_cols@.map_values(|s: String| s@).len());
                    assert forall|k: int| 0 <= k < esv.len() implies #[trigger] models_of(esv)[k]
                        == expected[k] by {
                        assert(child_cols@.map_values(|s: String| s@)[k] == child_cols@[k]@);
                    }
                    assert(models_of(esv) =~= expected);
                }
                out.append(&mut es);
                assert(models_of(out@) =~= prev + models_of(esv));
            },
        }
        i = i + 1;
    }
    assert(constraints@.take(constraints@.len() as int) =~= constraints@);
    out
}

// ---------------------------------------------------------------------------
// Laws: from catalog rows to results
// ---------------------------------------------------------------------------

/// What one `TableColumn` object says of a row of `columns_sql`: its name;
/// the decoded type; whether its column number is among the primary-key
/// parts; nullable unless the NOT NULL bit is set; auto-increment for the
/// SERIAL codes; then the character length exactly when the decoded type has
/// one, and the default exactly when the column has one.
pub open spec fn column_fields(
    m: JModel,
    row: Seq<JsonValue>,
    pk: Set<i64>,
    defaults: Map<i64, Seq<char>>,
) -> bool {
    let coltype = cint_spec(row, 1);
    let colno = cint_spec(row, 3);
    let decoded = decode_type_spec(coltype, cint_spec(row, 2), ext_spec(ext_cell(row)));
    match m {
        JModel::Obj(e) => {
            &&& e.len() == 5 + (if decoded.1 is Some {
                1int
            } else {
                0int
            }) + (if name_of(defaults, colno) is Some {
                1int
            } else {
                0int
            })
            &&& e[0] == ("name"@, JModel::Str(cstr_spec(row, 0)))
            &&& e[1] == ("data_type"@, JModel::Str(decoded.0))
            &&& e[2] == ("is_pk"@, JModel::Bool(pk.contains(colno)))
            &&& e[3] == ("is_nullable"@, JModel::Bool(!((coltype & NOT_NULL_BIT) != 0)))
            &&& e[4] == (
                "is_auto_increment"@,
                JModel::Bool(is_auto_increment_code(base_code(coltype))),
            )
            &&& (decoded.1 matches Some(l) ==> e[5] == (
                "character_maximum_length"@,
                JModel::Int(l as int),
            ))
            &&& (name_of(defaults, colno) matches Some(d) ==> e.last() == (
                "default_value"@,
                JModel::Str(d),
            ))
        },
        _ => false,
    }
}

/// The columns of a table: none for an unknown table; otherwise exactly one
/// entry per row of `columns_sql`, in that (column-number) order, each
/// saying what `column_fields` says of its row.
pub proof fn law_columns_from_catalog(
    tabid: Option<i64>,
    pk_rows: Seq<Vec<JsonValue>>,
    default_rows: Option<Seq<Vec<JsonValue>>>,
    column_rows: Seq<Vec<JsonValue>>,
)
    ensures
        tabid is None ==> columns_result_models(tabid, pk_rows, default_rows, column_rows).len() == 0,
        tabid is Some ==> columns_result_models(tabid, pk_rows, default_rows, column_rows).len()
            == column_rows.len(),
        tabid is Some ==> forall|j: int|
            0 <= j < column_rows.len() ==> column_fields(
                #[trigger] columns_result_models(tabid, pk_rows, default_rows, column_rows)[j],
                column_rows[j]@,
                first_row_parts(pk_rows, 0).to_set(),
                match default_rows {
                    Some(d) => entries_map(defaults_entries(d)),
                    None => Map::empty(),
                },
            ),
{
}

proof fn lemma_index_row_sound(
    idxname: Seq<char>,
    unique: bool,
    primary: bool,
    parts: Seq<i64>,
    names: Map<i64, Seq<char>>,
)
    ensures
        forall|j: int|
            #![trigger index_row_models(idxname, unique, primary, parts, names)[j]]
            0 <= j < index_row_models(idxname, unique, primary, parts, names).len() ==> exists|
                k: int,
            |
                0 <= k < parts.len() && #[trigger] name_of(names, parts[k]) is Some
                    && index_row_models(idxname, unique, primary, parts, names)[j] == index_entry(
                    idxname,
                    name_of(names, parts[k])->0,
                    unique,
                    primary,
                    k + 1,
                ),
    decreases parts.len(),
{
    if parts.len() > 0 {
        let init = parts.drop_last();
        lemma_index_row_sound(idxname, unique, primary, init, names);
        let prev = index_row_models(idxname, unique, primary, init, names);
        let m = index_row_models(idxname, unique, primary, parts, names);
        assert forall|j: int| #![trigger m[j]] 0 <= j < m.len() implies exists|k: int|
            0 <= k < parts.len() && #[trigger] name_of(names, parts[k]) is Some && m[j]
                == index_entry(idxname, name_of(names, parts[k])->0, unique, primary, k + 1) by {
            if j < prev.len() {
                let k = choose|k: int|
                    0 <= k < init.len() && #[trigger] name_of(names, init[k]) is Some && prev[j]
                        == index_entry(idxname, name_of(names, init[k])->0, unique, primary, k + 1);
                assert(init[k] == parts[k]);
                assert(m[j] == prev[j]);
            } else {
                let k = parts.len() - 1;
                assert(parts[k] == parts.last());
                assert(name_of(names, parts[k]) is Some);
            }
        }
    }
}

proof fn lemma_index_row_complete(
    idxname: Seq<char>,
    unique: bool,
    primary: bool,
    parts: Seq<i64>,
    names: Map<i64, Seq<char>>,
)
    ensures
        forall|k: int|
            0 <= k < parts.len() && #[trigger] name_of(names, parts[k]) is Some ==> exists|j: int|
                0 <= j < index_row_models(idxname, unique, primary, parts, names).len()
                    && #[trigger] index_row_models(idxname, unique, primary, parts, names)[j]
                    == index_entry(idxname, name_of(names, parts[k])->0, unique, primary, k + 1),
    decreases parts.len(),
{
    if parts.len() > 0 {
        let init = parts.drop_last();
        lemma_index_row_complete(idxname, unique, primary, init, names);
        let prev = index_row_models(idxname, unique, primary, init, names);
        let m = index_row_models(idxname, unique, primary, parts, names);
        assert forall|k: int| 0 <= k < parts.len() && #[trigger] name_of(names, parts[k]) is Some implies exists|j: int|
            0 <= j < m.len() && #[trigger] m[j] == index_entry(
                idxname,
                name_of(names, parts[k])->0,
                unique,
                primary,
                k + 1,
            ) by {
            if k < init.len() {
                assert(init[k] == parts[k]);
                assert(name_of(names, init[k]) is Some);
                let j = choose|j: int|
                    0 <= j < prev.len() && #[trigger] prev[j] == index_entry(
                        idxname,
                        name_of(names, init[k])->0,
                        unique,
                        primary,
                        k + 1,
                    );
                assert(m[j] == prev[j]);
            } else {
                assert(m[prev.len() as int] == index_entry(
                    idxname,
                    name_of(names, parts.last())->0,
                    unique,
                    primary,
                    parts.len() as int,
                ));
            }
        }
    }
}

/// `m` is one of the `Index` objects of row `i` of `indexes_sql`.
pub open spec fn index_entry_of_row(
    m: JModel,
    rows: Seq<Vec<JsonValue>>,
    names: Map<i64, Seq<char>>,
    pk_idx: Seq<Seq<char>>,
    i: int,
) -> bool {
    0 <= i < rows.len() && exists|k: int|
        0 <= k < index_row_entries(rows[i]@, names, pk_idx).len() && m
            == #[trigger] index_row_entries(rows[i]@, names, pk_idx)[k]
}

proof fn lemma_index_models_source(
    rows: Seq<Vec<JsonValue>>,
    names: Map<i64, Seq<char>>,
    pk_idx: Seq<Seq<char>>,
    j: int,
) -> (i: int)
    requires
        0 <= j < index_models(rows, names, pk_idx).len(),
    ensures
        index_entry_of_row(index_models(rows, names, pk_idx)[j], rows, names, pk_idx, i),
    decreases rows.len(),
{
    let init = rows.drop_last();
    let prev = index_models(init, names, pk_idx);
    let m = index_models(rows, names, pk_idx);
    if j < prev.len() {
        let i = lemma_index_models_source(init, names, pk_idx, j);
        assert(m[j] == prev[j]);
        let k = choose|k: int|
            0 <= k < index_row_entries(init[i]@, names, pk_idx).len() && prev[j]
                == #[trigger] index_row_entries(init[i]@, names, pk_idx)[k];
        assert(init[i] == rows[i]);
        assert(m[j] == index_row_entries(rows[i]@, names, pk_idx)[k]);
        i
    } else {
        let i = rows.len() - 1;
        assert(rows[i] == rows.last());
        let k = j - prev.len();
        assert(m[j] == index_row_entries(rows[i]@, names, pk_idx)[k]);
        i
    }
}

proof fn lemma_index_models_complete(
    rows: Seq<Vec<JsonValue>>,
    names: Map<i64, Seq<char>>,
    pk_idx: Seq<Seq<char>>,
)
    ensures
        forall|i: int, k: int|
            0 <= i < rows.len() && 0 <= k < index_row_entries(rows[i]@, names, pk_idx).len()
                ==> index_models(rows, names, pk_idx).contains(
                #[trigger] index_row_entries(rows[i]@, names, pk_idx)[k],
            ),
    decreases rows.len(),
{
    if rows.len() > 0 {
        let init = rows.drop_last();
        lemma_index_models_complete(init, names, pk_idx);
        let prev = index_models(init, names, pk_idx);
        let m = index_models(rows, names, pk_idx);
        assert forall|i: int, k: int|
            0 <= i < rows.len() && 0 <= k < index_row_entries(rows[i]@, names, pk_idx).len()
            implies m.contains(#[trigger] index_row_entries(rows[i]@, names, pk_idx)[k]) by {
            if i < init.len() {
                assert(init[i] == rows[i]);
                let x = index_row_entries(init[i]@, names, pk_idx)[k];
                assert(prev.contains(x));
                let j = choose|j: int| 0 <= j < prev.len() && prev[j] == x;
                assert(m[j] == prev[j]);
            } else {
                assert(rows[i] == rows.last());
                assert(m[prev.len() + k] == index_row_entries(rows[i]@, names, pk_idx)[k]);
            }
        }
    }
}

/// Part `k` (counting only the non-zero parts, in part order) of row `i` of
/// `indexes_sql` names a column.
pub open spec fn index_part_named(
    rows: Seq<Vec<JsonValue>>,
    names: Map<i64, Seq<char>>,
    i: int,
    k: int,
) -> bool {
    &&& 0 <= i < rows.len()
    &&& 0 <= k < parts_of(rows[i]@, 2, 16).len()
    &&& name_of(names, parts_of(rows[i]@, 2, 16)[k]) is Some
}

/// The `Index` object for part `k` of row `i`: the index name, the column
/// the part names, unique exactly when the index type is `U`, primary
/// exactly when the index backs the primary key, and position `k + 1`.
pub open spec fn index_part_model(
    rows: Seq<Vec<JsonValue>>,
    names: Map<i64, Seq<char>>,
    pk_idx: Seq<Seq<char>>,
    i: int,
    k: int,
) -> JModel {
    let r = rows[i]@;
    index_entry(
        cstr_spec(r, 0),
        name_of(names, parts_of(r, 2, 16)[k])->0,
        trim(cstr_spec(r, 1)) == "U"@,
        pk_idx.contains(cstr_spec(r, 0)),
        k + 1,
    )
}

/// `m` is the `index_part_model` of some part of some row of `indexes_sql`
/// that names a column.
pub open spec fn index_entry_from_parts(
    m: JModel,
    rows: Seq<Vec<JsonValue>>,
    names: Map<i64, Seq<char>>,
    pk_idx: Seq<Seq<char>>,
) -> bool {
    exists|i: int, k: int|
        #[trigger] index_part_named(rows, names, i, k) && m == index_part_model(
            rows,
            names,
            pk_idx,
            i,
            k,
        )
}

/// The indexes of a table: none for an unknown table. Otherwise every entry
/// is the `index_part_model` of some part of some row of `indexes_sql` that
/// names a column (its position counts the non-zero parts up to it), and
/// every such part of every row gives its entry.
pub proof fn law_indexes_from_catalog(
    tabid: Option<i64>,
    name_rows: Seq<Vec<JsonValue>>,
    pk_rows: Seq<Vec<JsonValue>>,
    index_rows: Seq<Vec<JsonValue>>,
)
    ensures
        tabid is None ==> indexes_result_models(tabid, name_rows, pk_rows, index_rows).len() == 0,
        tabid is Some ==> forall|j: int|
            0 <= j < indexes_result_models(tabid, name_rows, pk_rows, index_rows).len()
                ==> index_entry_from_parts(
                #[trigger] indexes_result_models(tabid, name_rows, pk_rows, index_rows)[j],
                index_rows,
                entries_map(colno_entries(name_rows)),
                first_column_texts(pk_rows),
            ),
        tabid is Some ==> forall|i: int, k: int|
            #[trigger] index_part_named(index_rows, entries_map(colno_entries(name_rows)), i, k)
                ==> indexes_result_models(tabid, name_rows, pk_rows, index_rows).contains(
                index_part_model(index_rows, entries_map(colno_entries(name_rows)), first_column_texts(pk_rows), i, k),
            ),
{
    let names = entries_map(colno_entries(name_rows));
    let pk_idx = first_column_texts(pk_rows);
    if tabid is Some {
        let r = index_models(index_rows, names, pk_idx);
        assert forall|j: int| 0 <= j < r.len() implies index_entry_from_parts(
            #[trigger] r[j],
            index_rows,
            names,
            pk_idx,
        ) by {
            let i = lemma_index_models_source(index_rows, names, pk_idx, j);
            let row = index_rows[i]@;
            let parts = parts_of(row, 2, 16);
            let u = trim(cstr_spec(row, 1)) == "U"@;
            let p = pk_idx.contains(cstr_spec(row, 0));
            let k0 = choose|k: int|
                0 <= k < index_row_entries(row, names, pk_idx).len() && r[j]
                    == #[trigger] index_row_entries(row, names, pk_idx)[k];
            lemma_index_row_sound(cstr_spec(row, 0), u, p, parts, names);
            let k = choose|k: int|
                0 <= k < parts.len() && #[trigger] name_of(names, parts[k]) is Some
                    && index_row_models(cstr_spec(row, 0), u, p, parts, names)[k0] == index_entry(
                    cstr_spec(row, 0),
                    name_of(names, parts[k])->0,
                    u,
                    p,
                    k + 1,
                );
            assert(index_part_named(index_rows, names, i, k));
        }
        assert forall|i: int, k: int|
            #[trigger] index_part_named(index_rows, names, i, k) implies r.contains(
                index_part_model(index_rows, names, pk_idx, i, k),
            ) by {
            let row = index_rows[i]@;
            let parts = parts_of(row, 2, 16);
            let u = trim(cstr_spec(row, 1)) == "U"@;
            let p = pk_idx.contains(cstr_spec(row, 0));
            lemma_index_row_complete(cstr_spec(row, 0), u, p, parts, names);
            assert(name_of(names, parts[k]) is Some);
            let j0 = choose|j: int|
                0 <= j < index_row_models(cstr_spec(row, 0), u, p, parts, names).len()
                    && #[trigger] index_row_models(cstr_spec(row, 0), u, p, parts, names)[j]
                    == index_entry(cstr_spec(row, 0), name_of(names, parts[k])->0, u, p, k + 1);
            lemma_index_models_complete(index_rows, names, pk_idx);
            assert(index_row_entries(index_rows[i]@, names, pk_idx)[j0] == index_part_model(
                index_rows,
                names,
                pk_idx,
                i,
                k,
            ));
        }
    }
}

/// Child key column `k` of constraint `i` is reported: the referenced
/// constraint was found and the constraint has such a column.
pub open spec fn fk_part_named(fs: Seq<FkRows>, child_names: Map<i64, Seq<char>>, i: int, k: int) -> bool {
    &&& 0 <= i < fs.len()
    &&& fs[i].parent@.len() > 0
    &&& 0 <= k < fk_child_cols(fs[i], child_names).len()
}

/// The `ForeignKey` object for child key column `k` of constraint `i`: the
/// constraint's name, the column, the referenced table, the referenced
/// column at the same position (empty when there is none), `ON DELETE`
/// `CASCADE` exactly when the delete rule is `C` (null otherwise), and a null
/// `ON UPDATE`.
pub open spec fn fk_part_model(fs: Seq<FkRows>, child_names: Map<i64, Seq<char>>, i: int, k: int) -> JModel {
    let f = fs[i];
    let parent_cols = fk_parent_cols(f);
    JModel::Obj(
        seq![
            ("name"@, JModel::Str(cstr_spec(f.constraint@, 0))),
            ("column_name"@, JModel::Str(fk_child_cols(f, child_names)[k])),
            ("ref_table"@, JModel::Str(cstr_spec(f.parent@[0]@, 0))),
            ("ref_column"@, JModel::Str(if k < parent_cols.len() {
                parent_cols[k]
            } else {
                Seq::empty()
            })),
            ("on_delete"@, if trim(cstr_spec(f.constraint@, 3)) == "C"@ {
                JModel::Str("CASCADE"@)
            } else {
                JModel::Null
            }),
            ("on_update"@, JModel::Null),
        ],
    )
}

/// `m` is the `fk_part_model` of some reported column of some constraint.
pub open spec fn fk_entry_from_constraints(m: JModel, fs: Seq<FkRows>, child_names: Map<i64, Seq<char>>) -> bool {
    exists|i: int, k: int| #[trigger] fk_part_named(fs, child_names, i, k) && m == fk_part_model(fs, child_names, i, k)
}

proof fn lemma_fk_rows_exact(fs: Seq<FkRows>, child_names: Map<i64, Seq<char>>, i: int)
    requires
        0 <= i < fs.len(),
    ensures
        fk_rows_models(fs[i], child_names).len() == (if fs[i].parent@.len() > 0 {
            fk_child_cols(fs[i], child_names).len() as int
        } else {
            0int
        }),
        forall|k: int|
            fk_part_named(fs, child_names, i, k) ==> #[trigger] fk_rows_models(fs[i], child_names)[k]
                == fk_part_model(fs, child_names, i, k),
{
    let f = fs[i];
    assert forall|k: int| fk_part_named(fs, child_names, i, k) implies #[trigger] fk_rows_models(
        fs[i],
        child_names,
    )[k] == fk_part_model(fs, child_names, i, k) by {
        let e = fk_entry_model(
            cstr_spec(f.constraint@, 0),
            fk_child_cols(f, child_names)[k],
            cstr_spec(f.parent@[0]@, 0),
            fk_parent_cols(f),
            k,
            fk_on_delete(f.constraint@),
        );
        assert(fk_rows_models(f, child_names)[k] == e);
        assert(e->Obj_0 =~= fk_part_model(fs, child_names, i, k)->Obj_0);
    }
}

proof fn lemma_fk_source(fs: Seq<FkRows>, child_names: Map<i64, Seq<char>>, j: int) -> (ik: (int, int))
    requires
        0 <= j < foreign_keys_models(fs, child_names).len(),
    ensures
        fk_part_named(fs, child_names, ik.0, ik.1),
        foreign_keys_models(fs, child_names)[j] == fk_part_model(fs, child_names, ik.0, ik.1),
    decreases fs.len(),
{
    let init = fs.drop_last();
    let prev = foreign_keys_models(init, child_names);
    let m = foreign_keys_models(fs, child_names);
    if j < prev.len() {
        let (i, k) = lemma_fk_source(init, child_names, j);
        assert(init[i] == fs[i]);
        assert(m[j] == prev[j]);
        (i, k)
    } else {
        let i = fs.len() - 1;
        assert(fs[i] == fs.last());
        let k = j - prev.len();
        lemma_fk_rows_exact(fs, child_names, i);
        assert(m[j] == fk_rows_models(fs[i], child_names)[k]);
        assert(fk_part_named(fs, child_names, i, k));
        (i, k)
    }
}

proof fn lemma_fk_complete(fs: Seq<FkRows>, child_names: Map<i64, Seq<char>>)
    ensures
        forall|i: int, k: int|
            #[trigger] fk_part_named(fs, child_names, i, k) ==> foreign_keys_models(fs, child_names).contains(
                fk_part_model(fs, child_names, i, k),
            ),
    decreases fs.len(),
{
    if fs.len() > 0 {
        let init = fs.drop_last();
        lemma_fk_complete(init, child_names);
        let prev = foreign_keys_models(init, child_names);
        let m = foreign_keys_models(fs, child_names);
        assert forall|i: int, k: int| #[trigger] fk_part_named(fs, child_names, i, k) implies m.contains(
            fk_part_model(fs, child_names, i, k),
        ) by {
            if i < init.len() {
                assert(init[i] == fs[i]);
                assert(fk_part_named(init, child_names, i, k));
                assert(fk_part_model(init, child_names, i, k) == fk_part_model(fs, child_names, i, k));
                let x = fk_part_model(fs, child_names, i, k);
                assert(prev.contains(x));
                let j = choose|j: int| 0 <= j < prev.len() && prev[j] == x;
                assert(m[j] == prev[j]);
            } else {
                assert(fs[i] == fs.last());
                lemma_fk_rows_exact(fs, child_names, i);
                assert(m[prev.len() + k] == fk_rows_models(fs[i], child_names)[k]);
            }
        }
    }
}

/// The foreign keys of a table: none for an unknown table. Otherwise every
/// entry is the `fk_part_model` of a child key column of a constraint whose
/// referenced constraint was found, and every such column gives its entry;
/// within a constraint the entries come in key order, one per child key
/// column, and a constraint whose referenced constraint is missing gives
/// none. Every entry has a null `ON UPDATE` and `ON DELETE` `CASCADE`
/// exactly when its constraint's delete rule is `C`.
pub proof fn law_foreign_keys_from_catalog(
    tabid: Option<i64>,
    child_name_rows: Seq<Vec<JsonValue>>,
    fs: Seq<FkRows>,
)
    ensures
        tabid is None ==> (match tabid {
            None => Seq::<JModel>::empty(),
            Some(_) => foreign_keys_models(fs, entries_map(colno_entries(child_name_rows))),
        }).len() == 0,
        tabid is Some ==> forall|j: int|
            0 <= j < foreign_keys_models(fs, entries_map(colno_entries(child_name_rows))).len()
                ==> fk_entry_from_constraints(
                #[trigger] foreign_keys_models(fs, entries_map(colno_entries(child_name_rows)))[j],
                fs,
                entries_map(colno_entries(child_name_rows)),
            ),
        tabid is Some ==> forall|i: int, k: int|
            #[trigger] fk_part_named(fs, entries_map(colno_entries(child_name_rows)), i, k)
                ==> foreign_keys_models(fs, entries_map(colno_entries(child_name_rows))).contains(
                fk_part_model(fs, entries_map(colno_entries(child_name_rows)), i, k),
            ),
        forall|i: int|
            0 <= i < fs.len() ==> (#[trigger] fk_rows_models(fs[i], entries_map(colno_entries(child_name_rows)))).len()
                == (if fs[i].parent@.len() > 0 {
                fk_child_cols(fs[i], entries_map(colno_entries(child_name_rows))).len() as int
            } else {
                0int
            }),
        forall|i: int, k: int|
            #[trigger] fk_part_named(fs, entries_map(colno_entries(child_name_rows)), i, k) ==> fk_rows_models(
                fs[i],
                entries_map(colno_entries(child_name_rows)),
            )[k] == fk_part_model(fs, entries_map(colno_entries(child_name_rows)), i, k),
{
    let names = entries_map(colno_entries(child_name_rows));
    let r = foreign_keys_models(fs, names);
    assert forall|j: int| 0 <= j < r.len() implies fk_entry_from_constraints(
        #[trigger] r[j],
        fs,
        names,
    ) by {
        let (i, k) = lemma_fk_source(fs, names, j);
    }
    lemma_fk_complete(fs, names);
    assert forall|i: int| 0 <= i < fs.len() implies (#[trigger] fk_rows_models(fs[i], names)).len()
        == (if fs[i].parent@.len() > 0 {
        fk_child_cols(fs[i], names).len() as int
    } else {
        0int
    }) by {
        lemma_fk_rows_exact(fs, names, i);
    }
    assert forall|i: int, k: int| #[trigger] fk_part_named(fs, names, i, k) implies fk_rows_models(
        fs[i],
        names,
    )[k] == fk_part_model(fs, names, i, k) by {
        lemma_fk_rows_exact(fs, names, i);
    }
}

/// The `Routine` objects for the rows of `ROUTINES_SQL`.
pub fn routines_value(rows: &Vec<Vec<JsonValue>>) -> (v: JsonValue)
    ensures
        model(v) == JModel::Arr(rows@.map_values(|r: Vec<JsonValue>| routine_model(r@))),
{
    let mut out: Vec<JsonValue> = Vec::new();
    let mut i: usize = 0;
    while i < rows.len()
        invariant
            i <= rows@.len(),
            models_of(out@) == rows@.take(i as int).map_values(|r: Vec<JsonValue>| routine_model(r@)),
        decreases rows@.len() - i,
    {
        let ghost prev = models_of(out@);
        let kind = cstr(&rows[i], 1);
        let routine_type = if str_eq(trim_str(kind.as_str()), "t") {
            string_of("PROCEDURE")
        } else {
            string_of("FUNCTION")
        };
        let mut e: Vec<(String, JsonValue)> = Vec::new();
        e.push(entry("name", string_value(cstr(&rows[i], 0))));
        e.push(entry("routine_type", string_value(routine_type)));
        e.push(entry("definition", JsonValue::Null));
        assert(entry_models(e@) =~= routine_model(rows@[i as int]@)->Obj_0);
        let v = object_value(e);
        out.push(v);
        assert(models_of(out@) =~= prev.push(routine_model(rows@[i as int]@)));
        assert(rows@.take(i + 1).map_values(|r: Vec<JsonValue>| routine_model(r@)) =~= rows@.take(
            i as int,
        ).map_values(|r: Vec<JsonValue>| routine_model(r@)).push(routine_model(rows@[i as int]@)));
        i = i + 1;
    }
    assert(rows@.take(rows@.len() as int) =~= rows@);
    array_value(out)
}

/// A list of named objects: `{name}` for tables, `{name, definition: null}`
/// for views.
pub open spec fn named_model(name: Seq<char>, with_definition: bool) -> JModel {
    if with_definition {
        JModel::Obj(seq![("name"@, JModel::Str(name)), ("definition"@, JModel::Null)])
    } else {
        JModel::Obj(seq![("name"@, JModel::Str(name))])
    }
}

/// `[{name}]` for the tables, or `[{name, definition: null}]` for views.
pub fn named_list(names: Vec<String>, with_definition: bool) -> (v: JsonValue)
    ensures
        model(v) == JModel::Arr(
            names@.map_values(|n: String| named_model(n@, with_definition)),
        ),
{
    let ghost ns = names@;
    let mut out: Vec<JsonValue> = Vec::new();
    let mut i: usize = 0;
    while i < names.len()
        invariant
            i <= ns.len(),
            ns == names@,
            models_of(out@) == ns.take(i as int).map_values(
                |n: String| named_model(n@, with_definition),
            ),
        decreases ns.len() - i,
    {
        let ghost prev = models_of(out@);
        let mut e: Vec<(String, JsonValue)> = Vec::new();
        e.push(entry("name", string_value(names[i].clone())));
        if with_definition {
            e.push(entry("definition", JsonValue::Null));
        }
        assert(entry_models(e@) =~= named_model(ns[i as int]@, with_definition)->Obj_0);
        out.push(object_value(e));
        assert(models_of(out@) =~= prev.push(named_model(ns[i as int]@, with_definition)));
        assert(ns.take(i + 1).map_values(|n: String| named_model(n@, with_definition)) =~= ns.take(
            i as int,
        ).map_values(|n: String| named_model(n@, with_definition)).push(
            named_model(ns[i as int]@, with_definition),
        ));
        i = i + 1;
    }
    assert(ns.take(ns.len() as int) =~= ns);
    array_value(out)
}

/// A JSON array of strings.
pub fn string_array(items: Vec<String>) -> (v: JsonValue)
    ensures
        model(v) == JModel::Arr(items@.map_values(|s: String| JModel::Str(s@))),
{
    let ghost ns = items@;
    let mut out: Vec<JsonValue> = Vec::new();
    let mut i: usize = 0;
    while i < items.len()
        invariant
            i <= ns.len(),
            ns == items@,
            models_of(out@) == ns.take(i as int).map_values(|s: String| JModel::Str(s@)),
        decreases ns.len() - i,
    {
        let ghost prev = models_of(out@);
        out.push(string_value(items[i].clone()));
        assert(models_of(out@) =~= prev.push(JModel::Str(ns[i as int]@)));
        assert(ns.take(i + 1).map_values(|s: String| JModel::Str(s@)) =~= ns.take(
            i as int,
        ).map_values(|s: String| JModel::Str(s@)).push(JModel::Str(ns[i as int]@)));
        i = i + 1;
    }
    assert(ns.take(ns.len() as int) =~= ns);
    array_value(out)
}

/// The database list: the names the catalog query returned when it
/// succeeded with at least one row (`rows`), otherwise the database of the
/// connection parameters, if any.
pub open spec fn databases_model(rows: Option<Seq<Vec<JsonValue>>>, top: JsonValue) -> JModel {
    match rows {
        Some(rs) => if rs.len() > 0 {
            JModel::Arr(first_column_texts(rs).map_values(|s: Seq<char>| JModel::Str(s)))
        } else {
            databases_fallback(top)
        },
        None => databases_fallback(top),
    }
}

pub open spec fn databases_fallback(top: JsonValue) -> JModel {
    let p = inner_params(top);
    JModel::Arr(
        match split_on_at_spec(
            match p.spec_get("database"@) {
                Some(d) => crate::models::database_as_str_spec(d),
                None => None,
            },
        ).0 {
            Some(db) => seq![JModel::Str(db)],
            None => Seq::empty(),
        },
    )
}

/// Answers `get_databases` from the catalog query's rows (`None` when the
/// query failed).
pub fn databases_value(rows: Option<&Vec<Vec<JsonValue>>>, top: &JsonValue) -> (v: JsonValue)
    ensures
        model(v) == databases_model(
            match rows {
                Some(r) => Some(r@),
                None => None,
            },
            *top,
        ),
{
    match rows {
        Some(r) => if r.len() > 0 {
            let names = names_from_rows(r);
            let v = string_array(names);
            assert(names@.map_values(|s: String| JModel::Str(s@)) =~= first_column_texts(
                r@,
            ).map_values(|s: Seq<char>| JModel::Str(s)));
            return v;
        },
        None => {},
    }
    let p = connection_params(top);
    let (db, _server) = p.database_and_server();
    let mut items: Vec<String> = Vec::new();
    match db {
        Some(d) => items.push(d),
        None => {},
    }
    let ghost iv = items@;
    let v = string_array(items);
    assert(iv.map_values(|s: String| JModel::Str(s@)) =~= databases_fallback(*top)->Arr_0);
    v
}

/// One table of the schema snapshot: `{name, columns, foreign_keys}`.
pub fn table_schema(name: String, columns: Vec<JsonValue>, foreign_keys: Vec<JsonValue>) -> (v:
    JsonValue)
    ensures
        model(v) == JModel::Obj(
            seq![
                ("name"@, JModel::Str(name@)),
                ("columns"@, JModel::Arr(models_of(columns@))),
                ("foreign_keys"@, JModel::Arr(models_of(foreign_keys@))),
            ],
        ),
{
    let ghost nv = name@;
    let ghost cm = models_of(columns@);
    let ghost fm = models_of(foreign_keys@);
    let mut e: Vec<(String, JsonValue)> = Vec::new();
    e.push(entry("name", string_value(name)));
    e.push(entry("columns", array_value(columns)));
    e.push(entry("foreign_keys", array_value(foreign_keys)));
    assert(entry_models(e@) =~= seq![
        ("name"@, JModel::Str(nv)),
        ("columns"@, JModel::Arr(cm)),
        ("foreign_keys"@, JModel::Arr(fm)),
    ]);
    object_value(e)
}

} // verus!
