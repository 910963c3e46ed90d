//! DDL generation for Informix.
//!
//! The SQL-generation handlers (`get_*_sql`) are pure: the host does not send
//! connection parameters, only the structural definitions, and expects back a
//! list of statements. `drop_index` / `drop_foreign_key` statements are built
//! here and run against the database by the caller.

use vstd::prelude::*;

use crate::error::{PluginError, INVALID_PARAMS};
use crate::handlers::{
    answers, field_str, is_string_list, missing_field_message, require_str, single_string_list,
    string_list, yields,
};
use crate::json::{deref_opt, JsonValue};
use crate::utils::identifiers::{
    enclose_chars, enclosed, lemma_contains_split, lemma_enclosed_free, quote_identifier, QUOTE,
};
use crate::utils::text::{
    ascii_lower, chars_of, contains_seq, contains_str, eq_ignore_ascii_case, eq_ignore_ascii_case_at, join,
    join_chars, opt_str_view, opt_view, push_chars, push_str, string_from_chars, string_of,
    to_uppercase, unicode_upper, views,
};

verus! {

/// A column definition as sent by the host (`ColumnDefinition`).
#[derive(Debug, Clone)]
pub struct ColumnDef {
    pub name: String,
    pub data_type: String,
    pub is_nullable: bool,
    pub is_pk: bool,
    pub is_auto_increment: bool,
    pub default_value: Option<String>,
}

/// What a column definition says, as text.
pub struct ColumnModel {
    pub name: Seq<char>,
    pub data_type: Seq<char>,
    pub is_nullable: bool,
    pub is_pk: bool,
    pub is_auto_increment: bool,
    pub default_value: Option<Seq<char>>,
}

impl View for ColumnDef {
    type V = ColumnModel;

    open spec fn view(&self) -> ColumnModel {
        ColumnModel {
            name: self.name@,
            data_type: self.data_type@,
            is_nullable: self.is_nullable,
            is_pk: self.is_pk,
            is_auto_increment: self.is_auto_increment,
            default_value: opt_view(self.default_value),
        }
    }
}

/// The models of a list of column definitions.
pub open spec fn models(cols: Seq<ColumnDef>) -> Seq<ColumnModel> {
    cols.map_values(|c: ColumnDef| c@)
}

// ---------------------------------------------------------------------------
// Reading column definitions
// ---------------------------------------------------------------------------

pub open spec fn bool_or(v: Option<JsonValue>, default: bool) -> bool {
    match v {
        Some(x) => match x.spec_as_bool() {
            Some(b) => b,
            None => default,
        },
        None => default,
    }
}

/// The error a column definition is refused with, if any.
pub open spec fn column_error(v: JsonValue) -> Option<Seq<char>> {
    if field_str(v, "name"@) is None {
        Some("column is missing 'name'"@)
    } else if field_str(v, "data_type"@) is None {
        Some("column is missing 'data_type'"@)
    } else {
        None
    }
}

/// The column a JSON column definition describes (when it has a name and a
/// data type): nullable unless said otherwise, neither primary key nor
/// auto-increment unless said so, and no default for an empty one.
pub open spec fn column_model(v: JsonValue) -> ColumnModel {
    ColumnModel {
        name: field_str(v, "name"@).unwrap(),
        data_type: field_str(v, "data_type"@).unwrap(),
        is_nullable: bool_or(v.spec_get("is_nullable"@), true),
        is_pk: bool_or(v.spec_get("is_pk"@), false),
        is_auto_increment: bool_or(v.spec_get("is_auto_increment"@), false),
        default_value: match field_str(v, "default_value"@) {
            Some(d) => if d.len() > 0 {
                Some(d)
            } else {
                None
            },
            None => None,
        },
    }
}

fn get_bool_or(v: &JsonValue, key: &str, default: bool) -> (b: bool)
    ensures
        b == bool_or(v.spec_get(key@), default),
{
    match v.get(key) {
        Some(x) => match x.as_bool() {
            Some(b) => b,
            None => default,
        },
        None => default,
    }
}

impl ColumnDef {
    /// Reads a column definition; `name` and `data_type` are required.
    pub fn from_value(v: &JsonValue) -> (r: Result<ColumnDef, PluginError>)
        ensures
            match r {
                Ok(c) => column_error(*v) is None && c@ == column_model(*v),
                Err(e) => column_error(*v) == Some(e.message@) && e.code == INVALID_PARAMS,
            },
    {
        let name = match v.get("name") {
            Some(x) => match x.as_str() {
                Some(s) => string_of(s),
                None => {
                    return Err(
                        PluginError::invalid_params(string_of("column is missing 'name'")),
                    )
                },
            },
            None => {
                return Err(PluginError::invalid_params(string_of("column is missing 'name'")))
            },
        };
        let data_type = match v.get("data_type") {
            Some(x) => match x.as_str() {
                Some(s) => string_of(s),
                None => {
                    return Err(
                        PluginError::invalid_params(string_of("column is missing 'data_type'")),
                    )
                },
            },
            None => {
                return Err(
                    PluginError::invalid_params(string_of("column is missing 'data_type'")),
                )
            },
        };
        let default_value = match v.get("default_value") {
            Some(x) => match x.as_str() {
                Some(s) => if s.unicode_len() > 0 {
                    Some(string_of(s))
                } else {
                    None
                },
                None => None,
            },
            None => None,
        };
        Ok(
            ColumnDef {
                name,
                data_type,
                is_nullable: get_bool_or(v, "is_nullable", true),
                is_pk: get_bool_or(v, "is_pk", false),
                is_auto_increment: get_bool_or(v, "is_auto_increment", false),
                default_value,
            },
        )
    }
}

// ---------------------------------------------------------------------------
// Pure SQL builders
// ---------------------------------------------------------------------------

/// The SERIAL family type an auto-increment column of the given type gets,
/// judged on the type's uppercased text `upper`.
pub open spec fn serial_type_spec(data_type: Seq<char>, upper: Seq<char>) -> Seq<char> {
    if contains_seq(upper, "SERIAL"@) {
        data_type
    } else if contains_seq(upper, "INT8"@) {
        "SERIAL8"@
    } else if contains_seq(upper, "BIGINT"@) {
        "BIGSERIAL"@
    } else {
        "SERIAL"@
    }
}

/// The effective Informix type of a column.
pub open spec fn effective_type_spec(c: ColumnModel) -> Seq<char> {
    if !c.is_auto_increment {
        c.data_type
    } else {
        serial_type_spec(c.data_type, unicode_upper(c.data_type))
    }
}

/// `"name" TYPE [DEFAULT d] [NOT NULL]`.
pub open spec fn column_clause_spec(c: ColumnModel) -> Seq<char> {
    enclosed(c.name, QUOTE) + " "@ + effective_type_spec(c) + (match c.default_value {
        Some(d) => " DEFAULT "@ + d,
        None => Seq::empty(),
    }) + (if !c.is_nullable && !c.is_auto_increment {
        " NOT NULL"@
    } else {
        Seq::empty()
    })
}

/// Quoted names of the primary-key columns, in column order.
pub open spec fn pk_names(cols: Seq<ColumnModel>) -> Seq<Seq<char>>
    decreases cols.len(),
{
    if cols.len() == 0 {
        Seq::empty()
    } else {
        pk_names(cols.drop_last()) + (if cols.last().is_pk {
            seq![enclosed(cols.last().name, QUOTE)]
        } else {
            Seq::empty()
        })
    }
}

/// Table body lines: one clause per column, then the primary key if any.
pub open spec fn table_lines(cols: Seq<ColumnModel>) -> Seq<Seq<char>> {
    let clauses = cols.map_values(|c: ColumnModel| column_clause_spec(c));
    if pk_names(cols).len() > 0 {
        clauses.push("PRIMARY KEY ("@ + join(pk_names(cols), ", "@) + ")"@)
    } else {
        clauses
    }
}

pub open spec fn create_table_spec(table: Seq<char>, cols: Seq<ColumnModel>) -> Seq<char> {
    "CREATE TABLE "@ + enclosed(table, QUOTE) + " (\n  "@ + join(table_lines(cols), ",\n  "@)
        + "\n)"@
}

pub open spec fn add_column_spec(table: Seq<char>, c: ColumnModel) -> Seq<char> {
    "ALTER TABLE "@ + enclosed(table, QUOTE) + " ADD "@ + column_clause_spec(c)
}

pub open spec fn rename_column_spec(table: Seq<char>, old: Seq<char>, new: Seq<char>) -> Seq<char> {
    "RENAME COLUMN "@ + enclosed(table, QUOTE) + "."@ + enclosed(old, QUOTE) + " TO "@ + enclosed(
        new,
        QUOTE,
    )
}

pub open spec fn modify_column_spec(table: Seq<char>, c: ColumnModel) -> Seq<char> {
    "ALTER TABLE "@ + enclosed(table, QUOTE) + " MODIFY ("@ + column_clause_spec(c) + ")"@
}

/// A rename when the name changes, then the new definition.
pub open spec fn alter_column_spec(table: Seq<char>, old: ColumnModel, new: ColumnModel) -> Seq<
    Seq<char>,
> {
    if old.name != new.name {
        seq![rename_column_spec(table, old.name, new.name), modify_column_spec(table, new)]
    } else {
        seq![modify_column_spec(table, new)]
    }
}

pub open spec fn quoted_all(names: Seq<Seq<char>>) -> Seq<Seq<char>> {
    names.map_values(|n: Seq<char>| enclosed(n, QUOTE))
}

pub open spec fn create_index_spec(
    table: Seq<char>,
    index: Seq<char>,
    columns: Seq<Seq<char>>,
    unique: bool,
) -> Seq<char> {
    "CREATE "@ + (if unique {
        "UNIQUE "@
    } else {
        Seq::empty()
    }) + "INDEX "@ + enclosed(index, QUOTE) + " ON "@ + enclosed(table, QUOTE) + " ("@ + join(
        quoted_all(columns),
        ", "@,
    ) + ")"@
}

/// Informix only supports `ON DELETE CASCADE` (no `ON UPDATE` actions).
pub open spec fn cascades(on_delete: Option<Seq<char>>) -> bool {
    match on_delete {
        Some(a) => eq_ignore_ascii_case(a, "CASCADE"@),
        None => false,
    }
}

pub open spec fn create_foreign_key_spec(
    table: Seq<char>,
    fk_name: Seq<char>,
    column: Seq<char>,
    ref_table: Seq<char>,
    ref_column: Seq<char>,
    on_delete: Option<Seq<char>>,
) -> Seq<char> {
    "ALTER TABLE "@ + enclosed(table, QUOTE) + " ADD CONSTRAINT FOREIGN KEY ("@ + enclosed(
        column,
        QUOTE,
    ) + ") REFERENCES "@ + enclosed(ref_table, QUOTE) + " ("@ + enclosed(ref_column, QUOTE) + ")"@
        + (if cascades(on_delete) {
        " ON DELETE CASCADE"@
    } else {
        Seq::empty()
    }) + " CONSTRAINT "@ + enclosed(fk_name, QUOTE)
}

/// Picks the SERIAL family type from the type's uppercased text `upper`.
pub fn serial_type(data_type: &str, upper: &str) -> (r: String)
    ensures
        r@ == serial_type_spec(data_type@, upper@),
{
    let uv = chars_of(upper);
    if contains_str(&uv, "SERIAL") {
        string_of(data_type)
    } else if contains_str(&uv, "INT8") {
        string_of("SERIAL8")
    } else if contains_str(&uv, "BIGINT") {
        string_of("BIGSERIAL")
    } else {
        string_of("SERIAL")
    }
}

/// Picks the effective Informix type, substituting a SERIAL family type for
/// auto-increment columns.
pub fn effective_type(col: &ColumnDef) -> (r: String)
    ensures
        r@ == effective_type_spec(col@),
{
    if !col.is_auto_increment {
        return col.data_type.clone();
    }
    let up = to_uppercase(col.data_type.as_str());
    serial_type(col.data_type.as_str(), up.as_str())
}

fn column_clause_chars(col: &ColumnDef) -> (r: Vec<char>)
    ensures
        r@ == column_clause_spec(col@),
{
    let mut out = enclose_chars(col.name.as_str(), QUOTE);
    push_str(&mut out, " ");
    let ty = effective_type(col);
    push_str(&mut out, ty.as_str());
    match &col.default_value {
        Some(def) => {
            push_str(&mut out, " DEFAULT ");
            push_str(&mut out, def.as_str());
        },
        None => {},
    }
    if !col.is_nullable && !col.is_auto_increment {
        push_str(&mut out, " NOT NULL");
    }
    assert(out@ =~= column_clause_spec(col@));
    out
}

/// `"name" TYPE [DEFAULT d] [NOT NULL]`: Informix places DEFAULT before the
/// nullability constraint, and SERIAL columns are implicitly NOT NULL.
pub fn column_clause(col: &ColumnDef) -> (r: String)
    ensures
        r@ == column_clause_spec(col@),
{
    let v = column_clause_chars(col);
    string_from_chars(&v)
}

pub fn build_create_table(table: &str, columns: &[ColumnDef]) -> (r: String)
    ensures
        r@ == create_table_spec(table@, models(columns@)),
{
    let ghost ms = models(columns@);
    let mut lines: Vec<Vec<char>> = Vec::new();
    let mut pk: Vec<Vec<char>> = Vec::new();
    let mut i: usize = 0;
    while i < columns.len()
        invariant
            i <= columns@.len(),
            ms == models(columns@),
            views(lines@) == ms.take(i as int).map_values(|c: ColumnModel| column_clause_spec(c)),
            views(pk@) == pk_names(ms.take(i as int)),
        decreases columns@.len() - i,
    {
        let ghost before_lines = views(lines@);
        let ghost before_pk = views(pk@);
        let clause = column_clause_chars(&columns[i]);
        let ghost cv = clause@;
        lines.push(clause);
        assert(views(lines@) =~= before_lines.push(cv));
        if columns[i].is_pk {
            pk.push(enclose_chars(columns[i].name.as_str(), QUOTE));
        }
        proof {
            assert(ms.take(i + 1).drop_last() =~= ms.take(i as int));
            assert(ms.take(i + 1).last() == columns@[i as int]@);
            assert(ms.take(i + 1).map_values(|c: ColumnModel| column_clause_spec(c))
                =~= ms.take(i as int).map_values(|c: ColumnModel| column_clause_spec(c)).push(
                column_clause_spec(ms[i as int]),
            ));
            assert(views(lines@) =~= ms.take(i + 1).map_values(
                |c: ColumnModel| column_clause_spec(c),
            ));
            assert(views(pk@) =~= pk_names(ms.take(i + 1)));
        }
        i = i + 1;
    }
    assert(ms.take(columns@.len() as int) =~= ms);
    if pk.len() > 0 {
        let mut line: Vec<char> = Vec::new();
        push_str(&mut line, "PRIMARY KEY (");
        let joined = join_chars(&pk, ", ");
        push_chars(&mut line, &joined);
        push_str(&mut line, ")");
        let ghost before = views(lines@);
        lines.push(line);
        assert(views(lines@) =~= before.push(line@));
    }
    assert(views(lines@) =~= table_lines(ms));
    let mut out: Vec<char> = Vec::new();
    push_str(&mut out, "CREATE TABLE ");
    let qt = enclose_chars(table, QUOTE);
    push_chars(&mut out, &qt);
    push_str(&mut out, " (\n  ");
    let body = join_chars(&lines, ",\n  ");
    push_chars(&mut out, &body);
    push_str(&mut out, "\n)");
    assert(out@ =~= create_table_spec(table@, ms));
    string_from_chars(&out)
}

pub fn build_add_column(table: &str, col: &ColumnDef) -> (r: String)
    ensures
        r@ == add_column_spec(table@, col@),
{
    let mut out: Vec<char> = Vec::new();
    push_str(&mut out, "ALTER TABLE ");
    let qt = enclose_chars(table, QUOTE);
    push_chars(&mut out, &qt);
    push_str(&mut out, " ADD ");
    let c = column_clause_chars(col);
    push_chars(&mut out, &c);
    assert(out@ =~= add_column_spec(table@, col@));
    string_from_chars(&out)
}

pub fn build_alter_column(table: &str, old: &ColumnDef, new: &ColumnDef) -> (r: Vec<String>)
    ensures
        r@.map_values(|s: String| s@) == alter_column_spec(table@, old@, new@),
{
    let mut stmts: Vec<String> = Vec::new();
    let qt = enclose_chars(table, QUOTE);
    if old.name != new.name {
        let mut out: Vec<char> = Vec::new();
        push_str(&mut out, "RENAME COLUMN ");
        push_chars(&mut out, &qt);
        push_str(&mut out, ".");
        let qo = enclose_chars(old.name.as_str(), QUOTE);
        push_chars(&mut out, &qo);
        push_str(&mut out, " TO ");
        let qn = enclose_chars(new.name.as_str(), QUOTE);
        push_chars(&mut out, &qn);
        assert(out@ =~= rename_column_spec(table@, old.name@, new.name@));
        stmts.push(string_from_chars(&out));
    }
    let mut out: Vec<char> = Vec::new();
    push_str(&mut out, "ALTER TABLE ");
    push_chars(&mut out, &qt);
    push_str(&mut out, " MODIFY (");
    let c = column_clause_chars(new);
    push_chars(&mut out, &c);
    push_str(&mut out, ")");
    assert(out@ =~= modify_column_spec(table@, new@));
    stmts.push(string_from_chars(&out));
    assert(stmts@.map_values(|s: String| s@) =~= alter_column_spec(table@, old@, new@));
    stmts
}

pub fn build_create_index(table: &str, index: &str, columns: &[String], unique: bool) -> (r:
    String)
    ensures
        r@ == create_index_spec(table@, index@, columns@.map_values(|s: String| s@), unique),
{
    let ghost names = columns@.map_values(|s: String| s@);
    let mut cols: Vec<Vec<char>> = Vec::new();
    let mut i: usize = 0;
    while i < columns.len()
        invariant
            i <= columns@.len(),
            names == columns@.map_values(|s: String| s@),
            views(cols@) == quoted_all(names.take(i as int)),
        decreases columns@.len() - i,
    {
        let ghost before = views(cols@);
        let q = enclose_chars(columns[i].as_str(), QUOTE);
        let ghost qv = q@;
        cols.push(q);
        assert(views(cols@) =~= before.push(qv));
        assert(names[i as int] == columns@[i as int]@);
        assert(quoted_all(names.take(i + 1)) =~= quoted_all(names.take(i as int)).push(
            enclosed(names[i as int], QUOTE),
        ));
        assert(views(cols@) =~= quoted_all(names.take(i + 1)));
        i = i + 1;
    }
    assert(names.take(columns@.len() as int) =~= names);
    let mut out: Vec<char> = Vec::new();
    push_str(&mut out, "CREATE ");
    if unique {
        push_str(&mut out, "UNIQUE ");
    }
    push_str(&mut out, "INDEX ");
    let qi = enclose_chars(index, QUOTE);
    push_chars(&mut out, &qi);
    push_str(&mut out, " ON ");
    let qt = enclose_chars(table, QUOTE);
    push_chars(&mut out, &qt);
    push_str(&mut out, " (");
    let joined = join_chars(&cols, ", ");
    push_chars(&mut out, &joined);
    push_str(&mut out, ")");
    assert(out@ =~= create_index_spec(table@, index@, names, unique));
    string_from_chars(&out)
}

fn is_cascade(on_delete: Option<&str>) -> (b: bool)
    ensures
        b == cascades(opt_str_view(on_delete)),
{
    match on_delete {
        Some(a) => {
            let av = chars_of(a);
            let r = eq_ignore_ascii_case_at(&av, 0, "CASCADE");
            proof {
                reveal_strlit("CASCADE");
                assert(av@.subrange(0, av@.len() as int) =~= av@);
            }
            r && av.len() == 7
        },
        None => false,
    }
}

pub fn build_create_foreign_key(
    table: &str,
    fk_name: &str,
    column: &str,
    ref_table: &str,
    ref_column: &str,
    on_delete: Option<&str>,
) -> (r: String)
    ensures
        r@ == create_foreign_key_spec(
            table@,
            fk_name@,
            column@,
            ref_table@,
            ref_column@,
            opt_str_view(on_delete),
        ),
{
    let mut out: Vec<char> = Vec::new();
    push_str(&mut out, "ALTER TABLE ");
    let q = enclose_chars(table, QUOTE);
    push_chars(&mut out, &q);
    push_str(&mut out, " ADD CONSTRAINT FOREIGN KEY (");
    let q = enclose_chars(column, QUOTE);
    push_chars(&mut out, &q);
    push_str(&mut out, ") REFERENCES ");
    let q = enclose_chars(ref_table, QUOTE);
    push_chars(&mut out, &q);
    push_str(&mut out, " (");
    let q = enclose_chars(ref_column, QUOTE);
    push_chars(&mut out, &q);
    push_str(&mut out, ")");
    if is_cascade(on_delete) {
        push_str(&mut out, " ON DELETE CASCADE");
    }
    push_str(&mut out, " CONSTRAINT ");
    let q = enclose_chars(fk_name, QUOTE);
    push_chars(&mut out, &q);
    assert(out@ =~= create_foreign_key_spec(
        table@,
        fk_name@,
        column@,
        ref_table@,
        ref_column@,
        opt_str_view(on_delete),
    ));
    string_from_chars(&out)
}

// ---------------------------------------------------------------------------
// Laws of the generated DDL
// ---------------------------------------------------------------------------

/// Some column is a primary-key column.
pub open spec fn has_pk(cols: Seq<ColumnModel>) -> bool {
    exists|i: int| 0 <= i < cols.len() && #[trigger] cols[i].is_pk
}

proof fn lemma_pk_names_nonempty(cols: Seq<ColumnModel>)
    ensures
        (pk_names(cols).len() > 0) == has_pk(cols),
    decreases cols.len(),
{
    if cols.len() > 0 {
        let init = cols.drop_last();
        lemma_pk_names_nonempty(init);
        if has_pk(init) {
            let i = choose|i: int| 0 <= i < init.len() && #[trigger] init[i].is_pk;
            assert(cols[i].is_pk);
        }
        if has_pk(cols) && !cols.last().is_pk {
            let i = choose|i: int| 0 <= i < cols.len() && #[trigger] cols[i].is_pk;
            assert(i < cols.len() - 1);
            assert(init[i].is_pk);
        }
    }
}

/// The `CREATE TABLE` body holds one clause per column, in column order,
/// followed by a `PRIMARY KEY` line exactly when some column is a
/// primary-key column; that line names the primary-key columns in column
/// order.
pub proof fn law_primary_key_line(cols: Seq<ColumnModel>)
    ensures
        table_lines(cols).len() == cols.len() + (if has_pk(cols) {
            1int
        } else {
            0int
        }),
        forall|i: int|
            0 <= i < cols.len() ==> #[trigger] table_lines(cols)[i] == column_clause_spec(cols[i]),
        has_pk(cols) ==> table_lines(cols).last() == "PRIMARY KEY ("@ + join(pk_names(cols), ", "@)
            + ")"@,
{
    lemma_pk_names_nonempty(cols);
}

/// The `CREATE TABLE` statement for small tables: one column `a` that is
/// not a primary key gives `CREATE TABLE "t" (\n  <a>\n)`; two such columns
/// give their clauses in order, separated by `,\n  `; and a single
/// primary-key column `a` adds the line `PRIMARY KEY ("a")` after its
/// clause.
pub proof fn law_create_table_layout(t: Seq<char>, a: ColumnModel, b: ColumnModel)
    ensures
        !a.is_pk ==> create_table_spec(t, seq![a]) == "CREATE TABLE "@ + enclosed(t, QUOTE)
            + " (\n  "@ + column_clause_spec(a) + "\n)"@,
        !a.is_pk && !b.is_pk ==> create_table_spec(t, seq![a, b]) == "CREATE TABLE "@ + enclosed(
            t,
            QUOTE,
        ) + " (\n  "@ + column_clause_spec(a) + ",\n  "@ + column_clause_spec(b) + "\n)"@,
        a.is_pk ==> create_table_spec(t, seq![a]) == "CREATE TABLE "@ + enclosed(t, QUOTE)
            + " (\n  "@ + column_clause_spec(a) + ",\n  "@ + "PRIMARY KEY ("@ + enclosed(
            a.name,
            QUOTE,
        ) + ")"@ + "\n)"@,
{
    let one = seq![a];
    let two = seq![a, b];
    assert(one.drop_last() =~= Seq::<ColumnModel>::empty());
    assert(two.drop_last() =~= one);
    assert(pk_names(Seq::<ColumnModel>::empty()) =~= Seq::<Seq<char>>::empty());
    let c1 = one.map_values(|c: ColumnModel| column_clause_spec(c));
    assert(c1 =~= seq![column_clause_spec(a)]);
    let c2 = two.map_values(|c: ColumnModel| column_clause_spec(c));
    assert(c2 =~= seq![column_clause_spec(a), column_clause_spec(b)]);
    if !a.is_pk {
        assert(pk_names(one) =~= Seq::<Seq<char>>::empty());
        assert(table_lines(one) == c1);
        assert(join(c1, ",\n  "@) == column_clause_spec(a));
        if !b.is_pk {
            assert(pk_names(two) =~= Seq::<Seq<char>>::empty());
            assert(table_lines(two) == c2);
            assert(c2.drop_last() =~= c1);
            assert(join(c2, ",\n  "@) == column_clause_spec(a) + ",\n  "@ + column_clause_spec(b));
        }
    } else {
        let k = enclosed(a.name, QUOTE);
        assert(pk_names(one) =~= seq![k]);
        assert(join(seq![k], ", "@) == k);
        let pkl = "PRIMARY KEY ("@ + k + ")"@;
        let lines = c1.push(pkl);
        assert(table_lines(one) == lines);
        assert(lines.drop_last() =~= c1);
        assert(lines.len() == 2);
        assert(lines.last() == pkl);
        assert(join(c1, ",\n  "@) == column_clause_spec(a));
        assert(join(lines, ",\n  "@) == join(lines.drop_last(), ",\n  "@) + ",\n  "@ + lines.last());
        assert(join(lines, ",\n  "@) == column_clause_spec(a) + ",\n  "@ + pkl);
        assert(create_table_spec(t, one) =~= "CREATE TABLE "@ + enclosed(t, QUOTE) + " (\n  "@
            + column_clause_spec(a) + ",\n  "@ + "PRIMARY KEY ("@ + k + ")"@ + "\n)"@);
    }
}

/// Altering a column renames it only when its name changes, and always ends
/// with the column's new definition.
pub proof fn law_alter_renames_only_on_name_change(
    table: Seq<char>,
    old: ColumnModel,
    new: ColumnModel,
)
    ensures
        alter_column_spec(table, old, new).len() == (if old.name == new.name {
            1int
        } else {
            2int
        }),
        alter_column_spec(table, old, new).last() == modify_column_spec(table, new),
        old.name != new.name ==> alter_column_spec(table, old, new)[0] == rename_column_spec(
            table,
            old.name,
            new.name,
        ),
        old.name != new.name ==> alter_column_spec(table, old, new)[0] == "RENAME COLUMN "@
            + enclosed(table, QUOTE) + "."@ + enclosed(old.name, QUOTE) + " TO "@ + enclosed(
            new.name,
            QUOTE,
        ),
        alter_column_spec(table, old, new).last() == "ALTER TABLE "@ + enclosed(table, QUOTE)
            + " MODIFY ("@ + column_clause_spec(new) + ")"@,
{
}

/// An auto-increment column gets a SERIAL family type (its own type when
/// that already names SERIAL; SERIAL8 for an INT8 type, BIGSERIAL for a
/// BIGINT type, SERIAL otherwise, the type read in upper case) and no
/// explicit `NOT NULL`, SERIAL columns being implicitly NOT NULL.
pub proof fn law_serial_columns(c: ColumnModel)
    requires
        c.is_auto_increment,
    ensures
        column_clause_spec(c) == enclosed(c.name, QUOTE) + " "@ + effective_type_spec(c) + (
        match c.default_value {
            Some(d) => " DEFAULT "@ + d,
            None => Seq::empty(),
        }),
        contains_seq(unicode_upper(c.data_type), "SERIAL"@) ==> effective_type_spec(c)
            == c.data_type,
        !contains_seq(unicode_upper(c.data_type), "SERIAL"@) ==> (effective_type_spec(c)
            == "SERIAL8"@ || effective_type_spec(c) == "BIGSERIAL"@ || effective_type_spec(c)
            == "SERIAL"@),
        !contains_seq(unicode_upper(c.data_type), "SERIAL"@) && contains_seq(
            unicode_upper(c.data_type),
            "INT8"@,
        ) ==> effective_type_spec(c) == "SERIAL8"@,
        !contains_seq(unicode_upper(c.data_type), "SERIAL"@) && !contains_seq(
            unicode_upper(c.data_type),
            "INT8"@,
        ) && contains_seq(unicode_upper(c.data_type), "BIGINT"@) ==> effective_type_spec(c)
            == "BIGSERIAL"@,
        !contains_seq(unicode_upper(c.data_type), "SERIAL"@) && !contains_seq(
            unicode_upper(c.data_type),
            "INT8"@,
        ) && !contains_seq(unicode_upper(c.data_type), "BIGINT"@) ==> effective_type_spec(c)
            == "SERIAL"@,
{
    assert(column_clause_spec(c) =~= enclosed(c.name, QUOTE) + " "@ + effective_type_spec(c) + (
    match c.default_value {
        Some(d) => " DEFAULT "@ + d,
        None => Seq::empty(),
    }));
}

proof fn lemma_lit_free(lit: Seq<char>, n: Seq<char>, k: int)
    requires
        0 <= k < n.len(),
        !lit.contains(n[k]),
    ensures
        !contains_seq(lit, n),
{
    if contains_seq(lit, n) {
        let i = choose|i: int|
            0 <= i && i + n.len() <= lit.len() && #[trigger] lit.subrange(i, i + n.len()) == n;
        assert(lit[i + k] == lit.subrange(i, i + n.len())[k]);
    }
}

proof fn lemma_no_contains_concat(a: Seq<char>, b: Seq<char>, n: Seq<char>)
    requires
        !contains_seq(a, n),
        !contains_seq(b, n),
        !n.contains(QUOTE),
        (a.len() > 0 && a.last() == QUOTE) || (b.len() > 0 && b[0] == QUOTE),
    ensures
        !contains_seq(a + b, n),
{
    if contains_seq(a + b, n) {
        lemma_contains_split(a, b, n, QUOTE);
    }
}

/// The statement text around the quoted names, with `mid` standing for what
/// comes between the referenced column and the constraint name.
pub open spec fn fk_pieces(
    table: Seq<char>,
    fk_name: Seq<char>,
    column: Seq<char>,
    ref_table: Seq<char>,
    ref_column: Seq<char>,
    mid: Seq<char>,
) -> Seq<char> {
    "ALTER TABLE "@ + (enclosed(table, QUOTE) + (" ADD CONSTRAINT FOREIGN KEY ("@ + (enclosed(
        column,
        QUOTE,
    ) + (") REFERENCES "@ + (enclosed(ref_table, QUOTE) + (" ("@ + (enclosed(ref_column, QUOTE)
        + (mid + enclosed(fk_name, QUOTE)))))))))
}

/// Quote-free text that none of the names and none of the literal pieces
/// hold is not held by the whole statement either.
proof fn lemma_fk_pieces_free(
    table: Seq<char>,
    fk_name: Seq<char>,
    column: Seq<char>,
    ref_table: Seq<char>,
    ref_column: Seq<char>,
    mid: Seq<char>,
    n: Seq<char>,
)
    requires
        n.len() > 0,
        !n.contains(QUOTE),
        !contains_seq(table, n),
        !contains_seq(fk_name, n),
        !contains_seq(column, n),
        !contains_seq(ref_table, n),
        !contains_seq(ref_column, n),
        !contains_seq("ALTER TABLE "@, n),
        !contains_seq(" ADD CONSTRAINT FOREIGN KEY ("@, n),
        !contains_seq(") REFERENCES "@, n),
        !contains_seq(" ("@, n),
        !contains_seq(mid, n),
    ensures
        !contains_seq(fk_pieces(table, fk_name, column, ref_table, ref_column, mid), n),
{
    lemma_enclosed_free(table, QUOTE, n);
    lemma_enclosed_free(fk_name, QUOTE, n);
    lemma_enclosed_free(column, QUOTE, n);
    lemma_enclosed_free(ref_table, QUOTE, n);
    lemma_enclosed_free(ref_column, QUOTE, n);
    let r9 = mid + enclosed(fk_name, QUOTE);
    lemma_no_contains_concat(mid, enclosed(fk_name, QUOTE), n);
    let r8 = enclosed(ref_column, QUOTE) + r9;
    lemma_no_contains_concat(enclosed(ref_column, QUOTE), r9, n);
    let r7 = " ("@ + r8;
    assert(r8[0] == QUOTE);
    lemma_no_contains_concat(" ("@, r8, n);
    let r6 = enclosed(ref_table, QUOTE) + r7;
    lemma_no_contains_concat(enclosed(ref_table, QUOTE), r7, n);
    let r5 = ") REFERENCES "@ + r6;
    assert(r6[0] == QUOTE);
    lemma_no_contains_concat(") REFERENCES "@, r6, n);
    let r4 = enclosed(column, QUOTE) + r5;
    lemma_no_contains_concat(enclosed(column, QUOTE), r5, n);
    let r3 = " ADD CONSTRAINT FOREIGN KEY ("@ + r4;
    assert(r4[0] == QUOTE);
    lemma_no_contains_concat(" ADD CONSTRAINT FOREIGN KEY ("@, r4, n);
    let r2 = enclosed(table, QUOTE) + r3;
    lemma_no_contains_concat(enclosed(table, QUOTE), r3, n);
    assert(r2[0] == QUOTE);
    lemma_no_contains_concat("ALTER TABLE "@, r2, n);
}

/// None of the names mentions an action.
pub open spec fn action_free(x: Seq<char>) -> bool {
    !contains_seq(x, "ON UPDATE"@) && !contains_seq(x, "ON DELETE"@)
}

/// Which delete actions cascade: the word `CASCADE` in any ASCII case does
/// (`CASCADE`, `cascade`, `Cascade`); `RESTRICT`, `SET NULL`, `NO ACTION`,
/// an empty action and no action at all do not.
pub proof fn law_cascade_actions()
    ensures
        cascades(Some(seq!['C', 'A', 'S', 'C', 'A', 'D', 'E'])),
        cascades(Some(seq!['c', 'a', 's', 'c', 'a', 'd', 'e'])),
        cascades(Some(seq!['C', 'a', 's', 'c', 'a', 'd', 'e'])),
        !cascades(Some(seq!['R', 'E', 'S', 'T', 'R', 'I', 'C', 'T'])),
        !cascades(Some(seq!['S', 'E', 'T', ' ', 'N', 'U', 'L', 'L'])),
        !cascades(Some(seq!['N', 'O', ' ', 'A', 'C', 'T', 'I', 'O', 'N'])),
        !cascades(Some(Seq::empty())),
        !cascades(None),
{
    reveal_strlit("CASCADE");
    let w = seq!['C', 'A', 'S', 'C', 'A', 'D', 'E'];
    assert("CASCADE"@ =~= w);
    let r = seq!['R', 'E', 'S', 'T', 'R', 'I', 'C', 'T'];
    assert(r.len() != w.len());
    let n = seq!['N', 'O', ' ', 'A', 'C', 'T', 'I', 'O', 'N'];
    assert(n.len() != w.len());
    let sn = seq!['S', 'E', 'T', ' ', 'N', 'U', 'L', 'L'];
    assert(sn.len() != w.len());
    let lo = seq!['c', 'a', 's', 'c', 'a', 'd', 'e'];
    assert(eq_ignore_ascii_case(lo, w)) by {
        assert forall|i: int| 0 <= i < lo.len() implies ascii_lower(#[trigger] lo[i]) == ascii_lower(
            w[i],
        ) by {
            assert(0 <= i < 7);
        }
    }
    let mixed = seq!['C', 'a', 's', 'c', 'a', 'd', 'e'];
    assert(eq_ignore_ascii_case(mixed, w)) by {
        assert forall|i: int| 0 <= i < mixed.len() implies ascii_lower(#[trigger] mixed[i])
            == ascii_lower(w[i]) by {
            assert(0 <= i < 7);
        }
    }
    assert(eq_ignore_ascii_case(w, w));
}

/// A foreign-key statement carries `ON DELETE CASCADE` exactly when the
/// action asked for is CASCADE (in any ASCII case), never an `ON UPDATE`
/// clause (Informix has none), and ends with the constraint's quoted name;
/// this holds whenever none of the names itself mentions an action.
pub proof fn law_foreign_key_statement(
    table: Seq<char>,
    fk_name: Seq<char>,
    column: Seq<char>,
    ref_table: Seq<char>,
    ref_column: Seq<char>,
    on_delete: Option<Seq<char>>,
    s: Seq<char>,
)
    requires
        s == create_foreign_key_spec(table, fk_name, column, ref_table, ref_column, on_delete),
        action_free(table),
        action_free(fk_name),
        action_free(column),
        action_free(ref_table),
        action_free(ref_column),
    ensures
        !contains_seq(s, "ON UPDATE"@),
        contains_seq(s, " ON DELETE CASCADE"@) == cascades(on_delete),
        s.len() >= (" CONSTRAINT "@ + enclosed(fk_name, QUOTE)).len(),
        s.skip(s.len() - (" CONSTRAINT "@ + enclosed(fk_name, QUOTE)).len()) == " CONSTRAINT "@
            + enclosed(fk_name, QUOTE),
{
    reveal_strlit("ALTER TABLE ");
    reveal_strlit(" ADD CONSTRAINT FOREIGN KEY (");
    reveal_strlit(") REFERENCES ");
    reveal_strlit(" (");
    reveal_strlit(")");
    reveal_strlit(" ON DELETE CASCADE");
    reveal_strlit(" CONSTRAINT ");
    reveal_strlit("ON UPDATE");
    reveal_strlit("ON DELETE");
    let n1 = "ON UPDATE"@;
    let n2 = "ON DELETE"@;
    let long = " ON DELETE CASCADE"@;
    assert(n1 =~= seq!['O', 'N', ' ', 'U', 'P', 'D', 'A', 'T', 'E']);
    assert(n2 =~= seq!['O', 'N', ' ', 'D', 'E', 'L', 'E', 'T', 'E']);
    assert(long =~= seq![' '] + n2 + seq![' ', 'C', 'A', 'S', 'C', 'A', 'D', 'E']);
    assert(!n1.contains(QUOTE));
    assert(!n2.contains(QUOTE));
    let opt = if cascades(on_delete) {
        long
    } else {
        Seq::<char>::empty()
    };
    let mid = ")"@ + opt + " CONSTRAINT "@;
    let tail = " CONSTRAINT "@ + enclosed(fk_name, QUOTE);
    assert(s =~= fk_pieces(table, fk_name, column, ref_table, ref_column, mid));
    // "ON UPDATE" needs a 'P', which no literal piece has.
    assert(!"ALTER TABLE "@.contains('P'));
    assert(!" ADD CONSTRAINT FOREIGN KEY ("@.contains('P'));
    assert(!") REFERENCES "@.contains('P'));
    assert(!" ("@.contains('P'));
    assert(!mid.contains('P'));
    lemma_lit_free("ALTER TABLE "@, n1, 4);
    lemma_lit_free(" ADD CONSTRAINT FOREIGN KEY ("@, n1, 4);
    lemma_lit_free(") REFERENCES "@, n1, 4);
    lemma_lit_free(" ("@, n1, 4);
    lemma_lit_free(mid, n1, 4);
    lemma_fk_pieces_free(table, fk_name, column, ref_table, ref_column, mid, n1);
    if cascades(on_delete) {
        let p = s.len() - tail.len() - long.len();
        assert(s.subrange(p, p + long.len()) =~= long);
    } else {
        // "ON DELETE" needs a 'D' that no literal piece has, but for the
        // "ADD", which has no 'L'.
        assert(!"ALTER TABLE "@.contains('D'));
        assert(!" ADD CONSTRAINT FOREIGN KEY ("@.contains('L'));
        assert(!") REFERENCES "@.contains('D'));
        assert(!" ("@.contains('D'));
        assert(!mid.contains('D'));
        lemma_lit_free("ALTER TABLE "@, n2, 3);
        lemma_lit_free(" ADD CONSTRAINT FOREIGN KEY ("@, n2, 5);
        lemma_lit_free(") REFERENCES "@, n2, 3);
        lemma_lit_free(" ("@, n2, 3);
        lemma_lit_free(mid, n2, 3);
        lemma_fk_pieces_free(table, fk_name, column, ref_table, ref_column, mid, n2);
        if contains_seq(s, long) {
            let i = choose|i: int|
                0 <= i && i + long.len() <= s.len() && #[trigger] s.subrange(i, i + long.len())
                    == long;
            assert(long.subrange(1, 10) =~= n2);
            assert(s.subrange(i + 1, i + 10) =~= s.subrange(i, i + long.len()).subrange(1, 10));
            assert(s.subrange(i + 1, i + 1 + n2.len()) =~= n2);
        }
    }
    assert(s.skip(s.len() - tail.len()) =~= tail);
}

/// How a host column definition is read: the name and data type are the
/// strings given under `name` and `data_type` (the definition is refused
/// when either is missing or not a string); the default is the string under
/// `default_value` whenever it is non-empty, and there is no default for an
/// empty string, a missing entry or a value that is not a string; the
/// column is nullable unless `is_nullable` is `false`, and it is a primary
/// key or auto-increment only when `is_pk` / `is_auto_increment` is `true`.
pub proof fn law_column_definition(v: JsonValue, name: String, data_type: String, d: String)
    ensures
        !(v.spec_get("name"@) matches Some(JsonValue::String(_))) ==> column_error(v) == Some(
            "column is missing 'name'"@,
        ),
        v.spec_get("name"@) matches Some(JsonValue::String(_)) && !(v.spec_get("data_type"@) matches Some(
            JsonValue::String(_),
        )) ==> column_error(v) == Some("column is missing 'data_type'"@),
        v.spec_get("name"@) == Some(JsonValue::String(name)) && v.spec_get("data_type"@) == Some(
            JsonValue::String(data_type),
        ) ==> column_error(v) is None && column_model(v).name == name@ && column_model(v).data_type
            == data_type@,
        v.spec_get("default_value"@) == Some(JsonValue::String(d)) && d@.len() > 0 ==> column_model(
            v,
        ).default_value == Some(d@),
        v.spec_get("default_value"@) == Some(JsonValue::String(d)) && d@.len() == 0 ==> column_model(
            v,
        ).default_value is None,
        !(v.spec_get("default_value"@) matches Some(JsonValue::String(_))) ==> column_model(
            v,
        ).default_value is None,
        column_model(v).is_nullable == !(v.spec_get("is_nullable"@) == Some(JsonValue::Bool(false))),
        column_model(v).is_pk == (v.spec_get("is_pk"@) == Some(JsonValue::Bool(true))),
        column_model(v).is_auto_increment == (v.spec_get("is_auto_increment"@) == Some(
            JsonValue::Bool(true),
        )),
{
}

/// A column clause starts with the quoted name, a space and the effective
/// type (the declared type unless the column is auto-increment); it holds
/// ` DEFAULT d` for a column with default `d`; it ends with ` NOT NULL` for
/// a column that is neither nullable nor auto-increment; and a column with
/// neither a default nor `NOT NULL` is just name and type.
pub proof fn law_column_clause(c: ColumnModel)
    ensures
        (enclosed(c.name, QUOTE) + " "@ + effective_type_spec(c)).is_prefix_of(
            column_clause_spec(c),
        ),
        !c.is_auto_increment ==> effective_type_spec(c) == c.data_type,
        c.default_value matches Some(d) ==> contains_seq(column_clause_spec(c), " DEFAULT "@ + d),
        !c.is_nullable && !c.is_auto_increment ==> column_clause_spec(c).len() >= 9
            && column_clause_spec(c).skip(column_clause_spec(c).len() - 9) == " NOT NULL"@,
        c.default_value is None && (c.is_nullable || c.is_auto_increment) ==> column_clause_spec(c)
            == enclosed(c.name, QUOTE) + " "@ + effective_type_spec(c),
        contains_seq(add_column_spec("t"@, c), column_clause_spec(c)),
{
    reveal_strlit(" NOT NULL");
    let head = enclosed(c.name, QUOTE) + " "@ + effective_type_spec(c);
    let dflt = match c.default_value {
        Some(d) => " DEFAULT "@ + d,
        None => Seq::empty(),
    };
    let nn = if !c.is_nullable && !c.is_auto_increment {
        " NOT NULL"@
    } else {
        Seq::empty()
    };
    let cl = column_clause_spec(c);
    assert(cl =~= head + dflt + nn);
    assert(cl.take(head.len() as int) =~= head);
    if c.default_value is Some {
        assert(cl.subrange(head.len() as int, (head.len() + dflt.len()) as int) =~= dflt);
    }
    if !c.is_nullable && !c.is_auto_increment {
        assert(cl.skip(cl.len() - 9) =~= nn);
    }
    let a = add_column_spec("t"@, c);
    let pre = "ALTER TABLE "@ + enclosed("t"@, QUOTE) + " ADD "@;
    assert(a =~= pre + cl);
    assert(a.subrange(pre.len() as int, (pre.len() + cl.len()) as int) =~= cl);
}

/// The `ALTER TABLE ... ADD` statement carries the column's default: for
/// any column definition with a non-empty default `d`, the statement holds
/// ` DEFAULT d`.
pub proof fn law_add_column_keeps_default(table: Seq<char>, v: JsonValue, d: String)
    requires
        v.spec_get("default_value"@) == Some(JsonValue::String(d)),
        d@.len() > 0,
    ensures
        contains_seq(add_column_spec(table, column_model(v)), " DEFAULT "@ + d@),
{
    let c = column_model(v);
    law_column_clause(c);
    let cl = column_clause_spec(c);
    let a = add_column_spec(table, c);
    let pre = "ALTER TABLE "@ + enclosed(table, QUOTE) + " ADD "@;
    assert(a =~= pre + cl);
    let n = " DEFAULT "@ + d@;
    let i = choose|i: int| 0 <= i && i + n.len() <= cl.len() && #[trigger] cl.subrange(i, i + n.len()) == n;
    assert(a.subrange(pre.len() + i, pre.len() + i + n.len()) =~= cl.subrange(i, i + n.len()));
}

/// `CREATE [UNIQUE ]INDEX "index" ON "table" ("c1", "c2", ...)`: `UNIQUE`
/// exactly for a unique index, every name quoted, the columns in order.
pub proof fn law_create_index(table: Seq<char>, index: Seq<char>, columns: Seq<Seq<char>>, unique: bool)
    ensures
        create_index_spec(table, index, columns, unique) == (if unique {
            "CREATE UNIQUE INDEX "@
        } else {
            "CREATE INDEX "@
        }) + enclosed(index, QUOTE) + " ON "@ + enclosed(table, QUOTE) + " ("@ + join(
            columns.map_values(|c: Seq<char>| enclosed(c, QUOTE)),
            ", "@,
        ) + ")"@,
{
    reveal_strlit("CREATE UNIQUE INDEX ");
    reveal_strlit("CREATE INDEX ");
    reveal_strlit("CREATE ");
    reveal_strlit("UNIQUE ");
    reveal_strlit("INDEX ");
    assert(quoted_all(columns) =~= columns.map_values(|c: Seq<char>| enclosed(c, QUOTE)));
    if unique {
        assert("CREATE "@ + "UNIQUE "@ + "INDEX "@ =~= "CREATE UNIQUE INDEX "@);
    } else {
        assert("CREATE "@ + Seq::<char>::empty() + "INDEX "@ =~= "CREATE INDEX "@);
    }
    assert(create_index_spec(table, index, columns, unique) =~= (if unique {
        "CREATE UNIQUE INDEX "@
    } else {
        "CREATE INDEX "@
    }) + enclosed(index, QUOTE) + " ON "@ + enclosed(table, QUOTE) + " ("@ + join(
        columns.map_values(|c: Seq<char>| enclosed(c, QUOTE)),
        ", "@,
    ) + ")"@);
}

// ---------------------------------------------------------------------------
// Request handlers
// ---------------------------------------------------------------------------

/// The first refused column definition's error, if any.
pub open spec fn first_column_error(items: Seq<JsonValue>) -> Option<Seq<char>>
    decreases items.len(),
{
    if items.len() == 0 {
        None
    } else {
        match column_error(items[0]) {
            Some(m) => Some(m),
            None => first_column_error(items.drop_first()),
        }
    }
}

/// The items of the array under `key`, empty when there is none.
pub open spec fn array_items(top: JsonValue, key: Seq<char>) -> Seq<JsonValue> {
    match top.spec_get(key) {
        Some(JsonValue::Array(a)) => a@,
        _ => Seq::empty(),
    }
}

/// Why the column list under `key` is refused, if it is.
pub open spec fn columns_error(top: JsonValue, key: Seq<char>) -> Option<Seq<char>> {
    match top.spec_get(key) {
        Some(JsonValue::Array(a)) => first_column_error(a@),
        _ => Some("missing '"@ + key + "' array"@),
    }
}

/// The column models of the array under `key`.
pub open spec fn column_models(top: JsonValue, key: Seq<char>) -> Seq<ColumnModel> {
    array_items(top, key).map_values(|v: JsonValue| column_model(v))
}

proof fn lemma_first_column_error_prefix(items: Seq<JsonValue>, i: int)
    requires
        0 <= i < items.len(),
        forall|k: int| 0 <= k < i ==> column_error(#[trigger] items[k]) is None,
    ensures
        first_column_error(items) == (match column_error(items[i]) {
            Some(m) => Some(m),
            None => first_column_error(items.skip(i + 1)),
        }),
    decreases i,
{
    if i > 0 {
        let t = items.drop_first();
        assert forall|k: int| 0 <= k < i - 1 implies column_error(#[trigger] t[k]) is None by {
            assert(t[k] == items[k + 1]);
        }
        lemma_first_column_error_prefix(t, i - 1);
        assert(t.skip(i) =~= items.skip(i + 1));
        assert(column_error(items[0]) is None);
    } else {
        assert(items.drop_first() =~= items.skip(1));
    }
}

/// Reads the column definitions held in the array under `key`.
pub fn columns_from(top: &JsonValue, key: &str) -> (r: Result<Vec<ColumnDef>, PluginError>)
    ensures
        match r {
            Ok(cols) => columns_error(*top, key@) is None && models(cols@) == column_models(
                *top,
                key@,
            ),
            Err(e) => columns_error(*top, key@) == Some(e.message@) && e.code == INVALID_PARAMS,
        },
{
    let arr = match top.get(key) {
        Some(v) => match v.as_array() {
            Some(a) => a,
            None => {
                let mut m: Vec<char> = Vec::new();
                push_str(&mut m, "missing '");
                push_str(&mut m, key);
                push_str(&mut m, "' array");
                assert(m@ =~= "missing '"@ + key@ + "' array"@);
                return Err(PluginError::invalid_params(string_from_chars(&m)));
            },
        },
        None => {
            let mut m: Vec<char> = Vec::new();
            push_str(&mut m, "missing '");
            push_str(&mut m, key);
            push_str(&mut m, "' array");
            assert(m@ =~= "missing '"@ + key@ + "' array"@);
            return Err(PluginError::invalid_params(string_from_chars(&m)));
        },
    };
    let ghost items = arr@;
    assert(items == array_items(*top, key@));
    let mut cols: Vec<ColumnDef> = Vec::new();
    let mut i: usize = 0;
    while i < arr.len()
        invariant
            i <= arr@.len(),
            items == arr@,
            columns_error(*top, key@) == first_column_error(items),
            forall|k: int| 0 <= k < i ==> column_error(#[trigger] items[k]) is None,
            models(cols@) == items.take(i as int).map_values(|v: JsonValue| column_model(v)),
        decreases arr@.len() - i,
    {
        proof {
            lemma_first_column_error_prefix(items, i as int);
        }
        let c = ColumnDef::from_value(&arr[i]);
        match c {
            Ok(c) => {
                let ghost before = models(cols@);
                let ghost cm = c@;
                cols.push(c);
                assert(models(cols@) =~= before.push(cm));
                assert(items.take(i + 1).map_values(|v: JsonValue| column_model(v))
                    =~= items.take(i as int).map_values(|v: JsonValue| column_model(v)).push(
                    column_model(items[i as int]),
                ));
            },
            Err(e) => {
                return Err(e);
            },
        }
        i = i + 1;
    }
    proof {
        assert(items.take(arr@.len() as int) =~= items);
        lemma_no_column_error(items);
    }
    Ok(cols)
}

proof fn lemma_no_column_error(items: Seq<JsonValue>)
    requires
        forall|k: int| 0 <= k < items.len() ==> column_error(#[trigger] items[k]) is None,
    ensures
        first_column_error(items) is None,
    decreases items.len(),
{
    if items.len() > 0 {
        let t = items.drop_first();
        assert forall|k: int| 0 <= k < t.len() implies column_error(#[trigger] t[k]) is None by {
            assert(t[k] == items[k + 1]);
        }
        lemma_no_column_error(t);
        assert(column_error(items[0]) is None);
    }
}

/// What `get_create_table_sql` answers.
pub open spec fn create_table_outcome(top: JsonValue) -> Result<Seq<Seq<char>>, Seq<char>> {
    match field_str(top, "table_name"@) {
        None => Err(missing_field_message("table_name"@)),
        Some(table) => match columns_error(top, "columns"@) {
            Some(m) => Err(m),
            None => Ok(seq![create_table_spec(table, column_models(top, "columns"@))]),
        },
    }
}

pub fn get_create_table_sql(top: &JsonValue) -> (r: Result<JsonValue, PluginError>)
    ensures
        answers(r, create_table_outcome(*top)),
{
    let table = require_str(top, "table_name")?;
    let columns = columns_from(top, "columns")?;
    let sql = build_create_table(table, columns.as_slice());
    Ok(single_string_list(sql))
}

/// Reads the column definition under `key`, erroring when it is absent.
fn column_at(top: &JsonValue, key: &str) -> (r: Result<ColumnDef, PluginError>)
    ensures
        match r {
            Ok(c) => top.spec_get(key@) matches Some(v) && column_error(v) is None && c@
                == column_model(v),
            Err(e) => e.code == INVALID_PARAMS && e.message@ == (match top.spec_get(key@) {
                None => "missing '"@ + key@ + "'"@,
                Some(v) => column_error(v).unwrap(),
            }) && (top.spec_get(key@) matches Some(v) ==> column_error(v) is Some),
        },
{
    match top.get(key) {
        Some(v) => ColumnDef::from_value(v),
        None => {
            let mut m: Vec<char> = Vec::new();
            push_str(&mut m, "missing '");
            push_str(&mut m, key);
            push_str(&mut m, "'");
            assert(m@ =~= "missing '"@ + key@ + "'"@);
            Err(PluginError::invalid_params(string_from_chars(&m)))
        },
    }
}

/// The column definition under `key`, or why it is refused.
pub open spec fn column_outcome(top: JsonValue, key: Seq<char>) -> Result<ColumnModel, Seq<char>> {
    match top.spec_get(key) {
        None => Err("missing '"@ + key + "'"@),
        Some(v) => match column_error(v) {
            Some(m) => Err(m),
            None => Ok(column_model(v)),
        },
    }
}

/// What `get_add_column_sql` answers.
pub open spec fn add_column_outcome(top: JsonValue) -> Result<Seq<Seq<char>>, Seq<char>> {
    match field_str(top, "table"@) {
        None => Err(missing_field_message("table"@)),
        Some(table) => match column_outcome(top, "column"@) {
            Err(m) => Err(m),
            Ok(c) => Ok(seq![add_column_spec(table, c)]),
        },
    }
}

pub fn get_add_column_sql(top: &JsonValue) -> (r: Result<JsonValue, PluginError>)
    ensures
        answers(r, add_column_outcome(*top)),
{
    let table = require_str(top, "table")?;
    let col = column_at(top, "column")?;
    Ok(single_string_list(build_add_column(table, &col)))
}

/// What `get_alter_column_sql` answers.
pub open spec fn alter_column_outcome(top: JsonValue) -> Result<Seq<Seq<char>>, Seq<char>> {
    match field_str(top, "table"@) {
        None => Err(missing_field_message("table"@)),
        Some(table) => match column_outcome(top, "old_column"@) {
            Err(m) => Err(m),
            Ok(old) => match column_outcome(top, "new_column"@) {
                Err(m) => Err(m),
                Ok(new) => Ok(alter_column_spec(table, old, new)),
            },
        },
    }
}

pub fn get_alter_column_sql(top: &JsonValue) -> (r: Result<JsonValue, PluginError>)
    ensures
        answers(r, alter_column_outcome(*top)),
{
    let table = require_str(top, "table")?;
    let old = column_at(top, "old_column")?;
    let new = column_at(top, "new_column")?;
    let stmts = build_alter_column(table, &old, &new);
    Ok(string_list(stmts))
}

/// The strings among `items`, in order (non-strings are skipped).
pub open spec fn string_items(items: Seq<JsonValue>) -> Seq<Seq<char>>
    decreases items.len(),
{
    if items.len() == 0 {
        Seq::empty()
    } else {
        string_items(items.drop_last()) + (match items.last().spec_as_str() {
            Some(s) => seq![s],
            None => Seq::empty(),
        })
    }
}

/// What `get_create_index_sql` answers.
pub open spec fn create_index_outcome(top: JsonValue) -> Result<Seq<Seq<char>>, Seq<char>> {
    match field_str(top, "table"@) {
        None => Err(missing_field_message("table"@)),
        Some(table) => match field_str(top, "index_name"@) {
            None => Err(missing_field_message("index_name"@)),
            Some(index) => Ok(
                seq![
                    create_index_spec(
                        table,
                        index,
                        string_items(array_items(top, "columns"@)),
                        bool_or(top.spec_get("is_unique"@), false),
                    ),
                ],
            ),
        },
    }
}

fn string_items_of(top: &JsonValue, key: &str) -> (r: Vec<String>)
    ensures
        r@.map_values(|s: String| s@) == string_items(array_items(*top, key@)),
{
    let mut out: Vec<String> = Vec::new();
    match top.get(key) {
        Some(v) => match v.as_array() {
            Some(a) => {
                let mut i: usize = 0;
                while i < a.len()
                    invariant
                        i <= a@.len(),
                        a@ == array_items(*top, key@),
                        out@.map_values(|s: String| s@) == string_items(a@.take(i as int)),
                    decreases a@.len() - i,
                {
                    let ghost before = out@.map_values(|s: String| s@);
                    assert(a@.take(i + 1).drop_last() =~= a@.take(i as int));
                    match a[i].as_str() {
                        Some(s) => {
                            out.push(string_of(s));
                            assert(out@.map_values(|s: String| s@) =~= before.push(s@));
                        },
                        None => {},
                    }
                    assert(out@.map_values(|s: String| s@) =~= string_items(a@.take(i + 1)));
                    i = i + 1;
                }
                assert(a@.take(a@.len() as int) =~= a@);
            },
            None => {
                assert(out@.map_values(|s: String| s@) =~= Seq::<Seq<char>>::empty());
            },
        },
        None => {
            assert(out@.map_values(|s: String| s@) =~= Seq::<Seq<char>>::empty());
        },
    }
    out
}

pub fn get_create_index_sql(top: &JsonValue) -> (r: Result<JsonValue, PluginError>)
    ensures
        answers(r, create_index_outcome(*top)),
{
    let table = require_str(top, "table")?;
    let index = require_str(top, "index_name")?;
    let unique = get_bool_or(top, "is_unique", false);
    let columns = string_items_of(top, "columns");
    Ok(single_string_list(build_create_index(table, index, columns.as_slice(), unique)))
}

/// What `get_create_foreign_key_sql` answers.
pub open spec fn create_foreign_key_outcome(top: JsonValue) -> Result<Seq<Seq<char>>, Seq<char>> {
    match field_str(top, "table"@) {
        None => Err(missing_field_message("table"@)),
        Some(table) => match field_str(top, "fk_name"@) {
            None => Err(missing_field_message("fk_name"@)),
            Some(fk_name) => match field_str(top, "column"@) {
                None => Err(missing_field_message("column"@)),
                Some(column) => match field_str(top, "ref_table"@) {
                    None => Err(missing_field_message("ref_table"@)),
                    Some(ref_table) => match field_str(top, "ref_column"@) {
                        None => Err(missing_field_message("ref_column"@)),
                        Some(ref_column) => Ok(
                            seq![
                                create_foreign_key_spec(
                                    table,
                                    fk_name,
                                    column,
                                    ref_table,
                                    ref_column,
                                    field_str(top, "on_delete"@),
                                ),
                            ],
                        ),
                    },
                },
            },
        },
    }
}

pub fn get_create_foreign_key_sql(top: &JsonValue) -> (r: Result<JsonValue, PluginError>)
    ensures
        answers(r, create_foreign_key_outcome(*top)),
{
    let table = require_str(top, "table")?;
    let fk_name = require_str(top, "fk_name")?;
    let column = require_str(top, "column")?;
    let ref_table = require_str(top, "ref_table")?;
    let ref_column = require_str(top, "ref_column")?;
    let on_delete = crate::models::str_field(top, "on_delete");
    Ok(
        single_string_list(
            build_create_foreign_key(table, fk_name, column, ref_table, ref_column, on_delete),
        ),
    )
}

/// What `drop_index_sql` gives.
pub open spec fn drop_index_outcome(top: JsonValue) -> Result<Seq<char>, Seq<char>> {
    match field_str(top, "index_name"@) {
        None => Err(missing_field_message("index_name"@)),
        Some(index) => Ok("DROP INDEX "@ + enclosed(index, QUOTE)),
    }
}

/// The statement that drops the index named in the params.
pub fn drop_index_sql(top: &JsonValue) -> (r: Result<String, PluginError>)
    ensures
        yields(r, drop_index_outcome(*top)),
{
    let index = require_str(top, "index_name")?;
    let mut out: Vec<char> = Vec::new();
    push_str(&mut out, "DROP INDEX ");
    let q = enclose_chars(index, QUOTE);
    push_chars(&mut out, &q);
    assert(out@ =~= "DROP INDEX "@ + enclosed(index@, QUOTE));
    Ok(string_from_chars(&out))
}

/// What `drop_foreign_key_sql` gives.
pub open spec fn drop_foreign_key_outcome(top: JsonValue) -> Result<Seq<char>, Seq<char>> {
    match field_str(top, "table"@) {
        None => Err(missing_field_message("table"@)),
        Some(table) => match field_str(top, "fk_name"@) {
            None => Err(missing_field_message("fk_name"@)),
            Some(fk_name) => Ok(
                "ALTER TABLE "@ + enclosed(table, QUOTE) + " DROP CONSTRAINT "@ + enclosed(
                    fk_name,
                    QUOTE,
                ),
            ),
        },
    }
}

/// The statement that drops the foreign key named in the params.
pub fn drop_foreign_key_sql(top: &JsonValue) -> (r: Result<String, PluginError>)
    ensures
        yields(r, drop_foreign_key_outcome(*top)),
{
    let table = require_str(top, "table")?;
    let fk_name = require_str(top, "fk_name")?;
    let mut out: Vec<char> = Vec::new();
    push_str(&mut out, "ALTER TABLE ");
    let q = enclose_chars(table, QUOTE);
    push_chars(&mut out, &q);
    push_str(&mut out, " DROP CONSTRAINT ");
    let q = enclose_chars(fk_name, QUOTE);
    push_chars(&mut out, &q);
    assert(out@ =~= "ALTER TABLE "@ + enclosed(table@, QUOTE) + " DROP CONSTRAINT "@ + enclosed(
        fk_name@,
        QUOTE,
    ));
    Ok(string_from_chars(&out))
}


/// Dropping an index names it quoted, `DROP INDEX "i"`, and dropping a
/// foreign key names its table and constraint, `ALTER TABLE "t" DROP
/// CONSTRAINT "fk"`; each is refused with the missing-field message when a
/// name is not given as a string.
pub proof fn law_drop_statements(top: JsonValue, i: Seq<char>, t: Seq<char>, fk: Seq<char>)
    ensures
        field_str(top, "index_name"@) == Some(i) ==> drop_index_outcome(top) == Ok::<
            Seq<char>,
            Seq<char>,
        >("DROP INDEX "@ + enclosed(i, QUOTE)),
        field_str(top, "index_name"@) is None ==> drop_index_outcome(top) == Err::<
            Seq<char>,
            Seq<char>,
        >("missing required field 'index_name'"@),
        field_str(top, "table"@) == Some(t) && field_str(top, "fk_name"@) == Some(fk)
            ==> drop_foreign_key_outcome(top) == Ok::<Seq<char>, Seq<char>>(
            "ALTER TABLE "@ + enclosed(t, QUOTE) + " DROP CONSTRAINT "@ + enclosed(fk, QUOTE),
        ),
        field_str(top, "table"@) is None ==> drop_foreign_key_outcome(top) == Err::<
            Seq<char>,
            Seq<char>,
        >("missing required field 'table'"@),
        field_str(top, "table"@) is Some && field_str(top, "fk_name"@) is None
            ==> drop_foreign_key_outcome(top) == Err::<Seq<char>, Seq<char>>(
            "missing required field 'fk_name'"@,
        ),
{
    reveal_strlit("missing required field '");
    reveal_strlit("'");
    reveal_strlit("index_name");
    reveal_strlit("table");
    reveal_strlit("fk_name");
    reveal_strlit("missing required field 'index_name'");
    reveal_strlit("missing required field 'table'");
    reveal_strlit("missing required field 'fk_name'");
    assert(missing_field_message("index_name"@) =~= "missing required field 'index_name'"@);
    assert(missing_field_message("table"@) =~= "missing required field 'table'"@);
    assert(missing_field_message("fk_name"@) =~= "missing required field 'fk_name'"@);
}

} // verus!
