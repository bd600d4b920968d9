//! Assembly of parameterized SQL text.
//!
//! Everything here is pure string construction: table and column names are
//! interpolated verbatim (callers are trusted to pass well-formed
//! identifiers), while values are always bound through numbered
//! placeholders.  Each builder's contract pins the produced text exactly.

use vstd::prelude::*;
use crate::codec::Param;
use crate::codec::ParamModel;
use crate::lex::dec_rep;
use crate::lex::usize_to_dec;
use crate::schema::ColumnModel;
use crate::schema::TableModel;
use crate::schema::TableSchema;

verus! {

/// A complete parameterized statement: SQL text plus the ordered values
/// to bind to its placeholders.
#[derive(Debug)]
pub struct Statement {
    pub sql: String,
    pub params: Vec<Param>,
}

/// The views of a parameter vector, in order.
pub open spec fn params_model(ps: Seq<Param>) -> Seq<ParamModel> {
    Seq::new(ps.len(), |i: int| ps[i]@)
}

/// The parts joined with `sep` between consecutive parts.
pub open spec fn join_seq(parts: Seq<Seq<char>>, sep: Seq<char>) -> Seq<char>
    decreases parts.len(),
{
    if parts.len() == 0 {
        Seq::empty()
    } else if parts.len() == 1 {
        parts[0]
    } else {
        join_seq(parts.drop_last(), sep) + sep + parts.last()
    }
}

/// Extending a join by one part appends the separator (when anything
/// precedes) and the part.
pub proof fn lemma_join_seq_step(parts: Seq<Seq<char>>, sep: Seq<char>, i: int)
    requires
        0 <= i < parts.len(),
    ensures
        join_seq(parts.take(i + 1), sep) == if i == 0 {
            parts[0]
        } else {
            join_seq(parts.take(i), sep) + sep + parts[i]
        },
{
    assert(parts.take(i + 1).drop_last() =~= parts.take(i));
    assert(parts.take(i + 1).last() == parts[i]);
    if i == 0 {
        assert(parts.take(1)[0] == parts[0]);
    }
}

/// Join string parts with a separator.
pub fn join_with(parts: &Vec<String>, sep: &str) -> (r: String)
    ensures
        r@ == join_seq(parts.deep_view(), sep@),
{
    let n: usize = parts.len();
    let mut out = String::new();
    proof {
        assert(parts.deep_view().take(0) =~= Seq::<Seq<char>>::empty());
    }
    for i in 0..n
        invariant
            n == parts.len(),
            parts.deep_view().len() == n,
            forall|j: int| 0 <= j < n ==> parts.deep_view()[j] == #[trigger] parts@[j]@,
            out@ == join_seq(parts.deep_view().take(i as int), sep@),
    {
        if i > 0 {
            out.append(sep);
        }
        out.append(parts[i].as_str());
        proof {
            lemma_join_seq_step(parts.deep_view(), sep@, i as int);
        }
    }
    proof {
        assert(parts.deep_view().take(n as int) =~= parts.deep_view());
    }
    out
}

/// A clause section: the keyword followed by the joined parts, or
/// nothing at all when no part was accumulated.
pub fn keyword_join_part(keyword: &str, parts: &Vec<String>, sep: &str) -> (r: String)
    ensures
        r@ == if parts.deep_view().len() > 0 {
            keyword@ + join_seq(parts.deep_view(), sep@)
        } else {
            Seq::<char>::empty()
        },
{
    if parts.len() > 0 {
        let mut out = String::from_str(keyword);
        out.append(join_with(parts, sep).as_str());
        out
    } else {
        String::new()
    }
}

/// The numbered placeholder marker for position `n`.
pub open spec fn placeholder(n: int) -> Seq<char> {
    "$"@ + dec_rep(n)
}

/// The positional placeholder list `$1 .. $count`.
pub open spec fn placeholder_list(count: int) -> Seq<Seq<char>> {
    Seq::new(count as nat, |i: int| placeholder(i + 1))
}

/// The placeholder marker for position `n` as text.
pub fn placeholder_text(n: usize) -> (r: String)
    ensures
        r@ == placeholder(n as int),
{
    let mut out = String::from_str("$");
    out.append(usize_to_dec(n).as_str());
    out
}

/// The positional placeholder markers `$1` through `$count`, in order.
pub fn placeholders(count: usize) -> (r: Vec<String>)
    ensures
        r.deep_view() == placeholder_list(count as int),
{
    let mut out: Vec<String> = Vec::new();
    for i in 0..count
        invariant
            out@.len() == i,
            forall|j: int| 0 <= j < i ==> #[trigger] out@[j]@ == placeholder(j + 1),
    {
        out.push(placeholder_text(i + 1));
    }
    proof {
        assert forall|j: int| 0 <= j < count implies out.deep_view()[j] == placeholder_list(
            count as int,
        )[j] by {
            assert(out.deep_view()[j] == out@[j]@);
        }
        assert(out.deep_view() =~= placeholder_list(count as int));
    }
    out
}

/// The column definition inside CREATE TABLE: name, type, and the
/// constraint keywords the column carries.
pub open spec fn column_def_text(c: ColumnModel) -> Seq<char> {
    c.name + " "@ + c.sql_type + (if c.primary {
        " PRIMARY KEY"@
    } else {
        Seq::empty()
    }) + (if c.unique {
        " UNIQUE"@
    } else {
        Seq::empty()
    }) + (if c.not_null {
        " NOT NULL"@
    } else {
        Seq::empty()
    })
}

/// The definitions of all columns, in schema order.
pub open spec fn column_defs(cols: Seq<ColumnModel>) -> Seq<Seq<char>> {
    Seq::new(cols.len(), |i: int| column_def_text(cols[i]))
}

/// The names of all columns, in schema order.
pub open spec fn column_names(cols: Seq<ColumnModel>) -> Seq<Seq<char>> {
    Seq::new(cols.len(), |i: int| cols[i].name)
}

/// The idempotent table-creation statement for a schema.
pub open spec fn create_table_text(t: TableModel) -> Seq<char> {
    "CREATE TABLE IF NOT EXISTS "@ + t.name + " ("@ + join_seq(column_defs(t.columns), ", "@)
        + ")"@
}

/// Build the CREATE TABLE IF NOT EXISTS statement for a schema.
pub fn create_table_sql(schema: &TableSchema) -> (r: String)
    ensures
        r@ == create_table_text(schema@),
{
    let n: usize = schema.columns.len();
    let mut defs: Vec<String> = Vec::new();
    for i in 0..n
        invariant
            n == schema.columns.len(),
            defs@.len() == i,
            forall|j: int| 0 <= j < i ==> #[trigger] defs@[j]@ == column_def_text(
                schema@.columns[j],
            ),
    {
        let c = &schema.columns[i];
        let mut d = c.name.clone();
        d.append(" ");
        d.append(c.sql_type.as_str());
        if c.primary {
            d.append(" PRIMARY KEY");
        }
        if c.unique {
            d.append(" UNIQUE");
        }
        if c.not_null {
            d.append(" NOT NULL");
        }
        proof {
            assert(d@ =~= column_def_text(schema@.columns[i as int]));
        }
        defs.push(d);
    }
    proof {
        assert forall|j: int| 0 <= j < n implies defs.deep_view()[j] == column_defs(
            schema@.columns,
        )[j] by {
            assert(defs.deep_view()[j] == defs@[j]@);
        }
        assert(defs.deep_view() =~= column_defs(schema@.columns));
    }
    let mut sql = String::from_str("CREATE TABLE IF NOT EXISTS ");
    sql.append(schema.name.as_str());
    sql.append(" (");
    sql.append(join_with(&defs, ", ").as_str());
    sql.append(")");
    sql
}

/// The insertion statement for a schema: the full column list in schema
/// order and one numbered placeholder per column.
pub open spec fn insert_text(t: TableModel) -> Seq<char> {
    "INSERT INTO "@ + t.name + " ("@ + join_seq(column_names(t.columns), ","@) + ") VALUES ("@
        + join_seq(placeholder_list(t.columns.len() as int), ","@) + ")"@
}

/// Build the INSERT statement text for a schema.
pub fn insert_sql(schema: &TableSchema) -> (r: String)
    ensures
        r@ == insert_text(schema@),
{
    let n: usize = schema.columns.len();
    let mut names: Vec<String> = Vec::new();
    for i in 0..n
        invariant
            n == schema.columns.len(),
            names@.len() == i,
            forall|j: int| 0 <= j < i ==> #[trigger] names@[j]@ == schema@.columns[j].name,
    {
        names.push(schema.columns[i].name.clone());
    }
    proof {
        assert forall|j: int| 0 <= j < n implies names.deep_view()[j] == column_names(
            schema@.columns,
        )[j] by {
            assert(names.deep_view()[j] == names@[j]@);
        }
        assert(names.deep_view() =~= column_names(schema@.columns));
    }
    let marks = placeholders(n);
    let mut sql = String::from_str("INSERT INTO ");
    sql.append(schema.name.as_str());
    sql.append(" (");
    sql.append(join_with(&names, ",").as_str());
    sql.append(") VALUES (");
    sql.append(join_with(&marks, ",").as_str());
    sql.append(")");
    sql
}

/// The single-row lookup `SELECT * FROM t WHERE c = $1 LIMIT 1`.
pub open spec fn select_first_text(table: Seq<char>, column: Seq<char>) -> Seq<char> {
    "SELECT * FROM "@ + table + " WHERE "@ + column + " = $1 LIMIT 1"@
}

/// Build the single-row lookup statement.
pub fn select_first_sql(table: &str, column: &str) -> (r: String)
    ensures
        r@ == select_first_text(table@, column@),
{
    let mut sql = String::from_str("SELECT * FROM ");
    sql.append(table);
    sql.append(" WHERE ");
    sql.append(column);
    sql.append(" = $1 LIMIT 1");
    sql
}

/// The equality filter `SELECT * FROM t WHERE c = $1`.
pub open spec fn select_where_text(table: Seq<char>, column: Seq<char>) -> Seq<char> {
    "SELECT * FROM "@ + table + " WHERE "@ + column + " = $1"@
}

/// Build the equality-filter selection statement.
pub fn select_where_sql(table: &str, column: &str) -> (r: String)
    ensures
        r@ == select_where_text(table@, column@),
{
    let mut sql = String::from_str("SELECT * FROM ");
    sql.append(table);
    sql.append(" WHERE ");
    sql.append(column);
    sql.append(" = $1");
    sql
}

/// The whole-table selection `SELECT * FROM t`.
pub open spec fn select_all_text(table: Seq<char>) -> Seq<char> {
    "SELECT * FROM "@ + table
}

/// Build the whole-table selection statement.
pub fn select_all_sql(table: &str) -> (r: String)
    ensures
        r@ == select_all_text(table@),
{
    let mut sql = String::from_str("SELECT * FROM ");
    sql.append(table);
    sql
}

/// The single-row deletion `DELETE FROM t WHERE c = $1`.
pub open spec fn delete_text(table: Seq<char>, column: Seq<char>) -> Seq<char> {
    "DELETE FROM "@ + table + " WHERE "@ + column + " = $1"@
}

/// Build the deletion statement.
pub fn delete_sql(table: &str, column: &str) -> (r: String)
    ensures
        r@ == delete_text(table@, column@),
{
    let mut sql = String::from_str("DELETE FROM ");
    sql.append(table);
    sql.append(" WHERE ");
    sql.append(column);
    sql.append(" = $1");
    sql
}

/// The existence probe `SELECT EXISTS(SELECT 1 FROM t WHERE c = $1)`.
pub open spec fn exists_text(table: Seq<char>, column: Seq<char>) -> Seq<char> {
    "SELECT EXISTS(SELECT 1 FROM "@ + table + " WHERE "@ + column + " = $1)"@
}

/// Build the existence probe statement.
pub fn exists_sql(table: &str, column: &str) -> (r: String)
    ensures
        r@ == exists_text(table@, column@),
{
    let mut sql = String::from_str("SELECT EXISTS(SELECT 1 FROM ");
    sql.append(table);
    sql.append(" WHERE ");
    sql.append(column);
    sql.append(" = $1)");
    sql
}

/// One SET assignment `column = $n`.
pub open spec fn set_assign_text(column: Seq<char>, n: int) -> Seq<char> {
    column + " = "@ + placeholder(n)
}

/// The update statement `UPDATE t SET c1 = $1, ... WHERE key = $n`, where
/// the key placeholder follows all assignment placeholders.
pub open spec fn update_text(
    table: Seq<char>,
    sets: Seq<Seq<char>>,
    key_column: Seq<char>,
    key_placeholder: int,
) -> Seq<char> {
    "UPDATE "@ + table + " SET "@ + join_seq(sets, ", "@) + " WHERE "@ + key_column + " = "@
        + placeholder(key_placeholder)
}

/// Build the update statement from prebuilt SET assignments.
pub fn update_sql(table: &str, sets: &Vec<String>, key_column: &str, key_placeholder: usize) -> (r:
    String)
    ensures
        r@ == update_text(table@, sets.deep_view(), key_column@, key_placeholder as int),
{
    let mut sql = String::from_str("UPDATE ");
    sql.append(table);
    sql.append(" SET ");
    sql.append(join_with(sets, ", ").as_str());
    sql.append(" WHERE ");
    sql.append(key_column);
    sql.append(" = ");
    sql.append(placeholder_text(key_placeholder).as_str());
    sql
}

} // verus!
