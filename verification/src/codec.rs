//! Converting between database rows and structured values.
//!
//! On read, each column arrives as an untyped, nullable text cell; the
//! codec recovers a best-guess native type by trying, in strict priority
//! order, a 64-bit integer, a decimal number, a boolean, and finally plain
//! text.  On write, each schema column picks the item's field of the same
//! name, and the picked values are bound to placeholders by dynamic type.

use vstd::prelude::*;
use crate::lex::int_lex_val;
use crate::lex::int_rep;
use crate::lex::is_float_lexeme;
use crate::lex::is_i64_lexeme;
use crate::lex::is_float_text;
use crate::lex::lemma_int_rep_i64;
use crate::lex::parse_bool;
use crate::lex::parse_i64;
use crate::lex::i64_to_dec;
use crate::lex::leading_digits;
use crate::lex::lemma_leading_digits_bounds;
use crate::schema::ColumnModel;
use crate::schema::TableModel;
use crate::schema::TableSchema;
use crate::value::DynValue;
use crate::value::ValueModel;
use crate::value::entry_seq_model;
use crate::value::lemma_entry_seq_model;

verus! {

/// A database row as the connection layer hands it over: ordered, named,
/// nullable text cells.
pub type Row = Vec<(String, Option<String>)>;

/// Mathematical view of a bound parameter.
pub ghost enum ParamModel {
    Text(Seq<char>),
    Bool(bool),
    Null,
}

/// A value bound to one SQL placeholder, by dynamic type: text (numbers
/// are bound in their decimal text form), boolean, or SQL NULL.
#[derive(Debug, PartialEq, Eq)]
pub enum Param {
    Text(String),
    Bool(bool),
    Null,
}

impl View for Param {
    type V = ParamModel;

    open spec fn view(&self) -> ParamModel {
        match self {
            Param::Text(s) => ParamModel::Text(s@),
            Param::Bool(b) => ParamModel::Bool(*b),
            Param::Null => ParamModel::Null,
        }
    }
}

/// The view of a nullable text cell.
pub open spec fn cell_model(c: Option<String>) -> Option<Seq<char>> {
    match c {
        Some(s) => Some(s@),
        None => None,
    }
}

/// What a cell decodes to: the first reading that succeeds among 64-bit
/// integer, decimal number, boolean, and plain text; a missing cell
/// decodes to null.
pub open spec fn spec_decode_cell(c: Option<Seq<char>>) -> ValueModel {
    match c {
        None => ValueModel::Null,
        Some(s) => if is_i64_lexeme(s) {
            ValueModel::Int(int_lex_val(s))
        } else if is_float_lexeme(s) {
            ValueModel::Float(s)
        } else if s == "true"@ {
            ValueModel::Bool(true)
        } else if s == "false"@ {
            ValueModel::Bool(false)
        } else {
            ValueModel::Text(s)
        },
    }
}

/// Decode one nullable text cell by the ordered fallback.
pub fn decode_cell(cell: &Option<String>) -> (r: DynValue)
    ensures
        r@ == spec_decode_cell(cell_model(*cell)),
{
    match cell {
        None => DynValue::Null,
        Some(s) => match parse_i64(s.as_str()) {
            Some(v) => DynValue::Int(v),
            None => if is_float_text(s.as_str()) {
                DynValue::Float(s.clone())
            } else {
                proof {
                    reveal_strlit("true");
                    reveal_strlit("false");
                }
                match parse_bool(s.as_str()) {
                    Some(b) => DynValue::Bool(b),
                    None => DynValue::Text(s.clone()),
                }
            },
        },
    }
}

/// What a whole row decodes to: an object with one field per column, in
/// column order.
pub open spec fn spec_decode_row(r: Seq<(String, Option<String>)>) -> ValueModel {
    ValueModel::Object(
        Seq::new(r.len(), |i: int| (r[i].0@, spec_decode_cell(cell_model(r[i].1)))),
    )
}

/// Decode a full row into an object value, preserving column order.
pub fn decode_row(row: &Row) -> (r: DynValue)
    ensures
        r@ == spec_decode_row(row@),
{
    let n: usize = row.len();
    let mut entries: Vec<(String, DynValue)> = Vec::new();
    for i in 0..n
        invariant
            n == row.len(),
            entries@.len() == i,
            forall|j: int| #![trigger entries@[j]]
                0 <= j < i ==> entries@[j].0@ == row@[j].0@ && entries@[j].1@ == spec_decode_cell(
                    cell_model(row@[j].1),
                ),
    {
        let name = row[i].0.clone();
        let v = decode_cell(&row[i].1);
        entries.push((name, v));
    }
    let r = DynValue::Object(entries);
    proof {
        lemma_entry_seq_model(entries@);
        assert(r@.fields() =~= spec_decode_row(row@).fields());
    }
    r
}

/// Decode every row of a result set, preserving row order.
pub fn decode_rows(rows: &Vec<Row>) -> (r: Vec<DynValue>)
    ensures
        r@.len() == rows@.len(),
        forall|i: int| 0 <= i < rows@.len() ==> #[trigger] r@[i]@ == spec_decode_row(rows@[i]@),
{
    let n: usize = rows.len();
    let mut out: Vec<DynValue> = Vec::new();
    for i in 0..n
        invariant
            n == rows.len(),
            out@.len() == i,
            forall|j: int| 0 <= j < i ==> #[trigger] out@[j]@ == spec_decode_row(rows@[j]@),
    {
        out.push(decode_row(&rows[i]));
    }
    out
}

/// True when the item supplies no usable value for a column: the field is
/// absent, null, or empty text.
pub open spec fn field_absent_or_empty(item: ValueModel, name: Seq<char>) -> bool {
    match item.field(name) {
        None => true,
        Some(ValueModel::Null) => true,
        Some(ValueModel::Text(t)) => t.len() == 0,
        Some(_) => false,
    }
}

/// The item's field for `name`, defaulting to null if absent.
pub open spec fn field_or_null(item: ValueModel, name: Seq<char>) -> ValueModel {
    match item.field(name) {
        Some(v) => v,
        None => ValueModel::Null,
    }
}

/// The value written for one schema column: a fresh generated identifier
/// where a generated-key column has no usable value, otherwise the item's
/// field, defaulting to null.
pub open spec fn spec_encode_field(
    item: ValueModel,
    col: ColumnModel,
    fresh_id: Seq<char>,
) -> ValueModel {
    if col.is_generated_key && field_absent_or_empty(item, col.name) {
        ValueModel::Text(fresh_id)
    } else {
        field_or_null(item, col.name)
    }
}

/// The ordered column/value pairs written for an item: one per schema
/// column, in schema order, so positional binding aligns with generated
/// column lists.
pub open spec fn spec_encode_for_write(
    item: ValueModel,
    schema: TableModel,
    fresh_id: Seq<char>,
) -> Seq<(Seq<char>, ValueModel)> {
    Seq::new(
        schema.columns.len(),
        |i: int| (schema.columns[i].name, spec_encode_field(item, schema.columns[i], fresh_id)),
    )
}

/// Pick the written value for one column, substituting `fresh_id` for a
/// generated-key column whose field is absent, null, or empty text.
fn encode_field(item: &DynValue, col_name: &String, is_generated_key: bool, fresh_id: &String) -> (r:
    DynValue)
    ensures
        is_generated_key && field_absent_or_empty(item@, col_name@) ==> r@ == ValueModel::Text(
            fresh_id@,
        ),
        !(is_generated_key && field_absent_or_empty(item@, col_name@)) ==> r@ == field_or_null(
            item@,
            col_name@,
        ),
{
    let field = item.get_field(col_name);
    let empty = match field {
        None => true,
        Some(DynValue::Null) => true,
        Some(DynValue::Text(t)) => t.unicode_len() == 0,
        Some(_) => false,
    };
    if is_generated_key && empty {
        DynValue::Text(fresh_id.clone())
    } else {
        match field {
            Some(v) => v.duplicate(),
            None => DynValue::Null,
        }
    }
}

/// Encode an item for writing through a schema: one `(column, value)`
/// pair per schema column, in schema order, with `fresh_id` substituted
/// for a generated-key column that has no usable value.
pub fn encode_for_write(item: &DynValue, schema: &TableSchema, fresh_id: &String) -> (r: Vec<
    (String, DynValue),
>)
    ensures
        entry_seq_model(r@) == spec_encode_for_write(item@, schema@, fresh_id@),
{
    let n: usize = schema.columns.len();
    let mut out: Vec<(String, DynValue)> = Vec::new();
    for i in 0..n
        invariant
            n == schema.columns.len(),
            out@.len() == i,
            forall|j: int| #![trigger out@[j]]
                0 <= j < i ==> out@[j].0@ == schema@.columns[j].name && out@[j].1@
                    == spec_encode_field(item@, schema@.columns[j], fresh_id@),
    {
        let col = &schema.columns[i];
        let v = encode_field(item, &col.name, col.is_generated_key, fresh_id);
        out.push((col.name.clone(), v));
    }
    proof {
        lemma_entry_seq_model(out@);
        assert(entry_seq_model(out@) =~= spec_encode_for_write(item@, schema@, fresh_id@));
    }
    out
}

/// How a structured value is bound to a placeholder: text as itself,
/// numbers in their decimal text form, booleans as booleans, and anything
/// else as SQL NULL.
pub open spec fn bind_model(v: ValueModel) -> ParamModel {
    match v {
        ValueModel::Text(s) => ParamModel::Text(s),
        ValueModel::Int(n) => ParamModel::Text(int_rep(n)),
        ValueModel::Float(s) => ParamModel::Text(s),
        ValueModel::Bool(b) => ParamModel::Bool(b),
        ValueModel::Null => ParamModel::Null,
        ValueModel::Object(_) => ParamModel::Null,
    }
}

/// Bind one structured value as a placeholder parameter.
pub fn param_of_value(v: &DynValue) -> (r: Param)
    ensures
        r@ == bind_model(v@),
{
    match v {
        DynValue::Text(s) => Param::Text(s.clone()),
        DynValue::Int(n) => Param::Text(i64_to_dec(*n)),
        DynValue::Float(s) => Param::Text(s.clone()),
        DynValue::Bool(b) => Param::Bool(*b),
        DynValue::Null => Param::Null,
        DynValue::Object(_) => Param::Null,
    }
}

/// The cell a bound parameter stands for when the stored row is read back
/// from a textual column.
pub open spec fn param_cell(p: ParamModel) -> Option<Seq<char>> {
    match p {
        ParamModel::Text(s) => Some(s),
        ParamModel::Bool(b) => Some(
            if b {
                "true"@
            } else {
                "false"@
            },
        ),
        ParamModel::Null => None,
    }
}

/// A scalar value that survives the write-then-decode round trip
/// unchanged.  Text must not read as a number or a boolean; a decimal
/// number must not read as a 64-bit integer; objects do not nest.
pub open spec fn codec_stable(v: ValueModel) -> bool {
    match v {
        ValueModel::Null => true,
        ValueModel::Bool(_) => true,
        ValueModel::Int(n) => i64::MIN <= n <= i64::MAX,
        ValueModel::Float(s) => is_float_lexeme(s) && !is_i64_lexeme(s),
        ValueModel::Text(s) => !is_i64_lexeme(s) && !is_float_lexeme(s) && s != "true"@ && s
            != "false"@,
        ValueModel::Object(_) => false,
    }
}

/// The boolean lexemes read back as booleans: neither is an integer or a
/// decimal-number lexeme.
proof fn lemma_bool_lexemes_decode(b: bool)
    ensures
        spec_decode_cell(
            Some(
                if b {
                    "true"@
                } else {
                    "false"@
                },
            ),
        ) == ValueModel::Bool(b),
{
    reveal_strlit("true");
    reveal_strlit("false");
    let s = if b {
        "true"@
    } else {
        "false"@
    };
    assert(s[0] != '-' && !crate::lex::is_digit_char(s[0]));
    lemma_leading_digits_bounds(s);
    assert(leading_digits(s) == 0);
    assert("true"@ != "false"@);
}

/// Writing one stable scalar and reading its cell back restores it.
pub proof fn lemma_cell_round_trip(v: ValueModel)
    requires
        codec_stable(v),
    ensures
        spec_decode_cell(param_cell(bind_model(v))) == v,
{
    match v {
        ValueModel::Null => {
        },
        ValueModel::Bool(b) => {
            lemma_bool_lexemes_decode(b);
        },
        ValueModel::Int(n) => {
            lemma_int_rep_i64(n);
        },
        ValueModel::Float(_) => {
        },
        ValueModel::Text(_) => {
        },
        ValueModel::Object(_) => {
        },
    }
}

/// The write-then-read round trip over a whole schema: for every column,
/// binding the encoded value and decoding the stored cell restores the
/// item's field (or null where it was absent); a generated-key column
/// whose field was absent, null, or empty text comes back as the fresh
/// identifier.
pub proof fn lemma_insert_round_trip(item: ValueModel, schema: TableModel, fresh_id: Seq<char>)
    requires
        forall|i: int|
            0 <= i < schema.columns.len() ==> codec_stable(
                spec_encode_field(item, #[trigger] schema.columns[i], fresh_id),
            ),
    ensures
        forall|i: int|
            0 <= i < schema.columns.len() ==> {
                let col = #[trigger] schema.columns[i];
                let written = spec_encode_for_write(item, schema, fresh_id)[i];
                let decoded = spec_decode_cell(param_cell(bind_model(written.1)));
                written.0 == col.name && (!(col.is_generated_key && field_absent_or_empty(
                    item,
                    col.name,
                )) ==> decoded == field_or_null(item, col.name)) && (col.is_generated_key
                    && field_absent_or_empty(item, col.name) ==> decoded == ValueModel::Text(
                    fresh_id,
                ))
            },
{
    assert forall|i: int| 0 <= i < schema.columns.len() implies {
        let col = #[trigger] schema.columns[i];
        let written = spec_encode_for_write(item, schema, fresh_id)[i];
        let decoded = spec_decode_cell(param_cell(bind_model(written.1)));
        written.0 == col.name && (!(col.is_generated_key && field_absent_or_empty(item, col.name))
            ==> decoded == field_or_null(item, col.name)) && (col.is_generated_key
            && field_absent_or_empty(item, col.name) ==> decoded == ValueModel::Text(fresh_id))
    } by {
        let col = schema.columns[i];
        lemma_cell_round_trip(spec_encode_field(item, col, fresh_id));
    }
}

} // verus!
