use slintrust::codec::decode_cell;
use slintrust::codec::decode_row;
use slintrust::codec::encode_for_write;
use slintrust::codec::param_of_value;
use slintrust::codec::Param;
use slintrust::schema::ColumnSchema;
use slintrust::schema::TableSchema;
use slintrust::value::DynValue;

fn text_column(name: &str) -> ColumnSchema {
    ColumnSchema {
        name: name.to_string(),
        sql_type: "TEXT".to_string(),
        primary: false,
        unique: false,
        not_null: false,
        is_generated_key: false,
    }
}

fn plain_schema(table: &str, cols: &[&str]) -> TableSchema {
    TableSchema {
        name: table.to_string(),
        columns: cols.iter().map(|c| text_column(c)).collect(),
    }
}

/// The cell a bound parameter produces when the stored row is read back
/// from a textual column.
fn cell_of_param(p: &Param) -> Option<String> {
    match p {
        Param::Text(s) => Some(s.clone()),
        Param::Bool(b) => Some(if *b { "true".to_string() } else { "false".to_string() }),
        Param::Null => None,
    }
}

#[test]
fn decode_integer_cell() {
    assert_eq!(decode_cell(&Some("123".to_string())), DynValue::Int(123));
    assert_eq!(decode_cell(&Some("-5".to_string())), DynValue::Int(-5));
    assert_eq!(decode_cell(&Some("007".to_string())), DynValue::Int(7));
    assert_eq!(decode_cell(&Some("0".to_string())), DynValue::Int(0));
}

#[test]
fn decode_integer_extremes() {
    assert_eq!(
        decode_cell(&Some("9223372036854775807".to_string())),
        DynValue::Int(i64::MAX)
    );
    assert_eq!(
        decode_cell(&Some("-9223372036854775808".to_string())),
        DynValue::Int(i64::MIN)
    );
}

#[test]
fn decode_out_of_range_integer_falls_to_float() {
    assert_eq!(
        decode_cell(&Some("9223372036854775808".to_string())),
        DynValue::Float("9223372036854775808".to_string())
    );
}

#[test]
fn decode_float_cell() {
    assert_eq!(
        decode_cell(&Some("12.5".to_string())),
        DynValue::Float("12.5".to_string())
    );
    assert_eq!(
        decode_cell(&Some("-0.25".to_string())),
        DynValue::Float("-0.25".to_string())
    );
}

#[test]
fn decode_bool_cell() {
    assert_eq!(decode_cell(&Some("true".to_string())), DynValue::Bool(true));
    assert_eq!(decode_cell(&Some("false".to_string())), DynValue::Bool(false));
}

#[test]
fn decode_text_cell() {
    assert_eq!(
        decode_cell(&Some("Ada".to_string())),
        DynValue::Text("Ada".to_string())
    );
    assert_eq!(decode_cell(&Some("".to_string())), DynValue::Text("".to_string()));
    assert_eq!(
        decode_cell(&Some("12.5.6".to_string())),
        DynValue::Text("12.5.6".to_string())
    );
    assert_eq!(
        decode_cell(&Some("True".to_string())),
        DynValue::Text("True".to_string())
    );
}

#[test]
fn decode_missing_cell_is_null() {
    assert_eq!(decode_cell(&None), DynValue::Null);
}

#[test]
fn decode_row_preserves_column_order() {
    let row = vec![
        ("a".to_string(), Some("1".to_string())),
        ("b".to_string(), None),
        ("c".to_string(), Some("x".to_string())),
    ];
    let decoded = decode_row(&row);
    let expected = DynValue::Object(vec![
        ("a".to_string(), DynValue::Int(1)),
        ("b".to_string(), DynValue::Null),
        ("c".to_string(), DynValue::Text("x".to_string())),
    ]);
    assert_eq!(decoded, expected);
}

#[test]
fn encode_then_decode_round_trips_every_field() {
    let schema = plain_schema("things", &["name", "age", "ok", "note", "score"]);
    let item = DynValue::Object(vec![
        ("name".to_string(), DynValue::Text("Ada".to_string())),
        ("age".to_string(), DynValue::Int(36)),
        ("ok".to_string(), DynValue::Bool(true)),
        ("note".to_string(), DynValue::Null),
        ("score".to_string(), DynValue::Float("9.5".to_string())),
    ]);
    let unused_id = "x".to_string();
    let written = encode_for_write(&item, &schema, &unused_id);
    let row: Vec<(String, Option<String>)> = written
        .iter()
        .map(|(c, v)| (c.clone(), cell_of_param(&param_of_value(v))))
        .collect();
    let decoded = decode_row(&row);
    assert_eq!(
        decoded,
        DynValue::Object(vec![
            ("name".to_string(), DynValue::Text("Ada".to_string())),
            ("age".to_string(), DynValue::Int(36)),
            ("ok".to_string(), DynValue::Bool(true)),
            ("note".to_string(), DynValue::Null),
            ("score".to_string(), DynValue::Float("9.5".to_string())),
        ])
    );
}

#[test]
fn encode_fills_missing_fields_with_null() {
    let schema = plain_schema("things", &["name", "age"]);
    let item = DynValue::Object(vec![("name".to_string(), DynValue::Text("Ada".to_string()))]);
    let unused_id = "x".to_string();
    let written = encode_for_write(&item, &schema, &unused_id);
    assert_eq!(written.len(), 2);
    assert_eq!(written[0].0, "name");
    assert_eq!(written[0].1, DynValue::Text("Ada".to_string()));
    assert_eq!(written[1].0, "age");
    assert_eq!(written[1].1, DynValue::Null);
}

#[test]
fn encode_ignores_unknown_fields() {
    let schema = plain_schema("things", &["name"]);
    let item = DynValue::Object(vec![
        ("name".to_string(), DynValue::Text("Ada".to_string())),
        ("extra".to_string(), DynValue::Text("dropped".to_string())),
    ]);
    let unused_id = "x".to_string();
    let written = encode_for_write(&item, &schema, &unused_id);
    assert_eq!(written.len(), 1);
    assert_eq!(written[0].0, "name");
}

#[test]
fn encode_substitutes_generated_key_when_absent_or_empty() {
    let mut schema = plain_schema("things", &["id", "name"]);
    schema.columns[0].is_generated_key = true;
    let fresh = "generated-id".to_string();

    let absent = DynValue::Object(vec![(
        "name".to_string(),
        DynValue::Text("Ada".to_string()),
    )]);
    let written = encode_for_write(&absent, &schema, &fresh);
    assert_eq!(written[0].1, DynValue::Text("generated-id".to_string()));

    let empty = DynValue::Object(vec![
        ("id".to_string(), DynValue::Text("".to_string())),
        ("name".to_string(), DynValue::Text("Ada".to_string())),
    ]);
    let written = encode_for_write(&empty, &schema, &fresh);
    assert_eq!(written[0].1, DynValue::Text("generated-id".to_string()));

    let set = DynValue::Object(vec![
        ("id".to_string(), DynValue::Text("keep-me".to_string())),
        ("name".to_string(), DynValue::Text("Ada".to_string())),
    ]);
    let written = encode_for_write(&set, &schema, &fresh);
    assert_eq!(written[0].1, DynValue::Text("keep-me".to_string()));
}

#[test]
fn params_bind_by_dynamic_type() {
    assert_eq!(
        param_of_value(&DynValue::Text("x".to_string())),
        Param::Text("x".to_string())
    );
    assert_eq!(param_of_value(&DynValue::Int(-7)), Param::Text("-7".to_string()));
    assert_eq!(
        param_of_value(&DynValue::Float("1.5".to_string())),
        Param::Text("1.5".to_string())
    );
    assert_eq!(param_of_value(&DynValue::Bool(false)), Param::Bool(false));
    assert_eq!(param_of_value(&DynValue::Null), Param::Null);
    assert_eq!(param_of_value(&DynValue::Object(vec![])), Param::Null);
}

#[test]
fn uuid_shaped_text_decodes_as_text() {
    let id = "123e4567-e89b-42d3-a456-426614174000".to_string();
    assert_eq!(decode_cell(&Some(id.clone())), DynValue::Text(id));
}

#[test]
fn nested_objects_bind_as_null() {
    let schema = plain_schema("things", &["inner"]);
    let item = DynValue::Object(vec![(
        "inner".to_string(),
        DynValue::Object(vec![("n".to_string(), DynValue::Int(1))]),
    )]);
    let unused_id = "x".to_string();
    let written = encode_for_write(&item, &schema, &unused_id);
    assert_eq!(param_of_value(&written[0].1), Param::Null);
}

#[test]
fn duplicate_copies_nested_values() {
    let v = DynValue::Object(vec![
        ("name".to_string(), DynValue::Text("Ada".to_string())),
        (
            "inner".to_string(),
            DynValue::Object(vec![("n".to_string(), DynValue::Int(1))]),
        ),
    ]);
    assert_eq!(v.duplicate(), v);
}
