//! A full life cycle against a miniature in-memory store: the store
//! applies exactly the statements the library builds, and every
//! statement's text is pinned along the way.

use slintrust::codec::decode_rows;
use slintrust::codec::Param;
use slintrust::query::first_result;
use slintrust::query::first_value_result;
use slintrust::schema::ColumnSchema;
use slintrust::schema::TableSchema;
use slintrust::table::OrmStruct;
use slintrust::table::Record;
use slintrust::table::Table;
use slintrust::value::DynValue;

type StoreRow = Vec<(String, Option<String>)>;

fn users_schema() -> TableSchema {
    TableSchema {
        name: "users".to_string(),
        columns: vec![
            ColumnSchema {
                name: "id".to_string(),
                sql_type: "TEXT".to_string(),
                primary: true,
                unique: false,
                not_null: true,
                is_generated_key: true,
            },
            ColumnSchema {
                name: "name".to_string(),
                sql_type: "TEXT".to_string(),
                primary: false,
                unique: false,
                not_null: true,
                is_generated_key: false,
            },
            ColumnSchema {
                name: "email".to_string(),
                sql_type: "TEXT".to_string(),
                primary: false,
                unique: true,
                not_null: true,
                is_generated_key: false,
            },
        ],
    }
}

fn text(p: &Param) -> String {
    match p {
        Param::Text(s) => s.clone(),
        _ => panic!("expected a text parameter"),
    }
}

fn cell(row: &StoreRow, col: &str) -> Option<String> {
    row.iter().find(|(c, _)| c == col).and_then(|(_, v)| v.clone())
}

fn select_by(store: &[StoreRow], col: &str, val: &str) -> Vec<StoreRow> {
    store
        .iter()
        .filter(|r| cell(r, col).as_deref() == Some(val))
        .cloned()
        .collect()
}

fn field(value: &DynValue, key: &str) -> DynValue {
    match value.get_field(&key.to_string()) {
        Some(v) => v.duplicate(),
        None => DynValue::Null,
    }
}

#[test]
fn insert_query_update_delete_life_cycle() {
    let orm = OrmStruct::new("postgres://postgres@localhost:5432/postgres".to_string(), vec![
        users_schema(),
    ]);
    let table = Table::new(&orm, "users", "email");
    let mut store: Vec<StoreRow> = Vec::new();

    // Create the table: idempotent, safe on every process start.
    let created = orm.create_table_statements();
    assert_eq!(
        created,
        vec![
            "CREATE TABLE IF NOT EXISTS users (id TEXT PRIMARY KEY NOT NULL, \
             name TEXT NOT NULL, email TEXT UNIQUE NOT NULL)"
                .to_string()
        ]
    );

    // Insert with an empty generated-key field: a fresh identifier is
    // substituted.
    let item = DynValue::Object(vec![
        ("id".to_string(), DynValue::Text("".to_string())),
        ("name".to_string(), DynValue::Text("Ada".to_string())),
        ("email".to_string(), DynValue::Text("ada@mail.com".to_string())),
    ]);
    let insert = table.insert_statement(&item).unwrap();
    assert_eq!(insert.sql, "INSERT INTO users (id,name,email) VALUES ($1,$2,$3)");
    let generated_id = text(&insert.params[0]);
    assert!(!generated_id.is_empty());
    assert_eq!(generated_id.len(), 36);
    store.push(vec![
        ("id".to_string(), Some(text(&insert.params[0]))),
        ("name".to_string(), Some(text(&insert.params[1]))),
        ("email".to_string(), Some(text(&insert.params[2]))),
    ]);

    // The stored row carries the generated identifier, not the empty
    // string that was supplied.
    assert_eq!(cell(&store[0], "id").unwrap(), generated_id);

    // Fetch the row back through the fluent query.
    let first = table
        .query()
        .where_clause("email", "=", "ada@mail.com")
        .first_statement();
    assert_eq!(first.sql, "SELECT * FROM users WHERE email = $1 LIMIT 1");
    let mut hits = select_by(&store, "email", &text(&first.params[0]));
    hits.truncate(1);
    let decoded = decode_rows(&hits);
    let found = first_result(decoded).expect("the inserted row should be found");
    assert_eq!(found, DynValue::Object(vec![
        ("id".to_string(), DynValue::Text(generated_id.clone())),
        ("name".to_string(), DynValue::Text("Ada".to_string())),
        ("email".to_string(), DynValue::Text("ada@mail.com".to_string())),
    ]));
    assert_eq!(field(&found, "name"), DynValue::Text("Ada".to_string()));

    // Update through the record: positional SET assignments, then the
    // snapshotted key as the last parameter.
    let record = Record::new("users".to_string(), found, "email".to_string()).unwrap();
    let update = record
        .update_statement(&DynValue::Object(vec![(
            "name".to_string(),
            DynValue::Text("Ada Lovelace".to_string()),
        )]))
        .unwrap();
    assert_eq!(update.sql, "UPDATE users SET name = $1 WHERE email = $2");
    let new_name = text(&update.params[0]);
    let key = text(&update.params[1]);
    assert_eq!(key, "ada@mail.com");
    for row in store.iter_mut() {
        if cell(row, "email").as_deref() == Some(key.as_str()) {
            for c in row.iter_mut() {
                if c.0 == "name" {
                    c.1 = Some(new_name.clone());
                }
            }
        }
    }

    // Table.get by email now shows the updated name.
    let get = table
        .get_statement(&DynValue::Object(vec![(
            "email".to_string(),
            DynValue::Text("ada@mail.com".to_string()),
        )]))
        .unwrap();
    assert_eq!(get.sql, "SELECT * FROM users WHERE email = $1 LIMIT 1");
    let mut hits = select_by(&store, "email", &text(&get.params[0]));
    hits.truncate(1);
    let refreshed = first_value_result(decode_rows(&hits)).unwrap();
    assert_eq!(
        field(&refreshed, "name"),
        DynValue::Text("Ada Lovelace".to_string())
    );

    // Delete through the record, then the same lookup finds nothing.
    let delete = record.delete_statement();
    assert_eq!(delete.sql, "DELETE FROM users WHERE email = $1");
    let key = text(&delete.params[0]);
    store.retain(|r| cell(r, "email").as_deref() != Some(key.as_str()));

    let mut hits = select_by(&store, "email", "ada@mail.com");
    hits.truncate(1);
    assert_eq!(first_result(decode_rows(&hits)), None);
}
