use slintrust::codec::Param;
use slintrust::error::OrmError;
use slintrust::schema::ColumnSchema;
use slintrust::schema::TableSchema;
use slintrust::table::OrmStruct;
use slintrust::table::Record;
use slintrust::table::Table;
use slintrust::value::DynValue;

fn users_schema() -> TableSchema {
    TableSchema {
        name: "users".to_string(),
        columns: vec![
            ColumnSchema {
                name: "id".to_string(),
                sql_type: "TEXT".to_string(),
                primary: true,
                unique: false,
                not_null: true,
                is_generated_key: true,
            },
            ColumnSchema {
                name: "name".to_string(),
                sql_type: "TEXT".to_string(),
                primary: false,
                unique: false,
                not_null: true,
                is_generated_key: false,
            },
            ColumnSchema {
                name: "email".to_string(),
                sql_type: "TEXT".to_string(),
                primary: false,
                unique: true,
                not_null: true,
                is_generated_key: false,
            },
        ],
    }
}

fn orm() -> OrmStruct {
    OrmStruct::new("postgres://postgres@localhost:5432/postgres".to_string(), vec![
        users_schema(),
    ])
}

fn ada() -> DynValue {
    DynValue::Object(vec![
        ("id".to_string(), DynValue::Text("".to_string())),
        ("name".to_string(), DynValue::Text("Ada".to_string())),
        ("email".to_string(), DynValue::Text("ada@mail.com".to_string())),
    ])
}

fn text_param(p: &Param) -> String {
    match p {
        Param::Text(s) => s.clone(),
        _ => panic!("expected a text parameter"),
    }
}

#[test]
fn create_table_statement_text() {
    let stmts = orm().create_table_statements();
    assert_eq!(stmts.len(), 1);
    assert_eq!(
        stmts[0],
        "CREATE TABLE IF NOT EXISTS users (id TEXT PRIMARY KEY NOT NULL, \
         name TEXT NOT NULL, email TEXT UNIQUE NOT NULL)"
    );
}

#[test]
fn insert_statement_text_and_params() {
    let stmt = orm().insert_statement("users", &ada()).unwrap();
    assert_eq!(stmt.sql, "INSERT INTO users (id,name,email) VALUES ($1,$2,$3)");
    assert_eq!(stmt.params.len(), 3);
    assert_eq!(stmt.params[1], Param::Text("Ada".to_string()));
    assert_eq!(stmt.params[2], Param::Text("ada@mail.com".to_string()));
}

#[test]
fn insert_generates_a_fresh_key_when_empty() {
    let o = orm();
    let first = text_param(&o.insert_statement("users", &ada()).unwrap().params[0]);
    let second = text_param(&o.insert_statement("users", &ada()).unwrap().params[0]);
    assert_eq!(first.len(), 36);
    assert_eq!(second.len(), 36);
    for (i, c) in first.chars().enumerate() {
        if i == 8 || i == 13 || i == 18 || i == 23 {
            assert_eq!(c, '-');
        } else {
            assert!(c.is_ascii_hexdigit() && !c.is_ascii_uppercase());
        }
    }
    assert_ne!(first, second);
}

#[test]
fn insert_keeps_a_supplied_key() {
    let item = DynValue::Object(vec![
        ("id".to_string(), DynValue::Text("fixed".to_string())),
        ("name".to_string(), DynValue::Text("Ada".to_string())),
        ("email".to_string(), DynValue::Text("ada@mail.com".to_string())),
    ]);
    let stmt = orm().insert_statement("users", &item).unwrap();
    assert_eq!(stmt.params[0], Param::Text("fixed".to_string()));
}

#[test]
fn unknown_table_is_schema_not_found() {
    let o = orm();
    assert_eq!(
        o.insert_statement("ghosts", &ada()).unwrap_err(),
        OrmError::SchemaNotFound
    );
    assert_eq!(
        o.first_statement("ghosts", "id", "1").unwrap_err(),
        OrmError::SchemaNotFound
    );
    assert_eq!(o.get_all_statement("ghosts").unwrap_err(), OrmError::SchemaNotFound);
    assert_eq!(
        o.delete_statement("ghosts", "id", "1").unwrap_err(),
        OrmError::SchemaNotFound
    );
}

#[test]
fn first_find_get_all_statement_texts() {
    let o = orm();
    let first = o.first_statement("users", "email", "ada@mail.com").unwrap();
    assert_eq!(first.sql, "SELECT * FROM users WHERE email = $1 LIMIT 1");
    assert_eq!(first.params, vec![Param::Text("ada@mail.com".to_string())]);

    let find = o.find_statement("users", "name", "Ada").unwrap();
    assert_eq!(find.sql, "SELECT * FROM users WHERE name = $1");
    assert_eq!(find.params, vec![Param::Text("Ada".to_string())]);

    let all = o.get_all_statement("users").unwrap();
    assert_eq!(all.sql, "SELECT * FROM users");
    assert!(all.params.is_empty());
}

#[test]
fn update_sets_only_present_columns() {
    let o = orm();
    let partial = DynValue::Object(vec![(
        "name".to_string(),
        DynValue::Text("Joe".to_string()),
    )]);
    let stmt = o
        .update_statement("users", "email", "ada@mail.com", &partial)
        .unwrap();
    assert_eq!(stmt.sql, "UPDATE users SET name = $1 WHERE email = $2");
    assert_eq!(
        stmt.params,
        vec![
            Param::Text("Joe".to_string()),
            Param::Text("ada@mail.com".to_string()),
        ]
    );
}

#[test]
fn update_numbers_assignments_in_schema_order() {
    let o = orm();
    let partial = DynValue::Object(vec![
        ("email".to_string(), DynValue::Text("new@mail.com".to_string())),
        ("name".to_string(), DynValue::Text("Joe".to_string())),
    ]);
    let stmt = o.update_statement("users", "id", "k", &partial).unwrap();
    assert_eq!(
        stmt.sql,
        "UPDATE users SET name = $1, email = $2 WHERE id = $3"
    );
    assert_eq!(
        stmt.params,
        vec![
            Param::Text("Joe".to_string()),
            Param::Text("new@mail.com".to_string()),
            Param::Text("k".to_string()),
        ]
    );
}

#[test]
fn delete_and_exists_statement_texts() {
    let o = orm();
    let del = o.delete_statement("users", "email", "ada@mail.com").unwrap();
    assert_eq!(del.sql, "DELETE FROM users WHERE email = $1");
    assert_eq!(del.params, vec![Param::Text("ada@mail.com".to_string())]);

    let ex = o.exists_statement("users", "email", "ada@mail.com").unwrap();
    assert_eq!(ex.sql, "SELECT EXISTS(SELECT 1 FROM users WHERE email = $1)");
    assert_eq!(ex.params, vec![Param::Text("ada@mail.com".to_string())]);
}

#[test]
fn table_get_rejects_zero_and_many_keys() {
    let table = Table::new(&orm(), "users", "email");
    let empty = DynValue::Object(vec![]);
    assert_eq!(
        table.get_statement(&empty).unwrap_err(),
        OrmError::PreconditionViolation
    );
    let two = DynValue::Object(vec![
        ("email".to_string(), DynValue::Text("a@b.c".to_string())),
        ("name".to_string(), DynValue::Text("Ada".to_string())),
    ]);
    assert_eq!(
        table.get_statement(&two).unwrap_err(),
        OrmError::PreconditionViolation
    );
    let non_object = DynValue::Text("email".to_string());
    assert_eq!(
        table.get_statement(&non_object).unwrap_err(),
        OrmError::PreconditionViolation
    );
    let non_text = DynValue::Object(vec![("email".to_string(), DynValue::Int(1))]);
    assert_eq!(
        table.get_statement(&non_text).unwrap_err(),
        OrmError::PreconditionViolation
    );
}

#[test]
fn table_get_builds_a_single_row_lookup() {
    let table = Table::new(&orm(), "users", "email");
    let filter = DynValue::Object(vec![(
        "email".to_string(),
        DynValue::Text("ada@mail.com".to_string()),
    )]);
    let stmt = table.get_statement(&filter).unwrap();
    assert_eq!(stmt.sql, "SELECT * FROM users WHERE email = $1 LIMIT 1");
    assert_eq!(stmt.params, vec![Param::Text("ada@mail.com".to_string())]);
}

#[test]
fn record_snapshots_its_key() {
    let value = DynValue::Object(vec![
        ("id".to_string(), DynValue::Text("k1".to_string())),
        ("name".to_string(), DynValue::Text("Ada".to_string())),
    ]);
    let record = Record::new("users".to_string(), value, "id".to_string()).unwrap();
    let del = record.delete_statement();
    assert_eq!(del.sql, "DELETE FROM users WHERE id = $1");
    assert_eq!(del.params, vec![Param::Text("k1".to_string())]);
    let refetch = record.refetch_statement();
    assert_eq!(refetch.sql, "SELECT * FROM users WHERE id = $1");
    assert_eq!(refetch.params, vec![Param::Text("k1".to_string())]);
}

#[test]
fn record_requires_a_text_key() {
    let no_key = DynValue::Object(vec![("name".to_string(), DynValue::Text("Ada".to_string()))]);
    assert_eq!(
        Record::new("users".to_string(), no_key, "id".to_string()).unwrap_err(),
        OrmError::PreconditionViolation
    );
    let non_text = DynValue::Object(vec![("id".to_string(), DynValue::Int(1))]);
    assert_eq!(
        Record::new("users".to_string(), non_text, "id".to_string()).unwrap_err(),
        OrmError::PreconditionViolation
    );
}

#[test]
fn record_update_binds_payload_then_key() {
    let value = DynValue::Object(vec![
        ("id".to_string(), DynValue::Text("k1".to_string())),
        ("name".to_string(), DynValue::Text("Ada".to_string())),
    ]);
    let record = Record::new("users".to_string(), value, "id".to_string()).unwrap();
    let updates = DynValue::Object(vec![
        ("name".to_string(), DynValue::Text("Joe".to_string())),
        ("email".to_string(), DynValue::Text("joe@mail.com".to_string())),
    ]);
    let stmt = record.update_statement(&updates).unwrap();
    assert_eq!(
        stmt.sql,
        "UPDATE users SET name = $1, email = $2 WHERE id = $3"
    );
    assert_eq!(
        stmt.params,
        vec![
            Param::Text("Joe".to_string()),
            Param::Text("joe@mail.com".to_string()),
            Param::Text("k1".to_string()),
        ]
    );
}

#[test]
fn record_update_rejects_non_string_values() {
    let value = DynValue::Object(vec![("id".to_string(), DynValue::Text("k1".to_string()))]);
    let record = Record::new("users".to_string(), value, "id".to_string()).unwrap();
    let updates = DynValue::Object(vec![("age".to_string(), DynValue::Int(3))]);
    assert_eq!(
        record.update_statement(&updates).unwrap_err(),
        OrmError::PreconditionViolation
    );
    assert_eq!(
        record.update_statement(&DynValue::Null).unwrap_err(),
        OrmError::PreconditionViolation
    );
}

#[test]
fn update_with_no_matching_columns_sets_nothing() {
    let o = orm();
    let partial = DynValue::Object(vec![(
        "unknown".to_string(),
        DynValue::Text("x".to_string()),
    )]);
    let stmt = o.update_statement("users", "id", "k", &partial).unwrap();
    assert_eq!(stmt.sql, "UPDATE users SET  WHERE id = $1");
    assert_eq!(stmt.params, vec![Param::Text("k".to_string())]);
}

#[test]
fn orm_query_builds_a_builder_for_the_table() {
    let o = orm();
    let stmt = o.query("users").statement();
    assert_eq!(stmt.sql, "SELECT * FROM users");
    assert!(stmt.params.is_empty());
}
