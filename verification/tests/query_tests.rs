use slintrust::codec::Param;
use slintrust::query::first_result;
use slintrust::query::first_value_result;
use slintrust::query::Query;
use slintrust::query_builder::fetch_one_result;
use slintrust::query_builder::QueryBuilder;
use slintrust::error::OrmError;
use slintrust::value::DynValue;

#[test]
fn plain_query_issues_bare_select() {
    let stmt = Query::new("users".to_string(), "id".to_string()).get_statement();
    assert_eq!(stmt.sql, "SELECT * FROM users");
    assert!(stmt.params.is_empty());
}

#[test]
fn query_with_all_clauses() {
    let stmt = Query::new("users".to_string(), "id".to_string())
        .where_clause("age", ">", "18")
        .order_by("name", "ASC")
        .limit(10)
        .offset(5)
        .distinct()
        .group_by(vec!["department".to_string()])
        .having("count", ">", "1")
        .get_statement();
    assert_eq!(
        stmt.sql,
        "SELECT DISTINCT * FROM users WHERE age > $1 GROUP BY department \
         HAVING count > $2 ORDER BY name ASC LIMIT 10 OFFSET 5"
    );
    assert_eq!(
        stmt.params,
        vec![Param::Text("18".to_string()), Param::Text("1".to_string())]
    );
}

#[test]
fn having_placeholders_continue_after_wheres() {
    let stmt = Query::new("t".to_string(), "id".to_string())
        .where_clause("a", "=", "1")
        .where_clause("b", ">", "2")
        .having("count", ">", "3")
        .get_statement();
    assert_eq!(
        stmt.sql,
        "SELECT * FROM t WHERE a = $1 AND b > $2 HAVING count > $3"
    );
    assert_eq!(
        stmt.params,
        vec![
            Param::Text("1".to_string()),
            Param::Text("2".to_string()),
            Param::Text("3".to_string()),
        ]
    );
}

#[test]
fn first_statement_caps_at_one_row() {
    let stmt = Query::new("users".to_string(), "id".to_string())
        .where_clause("email", "=", "ada@mail.com")
        .first_statement();
    assert_eq!(stmt.sql, "SELECT * FROM users WHERE email = $1 LIMIT 1");
    assert_eq!(stmt.params, vec![Param::Text("ada@mail.com".to_string())]);
}

#[test]
fn first_on_empty_results_is_none_not_error() {
    assert_eq!(first_result(vec![]), None);
}

#[test]
fn first_value_on_empty_results_is_not_found() {
    assert_eq!(first_value_result(vec![]), Err(OrmError::NotFound));
}

#[test]
fn first_takes_the_first_row() {
    let rows = vec![DynValue::Int(1), DynValue::Int(2)];
    assert_eq!(first_result(rows), Some(DynValue::Int(1)));
    let rows = vec![DynValue::Int(1), DynValue::Int(2)];
    assert_eq!(first_value_result(rows), Ok(DynValue::Int(1)));
}

#[test]
fn fetch_one_takes_the_last_row_or_not_found() {
    let rows = vec![DynValue::Int(1), DynValue::Int(2)];
    assert_eq!(fetch_one_result(rows), Ok(DynValue::Int(2)));
    assert_eq!(fetch_one_result(vec![]), Err(OrmError::NotFound));
}

#[test]
fn like_wraps_the_pattern_in_wildcards() {
    let stmt = QueryBuilder::new("users").like("name", "Ada").statement();
    assert_eq!(stmt.sql, "SELECT * FROM users WHERE name LIKE $1");
    assert_eq!(stmt.params, vec![Param::Text("%Ada%".to_string())]);
}

#[test]
fn ilike_wraps_the_pattern_in_wildcards() {
    let stmt = QueryBuilder::new("users").ilike("name", "Ada").statement();
    assert_eq!(stmt.sql, "SELECT * FROM users WHERE name ILIKE $1");
    assert_eq!(stmt.params, vec![Param::Text("%Ada%".to_string())]);
}

#[test]
fn builder_numbers_placeholders_by_parameter_count() {
    let stmt = QueryBuilder::new("users")
        .where_clause("age", ">", "18")
        .like("name", "Ad")
        .statement();
    assert_eq!(
        stmt.sql,
        "SELECT * FROM users WHERE age > $1 AND name LIKE $2"
    );
    assert_eq!(
        stmt.params,
        vec![Param::Text("18".to_string()), Param::Text("%Ad%".to_string())]
    );
}

#[test]
fn builder_select_join_order_limit() {
    let stmt = QueryBuilder::new("users")
        .select(vec!["id".to_string(), "name".to_string()])
        .join("posts", "users.id", "posts.user_id")
        .order_by("name", "DESC")
        .limit(5)
        .statement();
    assert_eq!(
        stmt.sql,
        "SELECT id,name FROM users JOIN posts ON users.id = posts.user_id \
         ORDER BY name DESC LIMIT 5"
    );
    assert!(stmt.params.is_empty());
}

#[test]
fn builder_left_join_and_negative_limit() {
    let stmt = QueryBuilder::new("a")
        .left_join("b", "a.x", "b.y")
        .limit(-5)
        .statement();
    assert_eq!(
        stmt.sql,
        "SELECT * FROM a LEFT JOIN b ON a.x = b.y LIMIT -5"
    );
}
