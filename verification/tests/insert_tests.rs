use std::sync::Arc;

use sqlx_data_parser::insert::{
    extract_insert_base_from_statement, extract_on_conflict_clause_from_statement,
    extract_returning_clause_from_statement, extract_values_clause_from_statement,
    has_complex_sql_functions_in_values, infer_insert_columns_from_stmt,
};
use sqlx_data_parser::parser::{infer_columns_from_stmt, new_sql_parser_cache, parse_sql, SqlStatement};

fn parse_sql_for_tests(sql: &str) -> Arc<SqlStatement> {
    let cache = new_sql_parser_cache();
    parse_sql(&cache, sql).unwrap().unwrap()
}

fn placeholders(count: usize) -> String {
    vec!["?"; count].join(", ")
}

#[test]
fn test_infer_insert_columns() {
    let sql = format!(
        "INSERT INTO users (name, email, age, birth_year) VALUES ({}) RETURNING id",
        placeholders(4)
    );
    let stmt = parse_sql_for_tests(&sql);

    let columns = infer_insert_columns_from_stmt(stmt.as_ref()).unwrap();
    assert_eq!(columns, vec!["name", "email", "age", "birth_year"]);
}

#[test]
fn test_infer_insert_columns_vs_returning_columns() {
    let sql = format!(
        "INSERT INTO users (name, email, age, birth_year) VALUES ({}) RETURNING id",
        placeholders(4)
    );
    let stmt = parse_sql_for_tests(&sql);

    let insert_columns = infer_insert_columns_from_stmt(stmt.as_ref()).unwrap();
    let returning_columns = infer_columns_from_stmt(stmt.as_ref()).unwrap().columns;

    assert_eq!(insert_columns, vec!["name", "email", "age", "birth_year"]);
    assert_eq!(returning_columns, vec!["id"]);
    assert_ne!(insert_columns, returning_columns);
}

#[test]
fn test_infer_insert_columns_non_insert_should_error() {
    let sql = "SELECT name FROM users";
    let stmt = parse_sql_for_tests(sql);

    let err = infer_insert_columns_from_stmt(stmt.as_ref()).unwrap_err();
    assert!(err.to_string().contains("Not an INSERT statement"));
}

#[test]
fn test_extract_insert_base_from_statement() {
    let sql = format!(
        "INSERT INTO users (id, name, email, age, birth_year) VALUES ({}) RETURNING id",
        placeholders(5)
    );
    let stmt = parse_sql_for_tests(&sql);

    let base = extract_insert_base_from_statement(stmt.as_ref()).unwrap();

    assert!(base.starts_with("INSERT INTO users"));
    assert!(base.contains("(id, name, email, age, birth_year)"));
    assert!(!base.contains("VALUES"));
    assert!(!base.contains("RETURNING"));

    let sql_conflict = format!(
        "INSERT INTO users (id, name, email) VALUES ({}) ON CONFLICT(id) DO UPDATE SET name = EXCLUDED.name RETURNING id",
        placeholders(3)
    );
    let stmt = parse_sql_for_tests(&sql_conflict);

    let base = extract_insert_base_from_statement(stmt.as_ref()).unwrap();
    assert!(base.starts_with("INSERT INTO users"));
    assert!(base.contains("(id, name, email)"));
    assert!(!base.contains("VALUES"));
    assert!(!base.contains("ON CONFLICT"));
    assert!(!base.contains("RETURNING"));
}

#[test]
fn test_extract_insert_base_non_insert_should_error() {
    let sql = "SELECT name FROM users";
    let stmt = parse_sql_for_tests(sql);

    let err = extract_insert_base_from_statement(stmt.as_ref()).unwrap_err();
    assert!(err.to_string().contains("Expected INSERT statement"));
}

#[test]
fn test_extract_returning_clause_from_statement() {
    let sql_with_returning = format!(
        "INSERT INTO users (name, email) VALUES ({}) RETURNING id",
        placeholders(2)
    );
    let stmt = parse_sql_for_tests(&sql_with_returning);

    let returning = extract_returning_clause_from_statement(stmt.as_ref());
    assert_eq!(returning, Some(" RETURNING id".to_string()));

    let sql_multiple = format!(
        "INSERT INTO users (name, email) VALUES ({}) RETURNING id, name, created_at",
        placeholders(2)
    );
    let stmt = parse_sql_for_tests(&sql_multiple);

    let returning = extract_returning_clause_from_statement(stmt.as_ref());
    assert_eq!(
        returning,
        Some(" RETURNING id, name, created_at".to_string())
    );

    let sql_no_returning = format!(
        "INSERT INTO users (name, email) VALUES ({})",
        placeholders(2)
    );
    let stmt = parse_sql_for_tests(&sql_no_returning);

    let returning = extract_returning_clause_from_statement(stmt.as_ref());
    assert_eq!(returning, None);

    let sql_select = "SELECT name FROM users";
    let stmt = parse_sql_for_tests(sql_select);

    let returning = extract_returning_clause_from_statement(stmt.as_ref());
    assert_eq!(returning, None);
}

#[test]
fn test_extract_values_clause_from_statement() {
    let sql_simple = format!(
        "INSERT INTO users (name, email) VALUES ({})",
        placeholders(2)
    );
    let stmt = parse_sql_for_tests(&sql_simple);

    let values = extract_values_clause_from_statement(stmt.as_ref());
    assert_eq!(values, Some(format!("({})", placeholders(2))));

    {
        let sql_functions = "INSERT INTO users (id, name, email, age, birth_year) VALUES (?, UPPER(?), LOWER(?), ? + 1, ?)";
        let stmt = parse_sql_for_tests(sql_functions);

        let values = extract_values_clause_from_statement(stmt.as_ref());
        assert_eq!(
            values,
            Some("(?, UPPER(?), LOWER(?), ? + 1, ?)".to_string())
        );

        let sql_complex = "INSERT INTO users (id, name, status) VALUES (?, COALESCE(?, 'default'), CONCAT(?, '_suffix'))";
        let stmt = parse_sql_for_tests(sql_complex);

        let values = extract_values_clause_from_statement(stmt.as_ref());
        assert_eq!(
            values,
            Some("(?, COALESCE(?, 'default'), CONCAT(?, '_suffix'))".to_string())
        );

        let sql_literals =
            "INSERT INTO users (id, name, active, created_at) VALUES (?, ?, true, NOW())";
        let stmt = parse_sql_for_tests(sql_literals);

        let values = extract_values_clause_from_statement(stmt.as_ref());
        assert_eq!(values, Some("(?, ?, true, NOW())".to_string()));
    }

    let sql_select = "SELECT name FROM users";
    let stmt = parse_sql_for_tests(sql_select);

    let values = extract_values_clause_from_statement(stmt.as_ref());
    assert_eq!(values, None);

    let sql_select_insert = "INSERT INTO users (name) SELECT name FROM other_table";
    let stmt = parse_sql_for_tests(sql_select_insert);

    let values = extract_values_clause_from_statement(stmt.as_ref());
    assert_eq!(values, None);

    let sql_returning = format!(
        "INSERT INTO users (name, email, age, birth_year) VALUES ({}) RETURNING id",
        placeholders(4)
    );
    let stmt = parse_sql_for_tests(&sql_returning);

    let values = extract_values_clause_from_statement(stmt.as_ref());
    assert_eq!(values, Some(format!("({})", placeholders(4))));
}

#[test]
fn test_has_complex_sql_functions_in_values() {
    let sql_simple = format!(
        "INSERT INTO users (name, email) VALUES ({})",
        placeholders(2)
    );
    let stmt = parse_sql_for_tests(&sql_simple);

    assert!(!has_complex_sql_functions_in_values(stmt.as_ref()));

    {
        let sql_functions =
            "INSERT INTO users (id, name, email, age) VALUES (?, UPPER(?), LOWER(?), ? + 1)";
        let stmt = parse_sql_for_tests(sql_functions);

        assert!(has_complex_sql_functions_in_values(stmt.as_ref()));

        let sql_coalesce = "INSERT INTO users (id, name) VALUES (?, COALESCE(?, 'default'))";
        let stmt = parse_sql_for_tests(sql_coalesce);

        assert!(has_complex_sql_functions_in_values(stmt.as_ref()));
    }

    let sql_select = "SELECT name FROM users";
    let stmt = parse_sql_for_tests(sql_select);

    assert!(!has_complex_sql_functions_in_values(stmt.as_ref()));
}

#[test]
fn test_extract_on_conflict_clause() {
    let sql_upsert = format!(
        "INSERT INTO users (id, name, email) VALUES ({}) ON CONFLICT(id) DO UPDATE SET name = EXCLUDED.name",
        placeholders(3)
    );
    let stmt = parse_sql_for_tests(&sql_upsert);

    let on_conflict = extract_on_conflict_clause_from_statement(stmt.as_ref());
    assert_eq!(
        on_conflict,
        Some(" ON CONFLICT(id) DO UPDATE SET name = EXCLUDED.name".to_string())
    );

    let sql_simple = format!(
        "INSERT INTO users (id, name, email) VALUES ({})",
        placeholders(3)
    );
    let stmt = parse_sql_for_tests(&sql_simple);

    let on_conflict = extract_on_conflict_clause_from_statement(stmt.as_ref());
    assert_eq!(on_conflict, None);
}

#[test]
fn insert_base_exact_text() {
    let stmt = parse_sql_for_tests("INSERT INTO users (id, name) VALUES (?, ?) RETURNING id");
    assert_eq!(
        extract_insert_base_from_statement(stmt.as_ref()).unwrap(),
        "INSERT INTO users (id, name) "
    );
}

#[test]
fn values_clause_of_empty_insert_source_is_none() {
    let stmt = parse_sql_for_tests("INSERT INTO users (name) SELECT name FROM t");
    assert!(!has_complex_sql_functions_in_values(stmt.as_ref()));
    assert_eq!(extract_on_conflict_clause_from_statement(stmt.as_ref()), None);
}
