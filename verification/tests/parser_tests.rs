use std::sync::Arc;

use sqlx_data_parser::cache::GlobalCache;
use sqlx_data_parser::count::generate_count_query;
use sqlx_data_parser::error::ParserError;
use sqlx_data_parser::model::{ExprKind, ExprModel};
use sqlx_data_parser::parser::{analyze_expression_name, needs_alias_for_sqlx};
use sqlx_data_parser::parser::{new_sql_parser_cache, InferredSelect, SqlStatement};

fn cache() -> GlobalCache<u64, SqlStatement> {
    new_sql_parser_cache()
}

fn infer_columns(sql: &str) -> Result<InferredSelect, ParserError> {
    sqlx_data_parser::parser::infer_columns(&cache(), sql)
}

#[test]
fn test_simple_select() {
    let sql = "SELECT id, name FROM users";
    let result = infer_columns(sql).unwrap();
    assert_eq!(result.columns, vec!["id", "name"]);
}

#[test]
fn test_select_with_aliases() {
    let sql = "SELECT COUNT(id) as count_field, AVG(age) as average_field FROM users";
    let result = infer_columns(sql).unwrap();
    assert_eq!(result.columns, vec!["count_field", "average_field"]);
}

#[test]
fn test_cte() {
    let sql = "WITH temp AS (SELECT 1) SELECT name, birth_year FROM users WHERE id = $1";
    let result = infer_columns(sql).unwrap();
    assert_eq!(result.columns, vec!["name", "birth_year"]);
}

#[test]
fn test_complex_expressions() {
    let sql = "SELECT COUNT(*) as count, MAX(age) as max, id + 1 as incremented_id FROM users";
    let result = infer_columns(sql).unwrap();
    assert_eq!(result.columns, vec!["count", "max", "incremented_id"]);
}

#[test]
fn test_alias_validation_fails_for_functions() {
    let sql = "SELECT MIN(age), MAX(age), COUNT(*) FROM users";
    let result = infer_columns(sql);
    assert!(result.is_err());

    let error = result.unwrap_err();
    assert!(error.to_string().contains("requires an alias"));
    assert!(error.to_string().contains("MIN(age)"));
}

#[test]
fn test_alias_validation_fails_for_expressions() {
    let sql = "SELECT age + 1, price * 0.1 FROM products";
    let result = infer_columns(sql);
    assert!(result.is_err());

    let error = result.unwrap_err();
    assert!(error.to_string().contains("requires an alias"));
}

#[test]
fn test_alias_validation_passes_for_simple_columns() {
    let sql = "SELECT id, name, users.email FROM users";
    let result = infer_columns(sql);
    assert!(result.is_ok());

    let columns = result.unwrap().columns;
    assert_eq!(columns, vec!["id", "name", "email"]);
}

#[test]
fn test_alias_validation_passes_with_explicit_aliases() {
    let sql =
        "SELECT MIN(age) as min_age, COUNT(*) as total, age + 1 as age_plus_one FROM users";
    let result = infer_columns(sql);
    assert!(result.is_ok());

    let columns = result.unwrap().columns;
    assert_eq!(columns, vec!["min_age", "total", "age_plus_one"]);
}

#[test]
fn test_sqlx_cast_syntax_parsing() {
    let sql1 = "SELECT name, LENGTH(email) as email_length FROM users";
    let result1 = infer_columns(sql1);
    println!("Normal SQL: {:?}", result1);

    let sql2 = "SELECT name, LENGTH(email) as 'email_length: i64' FROM users";
    let result2 = infer_columns(sql2);
    println!("SQLx cast syntax: {:?}", result2);

    let sql3 = "SELECT name, LENGTH(email) as 'email_length!: i64' FROM users";
    let result3 = infer_columns(sql3);
    println!("SQLx cast with !: {:?}", result3);

    let sql4 = "SELECT name as 'name: String', LENGTH(email) as 'email_length: i64' FROM users";
    let result4 = infer_columns(sql4);
    println!("Multiple casts: {:?}", result4);

    assert!(result1.is_ok());
    println!("Result2 success: {:?}", result2.is_ok());
    println!("Result3 success: {:?}", result3.is_ok());
    println!("Result4 success: {:?}", result4.is_ok());

    if result2.is_ok() {
        println!(
            "Extracted columns from cast SQL: {:?}",
            result2.unwrap().columns
        );
    }
}

#[test]
fn test_column_extraction_with_casts() {
    let sql = "SELECT name as 'name: String', age as 'age: i32' FROM users WHERE id = $1";

    let result = infer_columns(sql);
    println!("Columns with casts result: {:?}", result);

    if let Ok(inferred) = result {
        println!("Extracted columns: {:?}", inferred.columns);
        assert!(inferred.columns.len() >= 2);
    }
}

#[test]
fn test_parse_cache_basic() {
    let cache = cache();
    let sql = "SELECT 1";
    let stmt1 = sqlx_data_parser::parser::parse_sql(&cache, sql).unwrap();
    let stmt2 = sqlx_data_parser::parser::parse_sql(&cache, sql).unwrap();
    let ast1 = stmt1.as_ref().unwrap();
    let ast2 = stmt2.as_ref().unwrap();
    assert!(Arc::ptr_eq(ast1, ast2));
}

#[test]
fn test_cache_hit_with_different_sql() {
    let cache = cache();
    let sql1 = "SELECT 1";
    let sql2 = "SELECT 2";

    let ast1 = sqlx_data_parser::parser::parse_sql(&cache, sql1).unwrap().unwrap();
    let ast2 = sqlx_data_parser::parser::parse_sql(&cache, sql2).unwrap().unwrap();

    assert!(!Arc::ptr_eq(&ast1, &ast2));
    assert_ne!(*ast1.ast(), *ast2.ast());
}

#[test]
fn test_cache_with_complex_query() {
    let cache = cache();
    let complex_sql = "
            WITH recent_orders AS (
                SELECT customer_id, COUNT(*) as order_count
                FROM orders
                WHERE created_at > '2023-01-01'
                GROUP BY customer_id
            )
            SELECT c.name, ro.order_count
            FROM customers c
            JOIN recent_orders ro ON c.id = ro.customer_id
            WHERE ro.order_count > 5
            ORDER BY ro.order_count DESC
        ";

    let ast1 = sqlx_data_parser::parser::parse_sql(&cache, complex_sql).unwrap().unwrap();
    let ast2 = sqlx_data_parser::parser::parse_sql(&cache, complex_sql).unwrap().unwrap();

    assert!(Arc::ptr_eq(&ast1, &ast2));
    assert!(!ast1.to_string().is_empty());
}

#[test]
fn test_cache_with_invalid_sql() {
    let cache = cache();
    let invalid_sql = "SELECTTT * FROMM users WHEREE";

    let result1 = sqlx_data_parser::parser::parse_sql(&cache, invalid_sql);
    let result2 = sqlx_data_parser::parser::parse_sql(&cache, invalid_sql);

    assert!(result1.unwrap().is_none());
    assert!(result2.unwrap().is_none());
}

#[test]
fn test_cache_capacity() {
    let cache = cache();
    for i in 0..100 {
        let sql = format!("SELECT {} FROM test_table_{}", i, i);
        let _result = sqlx_data_parser::parser::parse_sql(&cache, &sql);
    }

    let test_sql = "SELECT 999 FROM final_test";
    let result = sqlx_data_parser::parser::parse_sql(&cache, test_sql);
    assert!(result.is_ok());
}

#[test]
fn test_parse_sql_cache_functionality() {
    let cache = cache();
    let sql = "SELECT id, name FROM users WHERE active = true";

    let ast1 = sqlx_data_parser::parser::parse_sql(&cache, sql)
        .expect("should parse SQL")
        .expect("should have statement");

    let ast2 = sqlx_data_parser::parser::parse_sql(&cache, sql)
        .expect("should parse SQL from cache")
        .expect("should have statement");

    assert!(
        Arc::ptr_eq(&ast1, &ast2),
        "Should return same Arc from cache"
    );

    assert_eq!(*ast1.ast(), *ast2.ast(), "AST content should be identical");

    let different_sql = "SELECT COUNT(*) FROM products";
    let ast3 = sqlx_data_parser::parser::parse_sql(&cache, different_sql)
        .expect("should parse different SQL")
        .expect("should have statement");

    assert!(
        !Arc::ptr_eq(&ast1, &ast3),
        "Different SQL should have different Arc"
    );

    let ast4 = sqlx_data_parser::parser::parse_sql(&cache, sql)
        .expect("should parse original SQL again")
        .expect("should have statement");
    assert!(
        Arc::ptr_eq(&ast1, &ast4),
        "Original SQL should still hit cache"
    );
}

#[test]
fn test_different_cast_syntaxes() {
    let test_cases = vec![
        (
            "SELECT LENGTH(email) as 'len: i64' FROM users",
            "Standard cast",
        ),
        (
            "SELECT LENGTH(email) as 'len!: i64' FROM users",
            "Force cast with !",
        ),
        (
            "SELECT LENGTH(email) as \"len: i64\" FROM users",
            "Double quotes",
        ),
        (
            "SELECT LENGTH(email) as len FROM users",
            "No cast (control)",
        ),
        ("SELECT email as 'email: _' FROM users", "Wildcard type"),
    ];

    for (sql, description) in test_cases {
        println!("\nTesting {}: {}", description, sql);
        let result = infer_columns(sql);
        println!("Parse result: {:?}", result.is_ok());

        if let Ok(inferred) = result {
            println!("Extracted columns: {:?}", inferred.columns);
        } else {
            println!("Error: {:?}", result.unwrap_err());
        }
    }
}

fn count_sql_of(sql: &str) -> String {
    let cache = cache();
    let statement = sqlx_data_parser::parser::parse_sql(&cache, sql).unwrap().unwrap();
    generate_count_query(&statement, None)
}

#[test]
fn test_count_query_golden_rule() {
    let simple_cases = vec![
        "SELECT id, name FROM users",
        "SELECT * FROM users WHERE age > 18",
    ];
    let distinct_cases = vec!["SELECT DISTINCT country FROM users"];
    let join_cases =
        vec!["SELECT u.name, p.title FROM users u JOIN posts p ON u.id = p.user_id"];

    for sql in simple_cases {
        let count_sql = count_sql_of(sql);
        println!("Simple SQL: {}", sql);
        println!("Count SQL: {}", count_sql);
        assert!(!count_sql.contains("FROM ("));
        assert!(count_sql.starts_with("SELECT COUNT(*) FROM"));
    }

    for sql in distinct_cases {
        let count_sql = count_sql_of(sql);
        println!("DISTINCT SQL: {}", sql);
        println!("Count SQL: {}", count_sql);
        assert!(!count_sql.contains("FROM ("));
        assert!(count_sql.starts_with("SELECT COUNT(DISTINCT country)"));
    }

    for sql in join_cases {
        let count_sql = count_sql_of(sql);
        println!("JOIN SQL: {}", sql);
        println!("Count SQL: {}", count_sql);
        assert!(count_sql.contains("FROM ("));
        assert!(count_sql.starts_with("SELECT COUNT(*) FROM ("));
    }

    let group_by_cases = vec![
        "SELECT country, COUNT(*) FROM users GROUP BY country",
        "SELECT age_bracket, COUNT(*) FROM users GROUP BY age_bracket HAVING COUNT(*) >= 5",
        "SELECT CASE WHEN age < 25 THEN 'Young' ELSE 'Old' END as bracket, COUNT(*) FROM users GROUP BY bracket",
    ];

    for sql in group_by_cases {
        let count_sql = count_sql_of(sql);
        println!("GROUP BY SQL: {}", sql);
        println!("Count SQL: {}", count_sql);
        assert!(count_sql.contains("FROM ("));
        assert!(count_sql.contains("AS sub"));
        assert!(count_sql.starts_with("SELECT COUNT(*) FROM ("));
    }
}

#[test]
fn test_count_query_with_complex_group_by() {
    let sql = "SELECT
           CASE
               WHEN age < 25 THEN 'Young'
               WHEN age < 50 THEN 'Adult'
               ELSE 'Senior'
           END as age_bracket,
           COUNT(*) as user_count,
           AVG(CAST(birth_year as REAL)) as avg_birth_year
           FROM users
           WHERE name NOT LIKE '%test%'
           GROUP BY CASE
               WHEN age < 25 THEN 'Young'
               WHEN age < 50 THEN 'Adult'
               ELSE 'Senior'
           END
           HAVING COUNT(*) >= $1";

    let count_sql = count_sql_of(sql);
    println!("Original SQL: {}", sql);
    println!("Generated count SQL: {}", count_sql);

    assert!(count_sql.contains("FROM ("));
    assert!(count_sql.contains("AS sub"));
    assert!(count_sql.contains("HAVING"));
    assert!(count_sql.contains("$1"));
    assert!(!count_sql.contains("COUNT(*) as user_count"));
    assert!(count_sql.contains("AVG(CAST(birth_year"));
}

#[test]
fn test_count_query_with_sqlx_cast_syntax() {
    let sql = "SELECT id as 'id!: Id', name, email, age as 'age: u8', birth_year as 'birth_year: u16' FROM users WHERE age BETWEEN $1 AND $2 AND name LIKE $3 AND (birth_year IS NULL OR birth_year > $4)";

    let count_sql = count_sql_of(sql);
    println!("Original SQL: {}", sql);
    println!("Generated Count SQL: {}", count_sql);

    assert!(!count_sql.contains(": Id"));
    assert!(!count_sql.contains(": u8"));
    assert!(!count_sql.contains(": u16"));

    assert!(count_sql.contains("COUNT(*)"));
    assert!(count_sql.contains("FROM users"));
    assert!(count_sql.contains("WHERE age BETWEEN"));
}

#[test]
fn infer_insert_returning_columns() {
    let sql = r#"
        INSERT INTO users (name, email)
        VALUES ('john', 'john@test.com')
        RETURNING id, name, email
    "#;

    let result = infer_columns(sql).expect("should infer columns");

    assert_eq!(result.columns, vec!["id", "name", "email"]);
}

#[test]
fn infer_insert_returning_with_alias() {
    let sql = r#"
        INSERT INTO users (name)
        VALUES ('john')
        RETURNING id AS user_id, name AS user_name
    "#;

    let result = infer_columns(sql).expect("should infer columns");

    assert_eq!(result.columns, vec!["user_id", "user_name"]);
}

#[test]
fn infer_update_returning_columns() {
    let sql = r#"
        UPDATE users
        SET age = age + 1
        WHERE id = 1
        RETURNING id, age
    "#;

    let result = infer_columns(sql).expect("should infer columns");

    assert_eq!(result.columns, vec!["id", "age"]);
}

#[test]
fn infer_update_returning_expression_with_alias() {
    let sql = r#"
        UPDATE users
        SET age = age + 1
        RETURNING age + 1 AS next_age
    "#;

    let result = infer_columns(sql).expect("should infer columns");

    assert_eq!(result.columns, vec!["next_age"]);
}

#[test]
fn infer_delete_returning_columns() {
    let sql = r#"
        DELETE FROM users
        WHERE age < 18
        RETURNING id, email
    "#;

    let result = infer_columns(sql).expect("should infer columns");

    assert_eq!(result.columns, vec!["id", "email"]);
}

#[test]
fn insert_without_returning_should_error() {
    let sql = r#"
        INSERT INTO users (name)
        VALUES ('john')
    "#;

    let err = infer_columns(sql).unwrap_err();

    assert!(
        err.to_string().contains("INSERT without RETURNING"),
        "unexpected error: {}",
        err.to_string()
    );
}

#[test]
fn update_without_returning_should_error() {
    let sql = r#"
        UPDATE users
        SET age = 30
        WHERE id = 1
    "#;

    let err = infer_columns(sql).unwrap_err();

    assert!(
        err.to_string().contains("UPDATE without RETURNING"),
        "unexpected error: {}",
        err.to_string()
    );
}

#[test]
fn delete_without_returning_should_error() {
    let sql = r#"
        DELETE FROM users WHERE id = 1
    "#;

    let err = infer_columns(sql).unwrap_err();

    assert!(
        err.to_string().contains("DELETE without RETURNING"),
        "unexpected error: {}",
        err.to_string()
    );
}

#[test]
fn returning_expression_without_alias_should_error() {
    let sql = r#"
        UPDATE users
        SET age = age + 1
        RETURNING age + 1
    "#;

    let err = infer_columns(sql).unwrap_err();

    assert!(
        err.to_string().contains("requires an alias"),
        "unexpected error: {}",
        err.to_string()
    );
}

#[test]
fn returning_star_should_error() {
    let sql = r#"
        DELETE FROM users
        RETURNING *
    "#;

    let err = infer_columns(sql).unwrap_err();

    assert!(
        err.to_string().contains("SELECT *") || err.to_string().contains("not supported"),
        "unexpected error: {}",
        err.to_string()
    );
}

#[test]
fn expression_names_and_alias_rule() {
    let f = ExprModel {
        kind: ExprKind::Function { name: "COUNT".to_string(), windowed: false },
        text: "COUNT(*)".to_string(),
    };
    assert_eq!(analyze_expression_name(&f, 0), "count");
    assert!(needs_alias_for_sqlx(&f));
    let c = ExprModel {
        kind: ExprKind::CompoundIdentifier(Some("email".to_string())),
        text: "u.email".to_string(),
    };
    assert_eq!(analyze_expression_name(&c, 3), "email");
    assert!(!needs_alias_for_sqlx(&c));
    let o = ExprModel { kind: ExprKind::Other, text: "1".to_string() };
    assert_eq!(analyze_expression_name(&o, 12), "field_12");
}

#[test]
fn alias_error_message_is_exact() {
    let err = infer_columns("SELECT id, age + 1 FROM users").unwrap_err();
    assert_eq!(
        err.to_string(),
        "Column 2 'age + 1' requires an alias for SQLx compatibility. Add 'AS column_name'. Example: age + 1 AS column_name"
    );
}

#[test]
fn qualified_wildcard_gets_field_name_and_non_select_is_rejected() {
    let result = infer_columns("SELECT id, u.* FROM users u").unwrap();
    assert_eq!(result.columns, vec!["id", "field_1"]);
    let err = infer_columns("SELECT a FROM t UNION SELECT a FROM u").unwrap_err();
    assert_eq!(err.to_string(), "Only SELECT queries are supported");
    let err = infer_columns("CREATE TABLE t (a INT)").unwrap_err();
    assert_eq!(err.to_string(), "Unsupported SQL statement");
}

#[test]
fn parse_rejects_empty_and_multiple_statements() {
    let cache = cache();
    let err = sqlx_data_parser::parser::parse_sql(&cache, "").unwrap_err();
    assert_eq!(err.to_string(), "error occurred while parsing SQL: Empty SQL statement provided.");
    let err = sqlx_data_parser::parser::parse_sql(&cache, "SELECT 1; SELECT 2").unwrap_err();
    assert!(err.to_string().contains("Multiple SQL statements detected"));
    let only_separator = sqlx_data_parser::parser::parse_sql(&cache, ";");
    assert!(!matches!(only_separator, Ok(Some(_))));
    let err = infer_columns("SELECTTT x").unwrap_err();
    assert_eq!(err.to_string(), "SQL parsing failed");
}
