use std::sync::Arc;

use sqlx_data_parser::count::{
    analyze_query, generate_count_query, plan_count_query, CountStrategy, DistinctTarget,
    ProjectionEdit,
};
use sqlx_data_parser::dynamic::{build_count_query_from_sql, new_count_sql_cache};
use sqlx_data_parser::model::StatementModel;
use sqlx_data_parser::parser::{new_sql_parser_cache, parse_sql, SqlStatement};

fn parse_sql_for_tests(sql: &str) -> Arc<SqlStatement> {
    let cache = new_sql_parser_cache();
    parse_sql(&cache, sql).unwrap().unwrap()
}

#[test]
fn test_generate_count_query_basic() {
    let sql = "SELECT id, name FROM users WHERE age > 18";
    let statement = parse_sql_for_tests(sql);
    let count_sql = generate_count_query(statement.as_ref(), None);
    assert!(count_sql.contains("COUNT(*)"));
    assert!(count_sql.contains("WHERE age > 18"));
}

#[test]
fn test_generate_count_query_with_order_by() {
    let sql = "SELECT name, email FROM users ORDER BY name ASC LIMIT 10";
    let statement = parse_sql_for_tests(sql);
    let count_sql = generate_count_query(statement.as_ref(), None);
    assert!(count_sql.contains("COUNT(*)"));
    assert!(!count_sql.contains("ORDER BY"));
    assert!(!count_sql.contains("LIMIT"));
}

#[test]
fn test_generate_count_query_complex_join() {
    let sql = "SELECT u.name, p.title FROM users u JOIN posts p ON u.id = p.user_id WHERE u.active = true";
    let statement = parse_sql_for_tests(sql);
    let count_sql = generate_count_query(statement.as_ref(), None);
    assert!(count_sql.contains("COUNT(*)"));
    assert!(count_sql.contains("FROM ("));
}

#[test]
fn test_analyze_simple_select() {
    let sql = "SELECT name FROM users WHERE active = true";
    let statement = parse_sql_for_tests(sql);
    let analysis = analyze_query(statement.model(), None);

    match analysis.strategy {
        CountStrategy::SimpleCount => assert!(true),
        _ => panic!("Expected SimpleCount for simple SELECT"),
    }
}

#[test]
fn test_analyze_group_by() {
    let sql = "SELECT country, COUNT(*) FROM users GROUP BY country";
    let statement = parse_sql_for_tests(sql);
    let analysis = analyze_query(statement.model(), None);

    match analysis.strategy {
        CountStrategy::SubqueryCount => assert!(true),
        _ => panic!("Expected SubqueryCount for GROUP BY query"),
    }
}

#[test]
fn test_analyze_distinct() {
    let sql = "SELECT DISTINCT name FROM users";
    let statement = parse_sql_for_tests(sql);
    let analysis = analyze_query(statement.model(), None);

    match analysis.strategy {
        CountStrategy::CountDistinct(_) => assert!(true),
        _ => panic!("Expected CountDistinct for DISTINCT query"),
    }
}

#[test]
fn test_analyze_join_with_pk() {
    let sql = "SELECT u.name, p.title FROM users u JOIN posts p ON u.id = p.user_id";
    let statement = parse_sql_for_tests(sql);
    let analysis = analyze_query(statement.model(), Some("u.id"));

    match analysis.strategy {
        CountStrategy::CountDistinct(_) => assert!(true),
        _ => panic!("Expected CountDistinct for JOIN with primary key"),
    }
}

#[test]
fn test_analyze_join_without_pk() {
    let sql = "SELECT u.name, p.title FROM users u JOIN posts p ON u.id = p.user_id";
    let statement = parse_sql_for_tests(sql);
    let analysis = analyze_query(statement.model(), None);

    match analysis.strategy {
        CountStrategy::SubqueryCount => assert!(true),
        _ => panic!("Expected SubqueryCount for JOIN without primary key"),
    }
}

#[test]
fn test_generate_count_query_simple_select() {
    let sql = "SELECT name, email, age FROM users WHERE active = true ORDER BY created_at DESC LIMIT 20 OFFSET 40";
    let statement = parse_sql_for_tests(sql);
    let count_sql = generate_count_query(statement.as_ref(), None);

    assert!(count_sql.contains("SELECT COUNT(*)"));
    assert!(count_sql.contains("SELECT COUNT(*) FROM users WHERE active = true"));
    assert!(!count_sql.contains("ORDER BY"));
    assert!(!count_sql.contains("LIMIT"));
    assert!(!count_sql.contains("OFFSET"));
    assert!(!count_sql.contains("FROM ("));
}

#[test]
fn test_generate_count_query_multiple_columns_projection() {
    let sql = "SELECT name, email, age FROM users WHERE created_at > '2024-01-01' ORDER BY name LIMIT 10";
    let statement = parse_sql_for_tests(sql);
    let count_sql = generate_count_query(statement.as_ref(), None);

    assert!(count_sql.contains("COUNT(*)"));
    assert!(count_sql.contains("FROM users WHERE created_at > '2024-01-01'"));
    assert!(!count_sql.contains("FROM ("));
    assert!(!count_sql.contains("ORDER BY"));
    assert!(!count_sql.contains("LIMIT"));
}

#[test]
fn test_generate_count_query_without_pk() {
    let sql = "SELECT u.name, p.title FROM users u JOIN posts p ON u.id = p.user_id ORDER BY p.created_at DESC LIMIT 50";
    let statement = parse_sql_for_tests(sql);
    let count_sql = generate_count_query(statement.as_ref(), None);

    assert!(count_sql.contains("COUNT(*)"));
    assert!(count_sql.contains("SELECT 1 FROM users u JOIN posts p"));
    assert!(count_sql.contains("FROM ("));
    assert!(!count_sql.contains("ORDER BY"));
    assert!(!count_sql.contains("LIMIT"));
}

#[test]
fn test_generate_count_query_join_with_pk() {
    let sql = "SELECT u.name, p.title FROM users u JOIN posts p ON u.id = p.user_id ORDER BY p.created_at DESC LIMIT 50";
    let statement = parse_sql_for_tests(sql);
    let count_sql = generate_count_query(statement.as_ref(), Some("id"));
    println!("Generated count SQL: {}", count_sql);

    assert!(count_sql.contains("COUNT(DISTINCT id)"));
    assert!(count_sql.contains("FROM users u JOIN posts p ON u.id = p.user_id"));
    assert!(!count_sql.contains("FROM ("));
    assert!(!count_sql.contains("ORDER BY"));
    assert!(!count_sql.contains("LIMIT"));
}

#[test]
fn test_generate_count_query_group_by() {
    let sql = "SELECT department, AVG(salary) AS avg_salary FROM employees GROUP BY department HAVING AVG(salary) > 50000 ORDER BY avg_salary DESC LIMIT 5";
    let statement = parse_sql_for_tests(sql);
    let count_sql = generate_count_query(statement.as_ref(), None);

    assert!(count_sql.contains("COUNT(*)"));
    assert!(count_sql.contains("FROM (SELECT department, AVG(salary)"));
    assert!(count_sql.contains("GROUP BY department"));
    assert!(count_sql.contains("HAVING"));
    assert!(!count_sql.contains("SELECT 1"));
    assert!(!count_sql.contains("ORDER BY"));
    assert!(!count_sql.contains("LIMIT"));
}

#[test]
fn test_generate_count_query_distinct_single_column() {
    let sql = "SELECT DISTINCT email FROM users WHERE active = true ORDER BY email LIMIT 100 OFFSET 200";
    let statement = parse_sql_for_tests(sql);
    let count_sql = generate_count_query(statement.as_ref(), None);
    println!("Generated count SQL: {}", count_sql);
    assert!(count_sql.contains("COUNT(DISTINCT email)"));
    assert!(count_sql.contains("FROM users WHERE active = true"));
    assert!(!count_sql.contains("FROM ("));
    assert!(!count_sql.contains("ORDER BY"));
    assert!(!count_sql.contains("LIMIT"));
    assert!(!count_sql.contains("OFFSET"));
    assert!(!count_sql.contains("SELECT 1"));
}

#[test]
fn test_complex_query_1_subquery_in_from() {
    let sql = "SELECT u.name FROM (SELECT name FROM users WHERE active = true) u LIMIT 10";
    let statement = parse_sql_for_tests(sql);
    let count_sql = generate_count_query(statement.as_ref(), None);
    println!("Generated count SQL: {}", count_sql);
    assert!(count_sql.contains("COUNT(*)"));
    assert!(count_sql.contains("FROM ("));
    assert!(count_sql.contains("SELECT name FROM users WHERE active = true"));
    assert!(count_sql.contains("SELECT 1"));
    assert!(!count_sql.contains("LIMIT"));
}

#[test]
fn test_complex_query_2_window_function() {
    let sql = "SELECT name, ROW_NUMBER() OVER (PARTITION BY department ORDER BY salary DESC) AS rn FROM employees";
    let statement = parse_sql_for_tests(sql);
    let count_sql = generate_count_query(statement.as_ref(), None);

    assert!(count_sql.contains("COUNT(*)"));
    assert!(count_sql.contains("FROM ("));
    assert!(count_sql.contains("ROW_NUMBER() OVER"));
    assert!(!count_sql.contains("SELECT 1"));
}

#[test]
fn test_complex_query_3_distinct_multiple_columns() {
    let sql = "SELECT DISTINCT name, email FROM users WHERE created_at > '2024-01-01'";
    let statement = parse_sql_for_tests(sql);
    let count_sql = generate_count_query(statement.as_ref(), None);

    println!("Generated count SQL: {}", count_sql);
    assert!(count_sql.contains("SELECT COUNT(*) FROM"));
    assert!(count_sql.contains("SELECT DISTINCT name, email FROM users"));
    assert!(count_sql.contains("FROM ("));
    assert!(!count_sql.contains("COUNT(DISTINCT"));
}

#[test]
fn test_complex_query_4_group_by_with_alias() {
    let sql = "SELECT department AS dept, AVG(salary) FROM employees GROUP BY dept";
    let statement = parse_sql_for_tests(sql);
    let count_sql = generate_count_query(statement.as_ref(), None);

    assert!(count_sql.contains("COUNT(*)"));
    assert!(count_sql.contains("FROM ("));
    assert!(count_sql.contains("GROUP BY dept"));
    assert!(!count_sql.contains("SELECT 1"));
}

#[test]
fn test_distinct_multiple_columns_preserves_distinct_in_subquery() {
    let sql = "SELECT DISTINCT name, email, age FROM users WHERE active = true";
    let statement = parse_sql_for_tests(sql);
    let count_sql = generate_count_query(statement.as_ref(), None);
    println!("Generated count SQL: {}", count_sql);

    assert!(count_sql.contains("SELECT COUNT(*) FROM"));
    assert!(count_sql.contains("SELECT DISTINCT name, email, age"));
    assert!(!count_sql.contains("COUNT(DISTINCT"));
}

#[test]
fn test_complex_query_5_cte_with_union() {
    let sql = "WITH active_users AS (SELECT * FROM users WHERE active = true) SELECT * FROM active_users UNION SELECT * FROM archived_users LIMIT 10";
    let statement = parse_sql_for_tests(sql);
    let count_sql = generate_count_query(statement.as_ref(), None);
    println!("Generated count SQL: {}", count_sql);
    assert!(count_sql.contains("COUNT(*)"));
    assert!(count_sql.contains("FROM ("));
    assert!(count_sql.contains("WITH active_users AS"));
    assert!(count_sql.contains("UNION"));
    assert!(!count_sql.contains("SELECT 1"));
}

#[test]
fn test_simple_count_semantic_correctness_issue() {
    let sql = "SELECT country FROM users";
    let statement = parse_sql_for_tests(sql);
    let count_sql = generate_count_query(statement.as_ref(), None);

    println!("Original SQL: {}", sql);
    println!("Generated count SQL: {}", count_sql);

    assert_eq!(count_sql, "SELECT COUNT(*) FROM users");
}

#[test]
fn test_real_bugs_found() {
    let cache = new_sql_parser_cache();
    let sql1 = "SELECT name FROM users FETCH FIRST 10 ROWS ONLY";
    if let Ok(Some(statement1)) = parse_sql(&cache, sql1) {
        let count_sql1 = generate_count_query(statement1.as_ref(), None);
        println!("FETCH BUG: {} -> {}", sql1, count_sql1);
    }

    let sql2 = "SELECT DISTINCT name FROM (SELECT DISTINCT email, name FROM users) sub";
    let statement2 = parse_sql_for_tests(sql2);
    let count_sql2 = generate_count_query(statement2.as_ref(), None);
    println!("NESTED DISTINCT BUG: {} -> {}", sql2, count_sql2);

    let sql3 = "SELECT name FROM users WHERE id > 0";
    let statement3 = parse_sql_for_tests(sql3);
    let count_sql3 = generate_count_query(statement3.as_ref(), None);
    println!("MISSING FUNCTION: {} -> {}", sql3, count_sql3);

    let sql4 = "WITH temp AS (SELECT * FROM users) SELECT name FROM temp WHERE active = true";
    let statement4 = parse_sql_for_tests(sql4);
    let count_sql4 = generate_count_query(statement4.as_ref(), None);
    println!("CTE BUG: {} -> {}", sql4, count_sql4);

    let sql5 = "SELECT DISTINCT name, email FROM users";
    let statement5 = parse_sql_for_tests(sql5);
    let count_sql5 = generate_count_query(statement5.as_ref(), None);
    println!("MYSQL COMPAT BUG: {} -> {}", sql5, count_sql5);

    assert!(count_sql2.contains("COUNT"));
    assert!(count_sql3.contains("COUNT"));
    assert!(count_sql4.contains("COUNT"));
    assert!(count_sql5.contains("COUNT"));
}

// Exact expected texts of each counting strategy.

#[test]
fn count_exact_simple() {
    let s = parse_sql_for_tests("SELECT id, name FROM users WHERE age > 18 ORDER BY id LIMIT 5");
    assert_eq!(generate_count_query(&s, None), "SELECT COUNT(*) FROM users WHERE age > 18");
}

#[test]
fn count_exact_distinct_single() {
    let s = parse_sql_for_tests("SELECT DISTINCT email FROM users");
    assert_eq!(generate_count_query(&s, None), "SELECT COUNT(DISTINCT email) FROM users");
}

#[test]
fn count_exact_subquery_select_one() {
    let s = parse_sql_for_tests("SELECT u.name FROM users u JOIN posts p ON u.id = p.user_id");
    assert_eq!(
        generate_count_query(&s, None),
        "SELECT COUNT(*) FROM (SELECT 1 FROM users u JOIN posts p ON u.id = p.user_id) AS sub"
    );
}

#[test]
fn count_exact_cte_prefix() {
    let s = parse_sql_for_tests("WITH t AS (SELECT id FROM users) SELECT id FROM t");
    assert_eq!(
        generate_count_query(&s, None),
        "WITH t AS (SELECT id FROM users) SELECT COUNT(*) FROM (SELECT 1 FROM t) AS sub"
    );
}

#[test]
fn count_non_query_is_rendered_unchanged() {
    let s = parse_sql_for_tests("DELETE FROM users WHERE id = 1");
    assert_eq!(generate_count_query(&s, None), "DELETE FROM users WHERE id = 1");
}

#[test]
fn count_plan_distinct_targets() {
    let s = parse_sql_for_tests("SELECT DISTINCT a, b FROM t");
    match s.model() {
        StatementModel::Query(q) => {
            let plan = plan_count_query(q, None);
            match &plan.analysis.strategy {
                CountStrategy::CountDistinct(ts) => {
                    assert_eq!(ts.len(), 2);
                    assert!(matches!(ts[0], DistinctTarget::Projected(0)));
                    assert!(matches!(ts[1], DistinctTarget::Projected(1)));
                }
                _ => panic!("expected CountDistinct"),
            }
            assert!(plan.wrap);
            assert!(matches!(plan.projection, ProjectionEdit::Keep));
        }
        _ => panic!("expected a query"),
    }
}

#[test]
fn count_analysis_reasons() {
    let cases = vec![
        ("SELECT a FROM t UNION SELECT a FROM u", "Set operation (UNION/INTERSECT/EXCEPT)"),
        ("SELECT a, COUNT(*) AS c FROM t GROUP BY a", "GROUP BY/HAVING/window functions present"),
        ("SELECT x.a FROM (SELECT a FROM t) x", "Subquery in FROM or JOIN"),
        ("SELECT DISTINCT * FROM t", "DISTINCT with wildcard or complex projection"),
        ("SELECT a FROM t", "Simple COUNT(*) safe"),
        ("SELECT a + 1 AS b FROM t", "Projection affects result cardinality"),
    ];
    for (sql, reason) in cases {
        let s = parse_sql_for_tests(sql);
        assert_eq!(analyze_query(s.model(), None).reason, reason, "{}", sql);
    }
}

#[test]
fn build_count_query_uses_both_caches() {
    let parser_cache = new_sql_parser_cache();
    let count_cache = new_count_sql_cache();
    let sql = "SELECT id FROM users ORDER BY id";
    let a = build_count_query_from_sql(&parser_cache, &count_cache, sql).unwrap();
    let b = build_count_query_from_sql(&parser_cache, &count_cache, sql).unwrap();
    assert_eq!(*a, "SELECT COUNT(*) FROM users");
    assert!(Arc::ptr_eq(&a, &b));
}

#[test]
fn build_count_query_rejects_invalid_sql() {
    let parser_cache = new_sql_parser_cache();
    let count_cache = new_count_sql_cache();
    let err = build_count_query_from_sql(&parser_cache, &count_cache, "SELECTTT x FROMM").unwrap_err();
    assert!(err.to_string().contains("No valid SQL statement found"));
    let err = build_count_query_from_sql(&parser_cache, &count_cache, "").unwrap_err();
    assert!(err.to_string().contains("Empty SQL statement provided."));
}
