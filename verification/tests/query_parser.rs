//! Extraction of per-table column usage from statement text.

use postgreat::query_parser::{parse_query_columns, QueryParseError};

#[test]
fn extracts_single_table_filters_and_orders() {
    let query = "SELECT * FROM orders WHERE customer_id = $1 ORDER BY created_at";
    let usage = parse_query_columns(query).expect("parse");
    assert_eq!(usage.tables.len(), 1);
    let table = usage.tables[0].full_name();
    let table_usage = usage.usage_for(table.as_str()).expect("table usage");
    assert!(table_usage.filters.iter().any(|c| c == "customer_id"));
    assert!(table_usage.orders.iter().any(|c| c == "created_at"));
}

#[test]
fn extracts_join_columns_with_aliases() {
    let query =
        "SELECT * FROM orders o JOIN customers c ON o.customer_id = c.id WHERE o.status = 'open'";
    let usage = parse_query_columns(query).expect("parse");
    assert_eq!(usage.tables.len(), 2);
    let orders = usage
        .usage_by_table
        .iter()
        .find(|e| e.table.ends_with("orders"))
        .map(|e| &e.usage)
        .expect("orders");
    assert!(orders.joins.iter().any(|c| c == "customer_id"));
    assert!(orders.filters.iter().any(|c| c == "status"));
}

#[test]
fn skips_unqualified_columns_when_multiple_tables() {
    let query =
        "SELECT * FROM orders o JOIN customers c ON o.customer_id = c.id WHERE status = 'open'";
    let usage = parse_query_columns(query).expect("parse");
    let orders = usage
        .usage_by_table
        .iter()
        .find(|e| e.table.ends_with("orders"))
        .map(|e| &e.usage)
        .expect("orders");
    assert!(!orders.filters.iter().any(|c| c == "status"));
}

#[test]
fn extracts_using_join_columns() {
    let query = "SELECT * FROM orders o JOIN customers c USING (customer_id)";
    let usage = parse_query_columns(query).expect("parse");
    let orders = usage
        .usage_by_table
        .iter()
        .find(|e| e.table.ends_with("orders"))
        .map(|e| &e.usage)
        .expect("orders");
    let customers = usage
        .usage_by_table
        .iter()
        .find(|e| e.table.ends_with("customers"))
        .map(|e| &e.usage)
        .expect("customers");
    assert!(orders.joins.iter().any(|c| c == "customer_id"));
    assert!(customers.joins.iter().any(|c| c == "customer_id"));
}

#[test]
fn malformed_text_is_a_syntax_failure() {
    let result = parse_query_columns("THIS IS NOT SQL ???");
    assert_eq!(result.err(), Some(QueryParseError::Syntax));
}

#[test]
fn ddl_is_an_unsupported_statement() {
    let result = parse_query_columns("CREATE TABLE t (a int)");
    assert_eq!(result.err(), Some(QueryParseError::Unsupported));
}

#[test]
fn empty_batch_is_an_unsupported_statement() {
    let result = parse_query_columns("");
    assert_eq!(result.err(), Some(QueryParseError::Unsupported));
}

#[test]
fn several_statements_are_an_unsupported_statement() {
    let result = parse_query_columns("SELECT 1; SELECT 2");
    assert_eq!(result.err(), Some(QueryParseError::Unsupported));
}

#[test]
fn repeated_column_is_kept_once_case_insensitively() {
    let query = "SELECT * FROM t WHERE a = 1 AND A = 2";
    let usage = parse_query_columns(query).expect("parse");
    let t = usage.usage_for("t").expect("t usage");
    assert_eq!(t.filters, vec!["a".to_string()]);
}

#[test]
fn derived_table_contributes_into_the_same_result() {
    let query = "SELECT * FROM (SELECT * FROM orders WHERE customer_id = 1) sub";
    let usage = parse_query_columns(query).expect("parse");
    assert_eq!(usage.tables.len(), 1);
    assert_eq!(usage.tables[0].name, "orders");
    let orders = usage.usage_for("orders").expect("orders usage");
    assert_eq!(orders.filters, vec!["customer_id".to_string()]);
}

#[test]
fn schema_qualified_table_keeps_its_schema() {
    let query = "SELECT * FROM public.orders WHERE customer_id = $1";
    let usage = parse_query_columns(query).expect("parse");
    assert_eq!(usage.tables.len(), 1);
    assert_eq!(usage.tables[0].full_name(), "public.orders");
    let orders = usage.usage_for("public.orders").expect("orders usage");
    assert_eq!(orders.filters, vec!["customer_id".to_string()]);
}

#[test]
fn in_and_between_and_null_tests_count_as_filters() {
    let query = "SELECT * FROM t WHERE a IN (1, 2) AND b BETWEEN 1 AND 5 AND c IS NULL";
    let usage = parse_query_columns(query).expect("parse");
    let t = usage.usage_for("t").expect("t usage");
    assert_eq!(
        t.filters,
        vec!["a".to_string(), "b".to_string(), "c".to_string()]
    );
}

#[test]
fn range_predicates_are_not_mined() {
    let query = "SELECT * FROM t WHERE a > 5 AND b LIKE 'x%'";
    let usage = parse_query_columns(query).expect("parse");
    assert!(usage.usage_for("t").is_none());
}
