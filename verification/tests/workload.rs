//! Candidate building, deduplication, ranking, and the slow-statement
//! listings.

use postgreat::query_parser::{QueryColumnUsage, TableColumnUsage, TableRef, TableUsageEntry};
use postgreat::workload::{
    analyze_statements, build_candidates_for_usage, build_index_candidates,
    build_slow_query_groups, format_query_text, format_reason, is_index_covered, normalize_query,
    resolve_table_schema, truncate_query, IndexCatalog, SlowQueryKind, StatementStat,
    WorkloadOptions, WorkloadResults,
};

fn stat(queryid: i64, query: &str, total_time_us: u64) -> StatementStat {
    StatementStat {
        queryid,
        query: query.to_string(),
        calls: 10,
        total_time_us,
        mean_time_us: 100_000,
        max_time_us: 200_000,
        rows: 0,
        shared_blks_read: 0,
        shared_blks_hit: 0,
        temp_blks_read: 0,
        temp_blks_written: 0,
    }
}

fn make_usage() -> QueryColumnUsage {
    QueryColumnUsage {
        tables: vec![TableRef {
            schema: Some("public".to_string()),
            name: "orders".to_string(),
        }],
        usage_by_table: vec![TableUsageEntry {
            table: "public.orders".to_string(),
            usage: TableColumnUsage {
                filters: vec!["customer_id".to_string(), "status".to_string()],
                joins: vec!["org_id".to_string()],
                orders: vec!["created_at".to_string()],
            },
        }],
    }
}

#[test]
fn candidate_orders_columns_by_filter_join_order() {
    let usage = make_usage();
    let catalog = IndexCatalog::new();
    let one = stat(1, "SELECT * FROM orders", 1_000_000);
    let candidates = build_candidates_for_usage(&one, &usage, &catalog);
    assert_eq!(candidates.len(), 1);
    assert_eq!(
        candidates[0].columns,
        vec![
            "customer_id".to_string(),
            "status".to_string(),
            "org_id".to_string()
        ]
    );
}

#[test]
fn candidate_skips_when_index_covers_prefix() {
    let usage = QueryColumnUsage {
        tables: vec![TableRef {
            schema: Some("public".to_string()),
            name: "orders".to_string(),
        }],
        usage_by_table: vec![TableUsageEntry {
            table: "public.orders".to_string(),
            usage: TableColumnUsage {
                filters: vec!["customer_id".to_string(), "status".to_string()],
                joins: vec![],
                orders: vec![],
            },
        }],
    };
    let mut catalog = IndexCatalog::new();
    catalog.add_index(
        "public",
        "orders",
        vec!["customer_id".to_string(), "status".to_string()],
    );
    let one = stat(1, "SELECT * FROM orders", 1_000_000);
    let candidates = build_candidates_for_usage(&one, &usage, &catalog);
    assert!(candidates.is_empty());
}

#[test]
fn prefix_order_mismatch_is_not_covered() {
    let mut catalog = IndexCatalog::new();
    catalog.add_index(
        "public",
        "orders",
        vec!["customer_id".to_string(), "status".to_string()],
    );
    let straight = vec!["customer_id".to_string(), "status".to_string()];
    let reversed = vec!["status".to_string(), "customer_id".to_string()];
    assert!(is_index_covered("public.orders", &straight, &catalog));
    assert!(!is_index_covered("public.orders", &reversed, &catalog));
}

#[test]
fn coverage_compares_case_insensitively() {
    let mut catalog = IndexCatalog::new();
    catalog.add_index("public", "orders", vec!["Customer_ID".to_string()]);
    let columns = vec!["customer_id".to_string()];
    assert!(is_index_covered("public.orders", &columns, &catalog));
}

#[test]
fn candidate_dedupes_by_columns() {
    let catalog = IndexCatalog::new();
    let stats = vec![
        stat(
            1,
            "SELECT * FROM orders WHERE customer_id = $1 AND status = 'open'",
            1_000_000,
        ),
        stat(
            2,
            "SELECT * FROM orders WHERE customer_id = $1 AND status = 'open'",
            500_000,
        ),
    ];
    let mut results = WorkloadResults::default();
    let candidates =
        build_index_candidates(&stats, &catalog, &WorkloadOptions::default(), &mut results);
    assert_eq!(candidates.len(), 1);
    assert_eq!(candidates[0].queryid, 1);
}

#[test]
fn dedup_tie_falls_to_the_smaller_statement_id() {
    let catalog = IndexCatalog::new();
    let text = "SELECT * FROM orders WHERE customer_id = $1";
    let forward = vec![stat(1, text, 700_000), stat(2, text, 700_000)];
    let backward = vec![stat(2, text, 700_000), stat(1, text, 700_000)];
    let opts = WorkloadOptions::default();
    let mut results_a = WorkloadResults::default();
    let from_forward = build_index_candidates(&forward, &catalog, &opts, &mut results_a);
    let mut results_b = WorkloadResults::default();
    let from_backward = build_index_candidates(&backward, &catalog, &opts, &mut results_b);
    assert_eq!(from_forward.len(), 1);
    assert_eq!(from_backward.len(), 1);
    assert_eq!(from_forward[0].queryid, 1);
    assert_eq!(from_backward[0].queryid, 1);
}

#[test]
fn parse_failures_are_counted_not_raised() {
    let catalog = IndexCatalog::new();
    let stats = vec![
        stat(1, "SELECT * FROM orders WHERE customer_id = $1", 1_000_000),
        stat(2, "DEFINITELY NOT SQL ???", 900_000),
        stat(3, "DROP TABLE orders", 800_000),
    ];
    let results = analyze_statements(&stats, &catalog, &WorkloadOptions::default());
    assert_eq!(results.parse_failures, 2);
    assert_eq!(results.query_index_candidates.len(), 1);
    assert_eq!(results.query_index_candidates[0].queryid, 1);
}

#[test]
fn candidates_rank_by_total_time_descending() {
    let catalog = IndexCatalog::new();
    let stats = vec![
        stat(7, "SELECT * FROM a WHERE x = 1", 100_000),
        stat(8, "SELECT * FROM b WHERE y = 1", 900_000),
    ];
    let results = analyze_statements(&stats, &catalog, &WorkloadOptions::default());
    assert_eq!(results.query_index_candidates.len(), 2);
    assert_eq!(results.query_index_candidates[0].queryid, 8);
    assert_eq!(results.query_index_candidates[1].queryid, 7);
}

#[test]
fn unresolved_schema_still_emits_with_ambiguity_noted() {
    let catalog = IndexCatalog::new();
    let usage = QueryColumnUsage {
        tables: vec![TableRef {
            schema: None,
            name: "orders".to_string(),
        }],
        usage_by_table: vec![TableUsageEntry {
            table: "orders".to_string(),
            usage: TableColumnUsage {
                filters: vec!["customer_id".to_string()],
                joins: vec![],
                orders: vec![],
            },
        }],
    };
    let one = stat(1, "SELECT * FROM orders", 1_000_000);
    let candidates = build_candidates_for_usage(&one, &usage, &catalog);
    assert_eq!(candidates.len(), 1);
    assert_eq!(candidates[0].schema, "unknown");
    assert!(candidates[0].reason.contains("schema ambiguous"));
}

#[test]
fn lone_owning_schema_resolves_a_bare_table() {
    let mut catalog = IndexCatalog::new();
    catalog.add_index("sales", "orders", vec!["id".to_string()]);
    let table = TableRef {
        schema: None,
        name: "orders".to_string(),
    };
    let resolved = resolve_table_schema(&table, &catalog);
    assert_eq!(resolved.schema, "sales");
    assert_eq!(resolved.full_name, "sales.orders");
    assert!(!resolved.ambiguous_schema);
}

#[test]
fn several_owning_schemas_fall_to_the_default_one() {
    let mut catalog = IndexCatalog::new();
    catalog.add_index("sales", "orders", vec!["id".to_string()]);
    catalog.add_index("public", "orders", vec!["id".to_string()]);
    let table = TableRef {
        schema: None,
        name: "orders".to_string(),
    };
    let resolved = resolve_table_schema(&table, &catalog);
    assert_eq!(resolved.schema, "public");
    assert_eq!(resolved.full_name, "public.orders");
    assert!(resolved.ambiguous_schema);
}

#[test]
fn reason_names_the_contributing_categories() {
    let usage = TableColumnUsage {
        filters: vec!["customer_id".to_string()],
        joins: vec![],
        orders: vec!["created_at".to_string()],
    };
    let reason = format_reason(&usage, false);
    assert_eq!(
        reason,
        "heuristic from slow query: WHERE customer_id; ORDER BY created_at"
    );
}

#[test]
fn normalization_collapses_whitespace() {
    assert_eq!(normalize_query("  SELECT\t*\n FROM   t  "), "SELECT * FROM t");
}

#[test]
fn truncation_marks_the_cut_with_an_ellipsis() {
    assert_eq!(truncate_query("abcdef", 4), "abc\u{2026}");
    assert_eq!(truncate_query("abcd", 4), "abcd");
}

#[test]
fn full_query_text_is_kept_when_asked() {
    let opts = WorkloadOptions {
        limit: 20,
        min_calls: 10,
        max_query_len: 5,
        include_full_query: true,
    };
    assert_eq!(format_query_text("SELECT   1", &opts), "SELECT 1");
    let cut = WorkloadOptions {
        include_full_query: false,
        ..opts
    };
    assert_eq!(format_query_text("SELECT   1", &cut), "SELE\u{2026}");
}

#[test]
fn slow_query_groups_rank_per_metric() {
    let mut fast = stat(1, "SELECT 1", 100_000);
    fast.temp_blks_written = 50;
    let mut slow = stat(2, "SELECT 2", 900_000);
    slow.temp_blks_written = 5;
    let groups = build_slow_query_groups(&vec![fast, slow], &WorkloadOptions::default());
    assert_eq!(groups.len(), 4);
    assert_eq!(groups[0].kind, SlowQueryKind::TotalTime);
    assert_eq!(groups[0].queries[0].queryid, 2);
    assert_eq!(groups[3].kind, SlowQueryKind::TempBlksWritten);
    assert_eq!(groups[3].queries[0].queryid, 1);
}

#[test]
fn listing_ties_fall_to_the_smaller_statement_id() {
    let a = stat(9, "SELECT 9", 700_000);
    let b = stat(3, "SELECT 3", 700_000);
    let groups = build_slow_query_groups(&vec![a, b], &WorkloadOptions::default());
    assert_eq!(groups[0].queries[0].queryid, 3);
    assert_eq!(groups[0].queries[1].queryid, 9);
}

#[test]
fn listings_cut_to_the_limit() {
    let stats = vec![
        stat(1, "SELECT 1", 300_000),
        stat(2, "SELECT 2", 200_000),
        stat(3, "SELECT 3", 100_000),
    ];
    let opts = WorkloadOptions {
        limit: 2,
        ..WorkloadOptions::default()
    };
    let groups = build_slow_query_groups(&stats, &opts);
    assert_eq!(groups[0].queries.len(), 2);
    assert_eq!(groups[0].queries[0].queryid, 1);
    assert_eq!(groups[0].queries[1].queryid, 2);
}
