//! Index-health detectors.

use postgreat::indexes::{
    identify_failed_index_only_indexes, identify_low_selectivity_indexes,
    identify_unused_indexes, IndexIssueKind, IndexStatRow,
};

fn row(name: &str) -> IndexStatRow {
    IndexStatRow {
        schema: "public".to_string(),
        table_name: "sessions".to_string(),
        index_name: name.to_string(),
        index_size_bytes: 50 * 1024 * 1024,
        index_size_pretty: "50 MB".to_string(),
        idx_scan: 100,
        idx_tup_read: 45_000_000,
        idx_tup_fetch: 44_000_000,
        table_live_tup: Some(900_000),
        is_unique: false,
        enforces_constraint: false,
        is_expression: false,
        is_partial: false,
    }
}

#[test]
fn detects_low_selectivity_index_when_half_table_scanned() {
    let rows = vec![row("sessions_user_id_idx")];
    let findings = identify_low_selectivity_indexes(&rows);
    assert_eq!(findings.len(), 1);
    assert!(matches!(findings[0].issue, IndexIssueKind::LowSelectivity));
}

#[test]
fn below_half_table_scanned_is_not_low_selectivity() {
    let mut r = row("sessions_user_id_idx");
    r.idx_tup_read = 44_000_000;
    r.table_live_tup = Some(900_000);
    // 44 million reads over 100 scans is 440 thousand per scan, under half
    // of 900 thousand live tuples.
    let findings = identify_low_selectivity_indexes(&vec![r]);
    assert!(findings.is_empty());
}

#[test]
fn detects_unused_indexes_largest_first() {
    let mut small = row("small_idx");
    small.idx_scan = 0;
    small.index_size_bytes = 6 * 1024 * 1024;
    let mut large = row("large_idx");
    large.idx_scan = 0;
    large.index_size_bytes = 60 * 1024 * 1024;
    let mut constrained = row("pk_idx");
    constrained.idx_scan = 0;
    constrained.enforces_constraint = true;
    let findings = identify_unused_indexes(&vec![small, large, constrained]);
    assert_eq!(findings.len(), 2);
    assert_eq!(findings[0].index_name, "large_idx");
    assert_eq!(findings[1].index_name, "small_idx");
    assert!(matches!(findings[0].issue, IndexIssueKind::Unused));
}

#[test]
fn detects_failed_index_only_scans() {
    let findings = identify_failed_index_only_indexes(&vec![row("sessions_user_id_idx")]);
    assert_eq!(findings.len(), 1);
    assert!(matches!(findings[0].issue, IndexIssueKind::FailedIndexOnly));

    let mut covered = row("sessions_covering_idx");
    covered.idx_tup_fetch = 1_000;
    let none = identify_failed_index_only_indexes(&vec![covered]);
    assert!(none.is_empty());
}
