//! Fixed label texts and parameter lookups.

use postgreat::indexes::IndexIssueKind;
use postgreat::models::{get_param, param_value_string, ConfigCategory, PgConfigParam,
    SuggestionLevel};
use postgreat::reporter::{ReportFormat, Reporter};

#[test]
fn suggestion_levels_print_their_names() {
    assert_eq!(SuggestionLevel::Critical.as_str(), "CRITICAL");
    assert_eq!(SuggestionLevel::Important.as_str(), "IMPORTANT");
    assert_eq!(SuggestionLevel::Recommended.as_str(), "RECOMMENDED");
    assert_eq!(SuggestionLevel::Info.as_str(), "INFO");
}

#[test]
fn categories_print_their_headings() {
    assert_eq!(ConfigCategory::Memory.as_str(), "Memory Configuration");
    assert_eq!(ConfigCategory::Wal.as_str(), "WAL and Checkpoint Management");
    assert_eq!(ConfigCategory::TableIndex.as_str(), "Table and Index Health");
}

#[test]
fn reporter_prints_fixed_labels() {
    let reporter = Reporter::new(ReportFormat::Text);
    assert_eq!(
        reporter.format_level_badge(&SuggestionLevel::Critical),
        "![CRITICAL](https://img.shields.io/badge/CRITICAL-red)"
    );
    assert_eq!(reporter.format_level_text(&SuggestionLevel::Recommended), "REC");
    assert_eq!(
        reporter.format_issue_name(&IndexIssueKind::FailedIndexOnly),
        "Failed Index-Only"
    );
}

#[test]
fn parameters_are_found_by_exact_name() {
    let params = vec![
        PgConfigParam {
            name: "work_mem".to_string(),
            current_value: "4096".to_string(),
            default_value: Some("4096".to_string()),
            unit: Some("kB".to_string()),
            context: "user".to_string(),
        },
        PgConfigParam {
            name: "shared_buffers".to_string(),
            current_value: "16384".to_string(),
            default_value: None,
            unit: Some("8kB".to_string()),
            context: "postmaster".to_string(),
        },
    ];
    assert_eq!(
        get_param(&params, "shared_buffers").map(|p| p.current_value.as_str()),
        Some("16384")
    );
    assert!(get_param(&params, "WORK_MEM").is_none());
    assert_eq!(param_value_string(&params, "work_mem"), "4096");
    assert_eq!(param_value_string(&params, "absent"), "unknown");
}
