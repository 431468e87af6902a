//! The report formats and the fixed label texts that reports print.
//! Rendering itself writes to an output stream and lives with the owning
//! program; the texts are pinned here so every format agrees on them.

use vstd::prelude::*;
use crate::indexes::IndexIssueKind;
use crate::models::SuggestionLevel;

verus! {

/// How a report is rendered.
#[derive(Debug, Clone, Copy, PartialEq, Eq, Structural)]
pub enum ReportFormat {
    /// A Markdown document.
    Markdown,
    /// A JSON document.
    Json,
    /// A plain-text summary.
    Text,
}

/// A report writer: remembers the chosen format.
pub struct Reporter {
    pub format: ReportFormat,
}

impl Reporter {
    /// A writer for the chosen format.
    pub fn new(format: ReportFormat) -> (r: Self)
        ensures
            r.format == format,
    {
        Reporter { format }
    }

    /// The Markdown badge of one suggestion level.
    pub fn format_level_badge(&self, level: &SuggestionLevel) -> (r: String)
        ensures
            r@ == match *level {
                SuggestionLevel::Critical => "![CRITICAL](https://img.shields.io/badge/CRITICAL-red)"@,
                SuggestionLevel::Important => "![IMPORTANT](https://img.shields.io/badge/IMPORTANT-orange)"@,
                SuggestionLevel::Recommended => "![RECOMMENDED](https://img.shields.io/badge/RECOMMENDED-yellow)"@,
                SuggestionLevel::Info => "![INFO](https://img.shields.io/badge/INFO-blue)"@,
            },
    {
        let badge = match level {
            SuggestionLevel::Critical => "![CRITICAL](https://img.shields.io/badge/CRITICAL-red)",
            SuggestionLevel::Important => "![IMPORTANT](https://img.shields.io/badge/IMPORTANT-orange)",
            SuggestionLevel::Recommended => "![RECOMMENDED](https://img.shields.io/badge/RECOMMENDED-yellow)",
            SuggestionLevel::Info => "![INFO](https://img.shields.io/badge/INFO-blue)",
        };
        badge.to_owned()
    }

    /// The short label of one suggestion level, as the text format prints
    /// it.
    pub fn format_level_text(&self, level: &SuggestionLevel) -> (r: &'static str)
        ensures
            r@ == match *level {
                SuggestionLevel::Critical => "CRIT"@,
                SuggestionLevel::Important => "IMP"@,
                SuggestionLevel::Recommended => "REC"@,
                SuggestionLevel::Info => "INFO"@,
            },
    {
        match level {
            SuggestionLevel::Critical => "CRIT",
            SuggestionLevel::Important => "IMP",
            SuggestionLevel::Recommended => "REC",
            SuggestionLevel::Info => "INFO",
        }
    }

    /// The heading of one index-issue kind.
    pub fn format_issue_name(&self, issue: &IndexIssueKind) -> (r: &'static str)
        ensures
            r@ == match *issue {
                IndexIssueKind::Unused => "Unused"@,
                IndexIssueKind::LowSelectivity => "Low Selectivity"@,
                IndexIssueKind::FailedIndexOnly => "Failed Index-Only"@,
            },
    {
        match issue {
            IndexIssueKind::Unused => "Unused",
            IndexIssueKind::LowSelectivity => "Low Selectivity",
            IndexIssueKind::FailedIndexOnly => "Failed Index-Only",
        }
    }
}

} // verus!
