//! Index-health findings over the per-index statistics of one database:
//! indexes that were never scanned, indexes whose scans touch a large
//! fraction of their table, and indexes whose scans keep fetching heap
//! pages.
//!
//! Ratio thresholds are decided by exact integer cross-multiplication, and
//! the low-selectivity ranking key is the scanned fraction of the table in
//! thousandths, rounded down.

use vstd::prelude::*;
use crate::workload::{insert_by, lemma_insert_by_at, sort_by_spec, take_at_most};

verus! {

/// How many findings of each kind are kept.
pub const MAX_INDEX_RESULTS_PER_KIND: usize = 8;

/// What is wrong with an index.
#[derive(Debug, Clone, Copy, PartialEq, Eq, Structural)]
pub enum IndexIssueKind {
    Unused,
    LowSelectivity,
    FailedIndexOnly,
}

/// One index's statistics, as fetched from the database.
pub struct IndexStatRow {
    pub schema: String,
    pub table_name: String,
    pub index_name: String,
    pub index_size_bytes: i64,
    pub index_size_pretty: String,
    pub idx_scan: i64,
    pub idx_tup_read: i64,
    pub idx_tup_fetch: i64,
    pub table_live_tup: Option<i64>,
    pub is_unique: bool,
    pub enforces_constraint: bool,
    pub is_expression: bool,
    pub is_partial: bool,
}

/// The mathematical value of one index's statistics.
#[verifier::ext_equal]
pub struct IndexRowV {
    pub schema: Seq<char>,
    pub table_name: Seq<char>,
    pub index_name: Seq<char>,
    pub index_size_bytes: int,
    pub index_size_pretty: Seq<char>,
    pub idx_scan: int,
    pub idx_tup_read: int,
    pub idx_tup_fetch: int,
    pub table_live_tup: Option<int>,
    pub is_unique: bool,
    pub enforces_constraint: bool,
    pub is_expression: bool,
    pub is_partial: bool,
}

impl View for IndexStatRow {
    type V = IndexRowV;

    open spec fn view(&self) -> IndexRowV {
        IndexRowV {
            schema: self.schema@,
            table_name: self.table_name@,
            index_name: self.index_name@,
            index_size_bytes: self.index_size_bytes as int,
            index_size_pretty: self.index_size_pretty@,
            idx_scan: self.idx_scan as int,
            idx_tup_read: self.idx_tup_read as int,
            idx_tup_fetch: self.idx_tup_fetch as int,
            table_live_tup: match self.table_live_tup {
                Some(v) => Some(v as int),
                None => None,
            },
            is_unique: self.is_unique,
            enforces_constraint: self.enforces_constraint,
            is_expression: self.is_expression,
            is_partial: self.is_partial,
        }
    }
}

/// The views of a sequence of index statistics.
pub open spec fn rows_view(rs: Seq<IndexStatRow>) -> Seq<IndexRowV> {
    rs.map_values(|r: IndexStatRow| r@)
}

/// One index-health finding.
pub struct IndexUsageInfo {
    pub issue: IndexIssueKind,
    pub schema: String,
    pub table_name: String,
    pub index_name: String,
    pub index_size_bytes: i64,
    pub index_size_pretty: String,
    pub scans: i64,
    pub tuples_read: i64,
    pub tuples_fetched: i64,
    pub table_live_tup: Option<i64>,
    pub is_unique: bool,
    pub enforces_constraint: bool,
    pub is_expression: bool,
    pub is_partial: bool,
}

/// The mathematical value of one finding.
#[verifier::ext_equal]
pub struct IndexInfoV {
    pub issue: IndexIssueKind,
    pub schema: Seq<char>,
    pub table_name: Seq<char>,
    pub index_name: Seq<char>,
    pub index_size_bytes: int,
    pub index_size_pretty: Seq<char>,
    pub scans: int,
    pub tuples_read: int,
    pub tuples_fetched: int,
    pub table_live_tup: Option<int>,
    pub is_unique: bool,
    pub enforces_constraint: bool,
    pub is_expression: bool,
    pub is_partial: bool,
}

impl View for IndexUsageInfo {
    type V = IndexInfoV;

    open spec fn view(&self) -> IndexInfoV {
        IndexInfoV {
            issue: self.issue,
            schema: self.schema@,
            table_name: self.table_name@,
            index_name: self.index_name@,
            index_size_bytes: self.index_size_bytes as int,
            index_size_pretty: self.index_size_pretty@,
            scans: self.scans as int,
            tuples_read: self.tuples_read as int,
            tuples_fetched: self.tuples_fetched as int,
            table_live_tup: match self.table_live_tup {
                Some(v) => Some(v as int),
                None => None,
            },
            is_unique: self.is_unique,
            enforces_constraint: self.enforces_constraint,
            is_expression: self.is_expression,
            is_partial: self.is_partial,
        }
    }
}

/// The views of a sequence of findings.
pub open spec fn index_infos_view(is: Seq<IndexUsageInfo>) -> Seq<IndexInfoV> {
    is.map_values(|i: IndexUsageInfo| i@)
}

/// The live-tuple count of the owning table, zero when unknown.
pub open spec fn live_tuples_of(r: IndexRowV) -> int {
    match r.table_live_tup {
        Some(v) => v,
        None => 0,
    }
}

/// An index that was never scanned, is at least five megabytes, and neither
/// enforces anything nor is special in shape.
pub open spec fn unused_pred(r: IndexRowV) -> bool {
    r.idx_scan == 0 && r.index_size_bytes >= 5 * 1024 * 1024 && !r.is_unique
        && !r.enforces_constraint && !r.is_expression && !r.is_partial
}

/// An often-scanned index on a sizable table whose average scan reads at
/// least half the table: tuples read per scan over live tuples is at least
/// one half, decided by cross-multiplication.
pub open spec fn low_selectivity_pred(r: IndexRowV) -> bool {
    r.idx_scan >= 50 && live_tuples_of(r) >= 10000 && 2 * r.idx_tup_read >= r.idx_scan
        * live_tuples_of(r)
}

/// An often-scanned index that reads many tuples but still fetches heap
/// pages for at least nine of every ten of them.
pub open spec fn failed_index_only_pred(r: IndexRowV) -> bool {
    r.idx_tup_read >= 10000 && 10 * r.idx_tup_fetch >= 9 * r.idx_tup_read && r.idx_scan >= 50
}

/// The finding one row yields under one issue kind.
pub open spec fn info_of_row(r: IndexRowV, issue: IndexIssueKind) -> IndexInfoV {
    IndexInfoV {
        issue,
        schema: r.schema,
        table_name: r.table_name,
        index_name: r.index_name,
        index_size_bytes: r.index_size_bytes,
        index_size_pretty: r.index_size_pretty,
        scans: r.idx_scan,
        tuples_read: r.idx_tup_read,
        tuples_fetched: r.idx_tup_fetch,
        table_live_tup: r.table_live_tup,
        is_unique: r.is_unique,
        enforces_constraint: r.enforces_constraint,
        is_expression: r.is_expression,
        is_partial: r.is_partial,
    }
}

/// The rows passing `pred`, in order, each turned into a finding.
pub open spec fn filter_rows(
    acc: Seq<IndexInfoV>,
    rows: Seq<IndexRowV>,
    pred: spec_fn(IndexRowV) -> bool,
    issue: IndexIssueKind,
) -> Seq<IndexInfoV>
    decreases rows.len(),
{
    if rows.len() == 0 {
        acc
    } else {
        let acc1 = if pred(rows[0]) {
            acc.push(info_of_row(rows[0], issue))
        } else {
            acc
        };
        filter_rows(acc1, rows.drop_first(), pred, issue)
    }
}

/// The scanned fraction of the table in thousandths, rounded down: tuples
/// read per scan over live tuples, zero when a count is missing or
/// negative.
pub open spec fn selectivity_per_mille(i: IndexInfoV) -> int {
    let live = match i.table_live_tup {
        Some(v) => v,
        None => 0,
    };
    if i.scans <= 0 || live <= 0 || i.tuples_read < 0 {
        0
    } else {
        1000 * i.tuples_read / (i.scans * live)
    }
}

/// How findings of one kind are ranked: unused indexes by size, the
/// low-selectivity ones by scanned fraction, the failed index-only ones by
/// heap-fetch share (compared by cross-multiplication), each descending.
pub open spec fn finding_le(kind: IndexIssueKind, a: IndexInfoV, b: IndexInfoV) -> bool {
    match kind {
        IndexIssueKind::Unused => a.index_size_bytes >= b.index_size_bytes,
        IndexIssueKind::LowSelectivity => selectivity_per_mille(a) >= selectivity_per_mille(b),
        IndexIssueKind::FailedIndexOnly => a.tuples_fetched * b.tuples_read >= b.tuples_fetched
            * a.tuples_read,
    }
}

/// The ranking of one kind as an insertion ordering.
pub open spec fn finding_le_fn(kind: IndexIssueKind) -> spec_fn(IndexInfoV, IndexInfoV) -> bool {
    |a: IndexInfoV, b: IndexInfoV| finding_le(kind, a, b)
}

/// What each detector yields: the matching rows' findings, ranked, cut to
/// the per-kind bound.
pub open spec fn findings_spec(
    rows: Seq<IndexRowV>,
    pred: spec_fn(IndexRowV) -> bool,
    issue: IndexIssueKind,
) -> Seq<IndexInfoV> {
    take_at_most(
        sort_by_spec(filter_rows(Seq::empty(), rows, pred, issue), finding_le_fn(issue)),
        MAX_INDEX_RESULTS_PER_KIND as int,
    )
}

/// The product of two values in the signed 64-bit range fits the signed
/// 128-bit range.
proof fn lemma_i64_mul_fits(a: int, b: int)
    requires
        -0x8000_0000_0000_0000 <= a <= 0x7fff_ffff_ffff_ffff,
        -0x8000_0000_0000_0000 <= b <= 0x7fff_ffff_ffff_ffff,
    ensures
        -0x8000_0000_0000_0000_0000_0000_0000_0000 <= a * b
            <= 0x7fff_ffff_ffff_ffff_ffff_ffff_ffff_ffff,
{
    assert(-0x4000_0000_0000_0000_0000_0000_0000_0000 <= a * b
        <= 0x4000_0000_0000_0000_0000_0000_0000_0000) by (nonlinear_arith)
        requires
            -0x8000_0000_0000_0000 <= a <= 0x7fff_ffff_ffff_ffff,
            -0x8000_0000_0000_0000 <= b <= 0x7fff_ffff_ffff_ffff,
    ;
}

/// Builds the finding for one row.
fn make_info(row: &IndexStatRow, issue: IndexIssueKind) -> (r: IndexUsageInfo)
    ensures
        r@ == info_of_row(row@, issue),
{
    IndexUsageInfo {
        issue,
        schema: row.schema.clone(),
        table_name: row.table_name.clone(),
        index_name: row.index_name.clone(),
        index_size_bytes: row.index_size_bytes,
        index_size_pretty: row.index_size_pretty.clone(),
        scans: row.idx_scan,
        tuples_read: row.idx_tup_read,
        tuples_fetched: row.idx_tup_fetch,
        table_live_tup: match row.table_live_tup {
            Some(v) => Some(v),
            None => None,
        },
        is_unique: row.is_unique,
        enforces_constraint: row.enforces_constraint,
        is_expression: row.is_expression,
        is_partial: row.is_partial,
    }
}

/// The ranking key of a low-selectivity finding.
fn selectivity_per_mille_exec(info: &IndexUsageInfo) -> (r: i128)
    ensures
        r as int == selectivity_per_mille(info@),
{
    let live: i64 = match info.table_live_tup {
        Some(v) => v,
        None => 0,
    };
    if info.scans <= 0 || live <= 0 || info.tuples_read < 0 {
        0
    } else {
        proof {
            lemma_i64_mul_fits(info.scans as int, live as int);
            assert((info.scans as int) * (live as int) > 0) by (nonlinear_arith)
                requires
                    info.scans as int > 0,
                    live as int > 0,
            ;
        }
        1000 * (info.tuples_read as i128) / ((info.scans as i128) * (live as i128))
    }
}

/// Whether `a` precedes or equals `b` under the ranking of `kind`.
fn finding_le_exec(kind: IndexIssueKind, a: &IndexUsageInfo, b: &IndexUsageInfo) -> (r: bool)
    ensures
        r == finding_le(kind, a@, b@),
{
    match kind {
        IndexIssueKind::Unused => a.index_size_bytes >= b.index_size_bytes,
        IndexIssueKind::LowSelectivity => {
            let ka = selectivity_per_mille_exec(a);
            let kb = selectivity_per_mille_exec(b);
            ka >= kb
        },
        IndexIssueKind::FailedIndexOnly => {
            proof {
                lemma_i64_mul_fits(a.tuples_fetched as int, b.tuples_read as int);
                lemma_i64_mul_fits(b.tuples_fetched as int, a.tuples_read as int);
            }
            (a.tuples_fetched as i128) * (b.tuples_read as i128) >= (b.tuples_fetched as i128) * (
            a.tuples_read as i128)
        },
    }
}

/// Inserts one finding at its rank.
fn insert_finding(sorted: &mut Vec<IndexUsageInfo>, kind: IndexIssueKind, x: IndexUsageInfo)
    ensures
        index_infos_view(final(sorted)@) == insert_by(
            index_infos_view(old(sorted)@),
            x@,
            finding_le_fn(kind),
        ),
{
    let ghost before = index_infos_view(sorted@);
    let mut i: usize = 0;
    while i < sorted.len()
        invariant
            i <= sorted.len(),
            *sorted == *old(sorted),
            before == index_infos_view(sorted@),
            forall|j: int| 0 <= j < i ==> finding_le(kind, index_infos_view(sorted@)[j], x@),
        decreases sorted.len() - i,
    {
        proof {
            assert(index_infos_view(sorted@)[i as int] == sorted@[i as int]@);
        }
        if !finding_le_exec(kind, &sorted[i], &x) {
            sorted.insert(i, x);
            proof {
                lemma_insert_by_at(before, x@, finding_le_fn(kind), i as int);
                assert(index_infos_view(sorted@) =~= before.insert(i as int, x@));
            }
            return ;
        }
        i += 1;
    }
    let ghost n = sorted@.len() as int;
    sorted.push(x);
    proof {
        lemma_insert_by_at(before, x@, finding_le_fn(kind), n);
        assert(index_infos_view(sorted@) =~= before.insert(n, x@));
    }
}

/// Ranks the findings of one kind and keeps the top entries.
fn rank_findings(findings: Vec<IndexUsageInfo>, kind: IndexIssueKind) -> (r: Vec<IndexUsageInfo>)
    ensures
        index_infos_view(r@) == take_at_most(
            sort_by_spec(index_infos_view(findings@), finding_le_fn(kind)),
            MAX_INDEX_RESULTS_PER_KIND as int,
        ),
{
    let ghost all = index_infos_view(findings@);
    let mut rest = findings;
    let mut sorted: Vec<IndexUsageInfo> = Vec::new();
    proof {
        assert(index_infos_view(sorted@) =~= Seq::<IndexInfoV>::empty());
        assert(all.take(0) =~= Seq::<IndexInfoV>::empty());
        assert(all.skip(0) =~= all);
    }
    let total = rest.len();
    let mut taken: usize = 0;
    while rest.len() > 0
        invariant
            taken + rest@.len() == total,
            all.len() == total as int,
            index_infos_view(rest@) == all.skip(taken as int),
            index_infos_view(sorted@) == sort_by_spec(all.take(taken as int), finding_le_fn(kind)),
        decreases rest.len(),
    {
        proof {
            assert(index_infos_view(rest@)[0] == rest@[0]@);
            assert(all.skip(taken as int)[0] == all[taken as int]);
            assert(all.skip(taken as int).drop_first() =~= all.skip(taken as int + 1));
            assert(all.take(taken as int + 1).drop_last() =~= all.take(taken as int));
            assert(all.take(taken as int + 1).last() == all[taken as int]);
            assert(index_infos_view(rest@.drop_first()) =~= index_infos_view(rest@).drop_first());
        }
        let x = rest.remove(0);
        insert_finding(&mut sorted, kind, x);
        taken += 1;
    }
    proof {
        assert(all.take(total as int) =~= all);
    }
    let ghost ranked = index_infos_view(sorted@);
    sorted.truncate(MAX_INDEX_RESULTS_PER_KIND);
    proof {
        assert(index_infos_view(sorted@) =~= take_at_most(ranked,
            MAX_INDEX_RESULTS_PER_KIND as int));
    }
    sorted
}

/// Finds the sizable indexes that were never scanned, largest first.
pub fn identify_unused_indexes(rows: &Vec<IndexStatRow>) -> (r: Vec<IndexUsageInfo>)
    ensures
        index_infos_view(r@) == findings_spec(rows_view(rows@), |v: IndexRowV| unused_pred(v),
            IndexIssueKind::Unused),
{
    let ghost rv = rows_view(rows@);
    let mut findings: Vec<IndexUsageInfo> = Vec::new();
    proof {
        assert(rv.skip(0) =~= rv);
        assert(index_infos_view(findings@) =~= Seq::<IndexInfoV>::empty());
    }
    let mut i: usize = 0;
    while i < rows.len()
        invariant
            i <= rows.len(),
            rv == rows_view(rows@),
            filter_rows(index_infos_view(findings@), rv.skip(i as int), (|v: IndexRowV|
                unused_pred(v)), IndexIssueKind::Unused) == filter_rows(Seq::empty(), rv,
                (|v: IndexRowV| unused_pred(v)), IndexIssueKind::Unused),
        decreases rows.len() - i,
    {
        proof {
            assert(rv.skip(i as int)[0] == rv[i as int]);
            assert(rv.skip(i as int).drop_first() =~= rv.skip(i as int + 1));
            assert(rv[i as int] == rows@[i as int]@);
        }
        let ghost acc0 = index_infos_view(findings@);
        let row = &rows[i];
        if row.idx_scan == 0 && row.index_size_bytes >= 5 * 1024 * 1024 && !row.is_unique
            && !row.enforces_constraint && !row.is_expression && !row.is_partial {
            findings.push(make_info(row, IndexIssueKind::Unused));
            proof {
                assert(index_infos_view(findings@) =~= acc0.push(findings@.last()@));
            }
        }
        i += 1;
    }
    proof {
        assert(rv.skip(rv.len() as int) =~= Seq::<IndexRowV>::empty());
    }
    rank_findings(findings, IndexIssueKind::Unused)
}

/// Finds the often-scanned indexes whose average scan reads at least half
/// of a sizable table, worst fraction first.
pub fn identify_low_selectivity_indexes(rows: &Vec<IndexStatRow>) -> (r: Vec<IndexUsageInfo>)
    ensures
        index_infos_view(r@) == findings_spec(rows_view(rows@), |v: IndexRowV|
            low_selectivity_pred(v), IndexIssueKind::LowSelectivity),
{
    let ghost rv = rows_view(rows@);
    let mut findings: Vec<IndexUsageInfo> = Vec::new();
    proof {
        assert(rv.skip(0) =~= rv);
        assert(index_infos_view(findings@) =~= Seq::<IndexInfoV>::empty());
    }
    let mut i: usize = 0;
    while i < rows.len()
        invariant
            i <= rows.len(),
            rv == rows_view(rows@),
            filter_rows(index_infos_view(findings@), rv.skip(i as int), (|v: IndexRowV|
                low_selectivity_pred(v)), IndexIssueKind::LowSelectivity) == filter_rows(Seq::empty(), rv,
                (|v: IndexRowV| low_selectivity_pred(v)), IndexIssueKind::LowSelectivity),
        decreases rows.len() - i,
    {
        proof {
            assert(rv.skip(i as int)[0] == rv[i as int]);
            assert(rv.skip(i as int).drop_first() =~= rv.skip(i as int + 1));
            assert(rv[i as int] == rows@[i as int]@);
        }
        let ghost acc0 = index_infos_view(findings@);
        let row = &rows[i];
        let live: i64 = match row.table_live_tup {
            Some(v) => v,
            None => 0,
        };
        proof {
            lemma_i64_mul_fits(row.idx_scan as int, live as int);
        }
        if row.idx_scan >= 50 && live >= 10000 && 2 * (row.idx_tup_read as i128) >= (
        row.idx_scan as i128) * (live as i128) {
            findings.push(make_info(row, IndexIssueKind::LowSelectivity));
            proof {
                assert(index_infos_view(findings@) =~= acc0.push(findings@.last()@));
            }
        }
        i += 1;
    }
    proof {
        assert(rv.skip(rv.len() as int) =~= Seq::<IndexRowV>::empty());
    }
    rank_findings(findings, IndexIssueKind::LowSelectivity)
}

/// Finds the often-scanned indexes that read many tuples yet fetch heap
/// pages for at least nine of every ten, worst share first.
pub fn identify_failed_index_only_indexes(rows: &Vec<IndexStatRow>) -> (r: Vec<IndexUsageInfo>)
    ensures
        index_infos_view(r@) == findings_spec(rows_view(rows@), |v: IndexRowV|
            failed_index_only_pred(v), IndexIssueKind::FailedIndexOnly),
{
    let ghost rv = rows_view(rows@);
    let mut findings: Vec<IndexUsageInfo> = Vec::new();
    proof {
        assert(rv.skip(0) =~= rv);
        assert(index_infos_view(findings@) =~= Seq::<IndexInfoV>::empty());
    }
    let mut i: usize = 0;
    while i < rows.len()
        invariant
            i <= rows.len(),
            rv == rows_view(rows@),
            filter_rows(index_infos_view(findings@), rv.skip(i as int), (|v: IndexRowV|
                failed_index_only_pred(v)), IndexIssueKind::FailedIndexOnly) == filter_rows(Seq::empty(), rv,
                (|v: IndexRowV| failed_index_only_pred(v)), IndexIssueKind::FailedIndexOnly),
        decreases rows.len() - i,
    {
        proof {
            assert(rv.skip(i as int)[0] == rv[i as int]);
            assert(rv.skip(i as int).drop_first() =~= rv.skip(i as int + 1));
            assert(rv[i as int] == rows@[i as int]@);
        }
        let ghost acc0 = index_infos_view(findings@);
        let row = &rows[i];
        if row.idx_tup_read >= 10000 && 10 * (row.idx_tup_fetch as i128) >= 9 * (
        row.idx_tup_read as i128) && row.idx_scan >= 50 {
            findings.push(make_info(row, IndexIssueKind::FailedIndexOnly));
            proof {
                assert(index_infos_view(findings@) =~= acc0.push(findings@.last()@));
            }
        }
        i += 1;
    }
    proof {
        assert(rv.skip(rv.len() as int) =~= Seq::<IndexRowV>::empty());
    }
    rank_findings(findings, IndexIssueKind::FailedIndexOnly)
}

} // verus!
