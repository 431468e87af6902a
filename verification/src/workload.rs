//! Workload analysis: from captured statements and the existing index
//! catalog to a ranked, deduplicated list of composite index candidates,
//! plus the per-metric listings of the slowest statements.
//!
//! Everything here is a pure transformation over plain values; the owning
//! program fetches the statements and the catalog and hands them in.  Times
//! are carried as integer microseconds.

use vstd::prelude::*;
use vstd::string::{StrSliceExecFns, StringExecFns};
use crate::text::{eq_ci, push_unique_ci, str_eq, str_eq_ci, views_of};
use crate::query_parser::{push_unique, TableColumnUsage};
use crate::query_spec::TableRefV;

verus! {

/// Caller-supplied bounds for workload analysis.
pub struct WorkloadOptions {
    /// How many entries each slow-statement listing keeps; the final
    /// candidate list keeps twice as many before the caller's own cut.
    pub limit: usize,
    /// Statements called fewer times than this are not fetched.
    pub min_calls: i64,
    /// Display length that statement text is shortened to.
    pub max_query_len: usize,
    /// When set, statement text is normalized but never shortened.
    pub include_full_query: bool,
}

impl Default for WorkloadOptions {
    /// The default bounds: twenty entries per listing, at least ten calls,
    /// statement text shortened to two hundred characters.
    fn default() -> (r: Self)
        ensures
            r.limit == 20,
            r.min_calls == 10,
            r.max_query_len == 200,
            !r.include_full_query,
    {
        WorkloadOptions { limit: 20, min_calls: 10, max_query_len: 200, include_full_query: false }
    }
}

/// One captured statement with its aggregated execution statistics.
/// Times are integer microseconds.
pub struct StatementStat {
    pub queryid: i64,
    pub query: String,
    pub calls: i64,
    pub total_time_us: u64,
    pub mean_time_us: u64,
    pub max_time_us: u64,
    pub rows: i64,
    pub shared_blks_read: i64,
    pub shared_blks_hit: i64,
    pub temp_blks_read: i64,
    pub temp_blks_written: i64,
}

/// The mathematical value of one captured statement.
#[verifier::ext_equal]
pub struct StatV {
    pub queryid: int,
    pub query: Seq<char>,
    pub calls: int,
    pub total_time_us: int,
    pub mean_time_us: int,
    pub max_time_us: int,
    pub rows: int,
    pub shared_blks_read: int,
    pub shared_blks_hit: int,
    pub temp_blks_read: int,
    pub temp_blks_written: int,
}

impl View for StatementStat {
    type V = StatV;

    open spec fn view(&self) -> StatV {
        StatV {
            queryid: self.queryid as int,
            query: self.query@,
            calls: self.calls as int,
            total_time_us: self.total_time_us as int,
            mean_time_us: self.mean_time_us as int,
            max_time_us: self.max_time_us as int,
            rows: self.rows as int,
            shared_blks_read: self.shared_blks_read as int,
            shared_blks_hit: self.shared_blks_hit as int,
            temp_blks_read: self.temp_blks_read as int,
            temp_blks_written: self.temp_blks_written as int,
        }
    }
}

impl Clone for StatementStat {
    fn clone(&self) -> (r: Self)
        ensures
            r == *self,
    {
        StatementStat {
            queryid: self.queryid,
            query: self.query.clone(),
            calls: self.calls,
            total_time_us: self.total_time_us,
            mean_time_us: self.mean_time_us,
            max_time_us: self.max_time_us,
            rows: self.rows,
            shared_blks_read: self.shared_blks_read,
            shared_blks_hit: self.shared_blks_hit,
            temp_blks_read: self.temp_blks_read,
            temp_blks_written: self.temp_blks_written,
        }
    }
}

/// The views of a sequence of captured statements.
pub open spec fn stats_view(ss: Seq<StatementStat>) -> Seq<StatV> {
    ss.map_values(|s: StatementStat| s@)
}

/// Whether a character counts as whitespace when statement text is
/// normalized: the ASCII whitespace characters.
pub open spec fn is_space(c: char) -> bool {
    c == ' ' || c == '\t' || c == '\n' || c == '\r' || c == '\u{b}' || c == '\u{c}'
}

/// One step of normalization: a whitespace character closes the current
/// word; any other character is appended, preceded by a single space when a
/// word was closed before it.
pub open spec fn norm_step(acc: (Seq<char>, bool), c: char) -> (Seq<char>, bool) {
    if is_space(c) {
        (acc.0, false)
    } else if acc.1 || acc.0.len() == 0 {
        (acc.0.push(c), true)
    } else {
        (acc.0 + seq![' ', c], true)
    }
}

/// Normalization folded over the first `n` characters.
pub open spec fn norm_prefix(s: Seq<char>, n: int) -> (Seq<char>, bool)
    decreases n,
{
    if n <= 0 {
        (Seq::empty(), true)
    } else {
        norm_step(norm_prefix(s, n - 1), s[n - 1])
    }
}

/// Statement text with every run of whitespace collapsed to one space and
/// leading and trailing whitespace removed.
pub open spec fn normalize_spec(s: Seq<char>) -> Seq<char> {
    norm_prefix(s, s.len() as int).0
}

/// The number of characters text is shortened to before the ellipsis.
pub open spec fn cut_len(max_len: int) -> int {
    if max_len <= 0 {
        0
    } else {
        max_len - 1
    }
}

/// Text shortened for display: unchanged when it fits, else cut one short
/// of the bound with an ellipsis appended.
pub open spec fn truncate_spec(s: Seq<char>, max_len: int) -> Seq<char> {
    if s.len() <= max_len {
        s
    } else {
        s.take(cut_len(max_len)).push('\u{2026}')
    }
}

/// Statement text as a listing shows it: normalized, and shortened unless
/// the full text was asked for.
pub open spec fn format_query_spec(s: Seq<char>, max_len: int, full: bool) -> Seq<char> {
    if full {
        normalize_spec(s)
    } else {
        truncate_spec(normalize_spec(s), max_len)
    }
}

/// Collapses every run of whitespace in a statement's text to one space and
/// trims both ends.
pub fn normalize_query(query: &str) -> (r: String)
    ensures
        r@ == normalize_spec(query@),
{
    let len = query.unicode_len();
    let mut out = String::new();
    let mut in_word = true;
    let mut i: usize = 0;
    while i < len
        invariant
            i <= len,
            len == query@.len(),
            (out@, in_word) == norm_prefix(query@, i as int),
        decreases len - i,
    {
        let c = query.get_char(i);
        if c == ' ' || c == '\t' || c == '\n' || c == '\r' || c == '\u{b}' || c == '\u{c}' {
            in_word = false;
        } else {
            if !in_word && out.unicode_len() > 0 {
                proof {
                    reveal_strlit(" ");
                }
                out.append(" ");
            }
            let piece = query.substring_char(i, i + 1);
            out.append(piece);
            proof {
                assert(out@ =~= norm_prefix(query@, i + 1).0);
            }
            in_word = true;
        }
        i += 1;
    }
    out
}

/// Shortens text to at most `max_len` characters, marking a cut with an
/// ellipsis.
pub fn truncate_query(query: &str, max_len: usize) -> (r: String)
    ensures
        r@ == truncate_spec(query@, max_len as int),
{
    let len = query.unicode_len();
    if len <= max_len {
        return query.to_owned();
    }
    let cut = if max_len == 0 {
        0
    } else {
        max_len - 1
    };
    let head = query.substring_char(0, cut);
    let mut out = head.to_owned();
    proof {
        reveal_strlit("\u{2026}");
    }
    out.append("\u{2026}");
    proof {
        assert(out@ =~= truncate_spec(query@, max_len as int));
    }
    out
}

/// Statement text as a listing shows it.
pub fn format_query_text(query: &str, opts: &WorkloadOptions) -> (r: String)
    ensures
        r@ == format_query_spec(query@, opts.max_query_len as int, opts.include_full_query),
{
    if opts.include_full_query {
        normalize_query(query)
    } else {
        let normalized = normalize_query(query);
        truncate_query(normalized.as_str(), opts.max_query_len)
    }
}

/// A list of names joined by a separator.
pub open spec fn join_with(parts: Seq<Seq<char>>, sep: Seq<char>) -> Seq<char>
    decreases parts.len(),
{
    if parts.len() == 0 {
        Seq::empty()
    } else if parts.len() == 1 {
        parts[0]
    } else {
        parts[0] + sep + join_with(parts.drop_first(), sep)
    }
}

/// Joins a list of names with a separator.
pub fn join_strings(items: &Vec<String>, sep: &str) -> (r: String)
    ensures
        r@ == join_with(views_of(items@), sep@),
{
    let ghost iv = views_of(items@);
    let mut out = String::new();
    if items.len() == 0 {
        proof {
            assert(out@ =~= join_with(iv, sep@));
        }
        return out;
    }
    out.append(items[0].as_str());
    let mut i: usize = 1;
    while i < items.len()
        invariant
            1 <= i <= items.len(),
            items.len() >= 1,
            iv == views_of(items@),
            out@ == join_with(iv.take(i as int), sep@),
        decreases items.len() - i,
    {
        out.append(sep);
        out.append(items[i].as_str());
        proof {
            lemma_join_step(iv, sep@, i as int);
            assert(iv.take(i as int + 1).drop_last() =~= iv.take(i as int));
        }
        i += 1;
    }
    proof {
        assert(iv.take(items@.len() as int) =~= iv);
    }
    out
}

/// Joining one more name appends the separator and the name.
proof fn lemma_join_step(parts: Seq<Seq<char>>, sep: Seq<char>, i: int)
    requires
        1 <= i < parts.len(),
    ensures
        join_with(parts.take(i + 1), sep) == join_with(parts.take(i), sep) + sep + parts[i],
    decreases i,
{
    let a = parts.take(i + 1);
    let b = parts.take(i);
    if i == 1 {
        assert(a.drop_first() =~= seq![parts[1]]);
        assert(a.len() == 2 && a[0] == parts[0]);
        assert(join_with(a, sep) == a[0] + sep + join_with(a.drop_first(), sep));
        assert(join_with(seq![parts[1]], sep) == parts[1]);
        assert(join_with(b, sep) == parts[0]);
    } else {
        lemma_join_step(parts.drop_first(), sep, i - 1);
        assert(a.drop_first() =~= parts.drop_first().take(i));
        assert(b.drop_first() =~= parts.drop_first().take(i - 1));
        assert(join_with(a, sep) == join_with(b, sep) + sep + parts[i]) by {
            assert(parts.drop_first()[i - 1] == parts[i]);
            assert((parts[0] + sep + (join_with(parts.drop_first().take(i - 1), sep) + sep
                + parts[i])) =~= ((parts[0] + sep + join_with(parts.drop_first().take(i - 1), sep))
                + sep + parts[i]));
        }
    }
}

/// Columns of `source` appended to `target` in order, skipping any already
/// present up to ASCII case.
pub open spec fn append_unique_ci(target: Seq<Seq<char>>, source: Seq<Seq<char>>) -> Seq<Seq<char>>
    decreases source.len(),
{
    if source.len() == 0 {
        target
    } else {
        append_unique_ci(push_unique_ci(target, source[0]), source.drop_first())
    }
}

/// Appends each column of `source` unless a case-insensitive equal is
/// already present in `target`.
pub fn append_unique(target: &mut Vec<String>, source: &Vec<String>)
    ensures
        views_of(final(target)@) == append_unique_ci(views_of(old(target)@), views_of(source@)),
{
    let ghost sv = views_of(source@);
    proof {
        assert(sv.skip(0) =~= sv);
    }
    let mut i: usize = 0;
    while i < source.len()
        invariant
            i <= source.len(),
            sv == views_of(source@),
            append_unique_ci(views_of(target@), sv.skip(i as int)) == append_unique_ci(
                views_of(old(target)@),
                sv,
            ),
        decreases source.len() - i,
    {
        proof {
            assert(sv.skip(i as int)[0] == sv[i as int]);
            assert(sv.skip(i as int).drop_first() =~= sv.skip(i as int + 1));
            assert(sv[i as int] == source@[i as int]@);
        }
        push_unique(target, source[i].as_str());
        i += 1;
    }
    proof {
        assert(sv.skip(sv.len() as int) =~= Seq::<Seq<char>>::empty());
    }
}

/// The first value bound to `k` in an association list, if any.
pub open spec fn assoc_first<T>(s: Seq<(Seq<char>, T)>, k: Seq<char>) -> Option<T>
    decreases s.len(),
{
    if s.len() == 0 {
        None
    } else if s[0].0 == k {
        Some(s[0].1)
    } else {
        assoc_first(s.drop_first(), k)
    }
}

/// Applies `f` to the value bound to `k`, binding `f(init)` at the end when
/// `k` is not bound yet.
pub open spec fn upsert_assoc<T>(
    s: Seq<(Seq<char>, T)>,
    k: Seq<char>,
    init: T,
    f: spec_fn(T) -> T,
) -> Seq<(Seq<char>, T)>
    decreases s.len(),
{
    if s.len() == 0 {
        seq![(k, f(init))]
    } else if s[0].0 == k {
        seq![(s[0].0, f(s[0].1))] + s.drop_first()
    } else {
        seq![s[0]] + upsert_assoc(s.drop_first(), k, init, f)
    }
}

/// When `k` is first bound at position `i`, the update happens there in
/// place.
pub proof fn lemma_upsert_assoc_found<T>(
    s: Seq<(Seq<char>, T)>,
    k: Seq<char>,
    init: T,
    f: spec_fn(T) -> T,
    i: int,
)
    requires
        0 <= i < s.len(),
        s[i].0 == k,
        forall|j: int| 0 <= j < i ==> s[j].0 != k,
    ensures
        upsert_assoc(s, k, init, f) =~= s.update(i, (s[i].0, f(s[i].1))),
    decreases s.len(),
{
    if i == 0 {
        assert(upsert_assoc(s, k, init, f) =~= s.update(0, (s[0].0, f(s[0].1))));
    } else {
        lemma_upsert_assoc_found(s.drop_first(), k, init, f, i - 1);
        assert(upsert_assoc(s, k, init, f) =~= s.update(i, (s[i].0, f(s[i].1))));
    }
}

/// When `k` is not bound, the update appends a fresh binding at the end.
pub proof fn lemma_upsert_assoc_missing<T>(
    s: Seq<(Seq<char>, T)>,
    k: Seq<char>,
    init: T,
    f: spec_fn(T) -> T,
)
    requires
        forall|j: int| 0 <= j < s.len() ==> s[j].0 != k,
    ensures
        upsert_assoc(s, k, init, f) =~= s.push((k, f(init))),
    decreases s.len(),
{
    if s.len() == 0 {
    } else {
        lemma_upsert_assoc_missing(s.drop_first(), k, init, f);
        assert(upsert_assoc(s, k, init, f) =~= s.push((k, f(init))));
    }
}

/// When `k` is first bound at position `i`, the lookup yields that value.
pub proof fn lemma_assoc_first_found<T>(s: Seq<(Seq<char>, T)>, k: Seq<char>, i: int)
    requires
        0 <= i < s.len(),
        s[i].0 == k,
        forall|j: int| 0 <= j < i ==> s[j].0 != k,
    ensures
        assoc_first(s, k) == Some(s[i].1),
    decreases s.len(),
{
    if i > 0 {
        lemma_assoc_first_found(s.drop_first(), k, i - 1);
    }
}

/// When `k` is not bound, the lookup yields nothing.
pub proof fn lemma_assoc_first_missing<T>(s: Seq<(Seq<char>, T)>, k: Seq<char>)
    requires
        forall|j: int| 0 <= j < s.len() ==> s[j].0 != k,
    ensures
        assoc_first(s, k) is None,
    decreases s.len(),
{
    if s.len() > 0 {
        lemma_assoc_first_missing(s.drop_first(), k);
    }
}

/// The existing indexes of one table: the table's canonical full name and
/// each index's columns in declared order.
pub struct TableIndexes {
    pub table: String,
    pub indexes: Vec<Vec<String>>,
}

/// The column lists of a sequence of indexes.
pub open spec fn index_lists_view(ix: Seq<Vec<String>>) -> Seq<Seq<Seq<char>>> {
    ix.map_values(|v: Vec<String>| views_of(v@))
}

impl View for TableIndexes {
    type V = (Seq<char>, Seq<Seq<Seq<char>>>);

    open spec fn view(&self) -> (Seq<char>, Seq<Seq<Seq<char>>>) {
        (self.table@, index_lists_view(self.indexes@))
    }
}

/// The schemas that own a table of one bare name.
pub struct TableSchemas {
    pub table: String,
    pub schemas: Vec<String>,
}

impl View for TableSchemas {
    type V = (Seq<char>, Seq<Seq<char>>);

    open spec fn view(&self) -> (Seq<char>, Seq<Seq<char>>) {
        (self.table@, views_of(self.schemas@))
    }
}

/// The mathematical value of the index catalog.
#[verifier::ext_equal]
pub struct CatalogV {
    pub indexes: Seq<(Seq<char>, Seq<Seq<Seq<char>>>)>,
    pub schemas: Seq<(Seq<char>, Seq<Seq<char>>)>,
}

/// The catalog of existing indexes, fetched once per analysis run: existing
/// index column lists keyed by canonical full table name, and the owning
/// schemas keyed by bare table name.
pub struct IndexCatalog {
    pub indexes_by_table: Vec<TableIndexes>,
    pub schemas_by_table: Vec<TableSchemas>,
}

impl View for IndexCatalog {
    type V = CatalogV;

    open spec fn view(&self) -> CatalogV {
        CatalogV {
            indexes: indexes_view(self.indexes_by_table@),
            schemas: schemas_view(self.schemas_by_table@),
        }
    }
}

/// Whether a name is present exactly in a list of names.
pub open spec fn contains_exact(ss: Seq<Seq<char>>, x: Seq<char>) -> bool {
    exists|i: int| 0 <= i < ss.len() && ss[i] == x
}

/// The views of a sequence of per-table index entries.
pub open spec fn indexes_view(es: Seq<TableIndexes>) -> Seq<(Seq<char>, Seq<Seq<Seq<char>>>)> {
    es.map_values(|t: TableIndexes| t@)
}

/// The views of a sequence of per-table schema entries.
pub open spec fn schemas_view(es: Seq<TableSchemas>) -> Seq<(Seq<char>, Seq<Seq<char>>)> {
    es.map_values(|t: TableSchemas| t@)
}

/// The position of the first entry keyed by `key`, if any.
fn find_table_indexes(entries: &Vec<TableIndexes>, key: &str) -> (r: Option<usize>)
    ensures
        match r {
            Some(i) => i < entries@.len() && indexes_view(entries@)[i as int].0
                == key@ && (forall|j: int|
                0 <= j < i ==> indexes_view(entries@)[j].0 != key@),
            None => forall|j: int|
                0 <= j < entries@.len() ==> indexes_view(entries@)[j].0 != key@,
        },
{
    let mut i: usize = 0;
    while i < entries.len()
        invariant
            i <= entries.len(),
            forall|j: int| 0 <= j < i ==> indexes_view(entries@)[j].0 != key@,
        decreases entries.len() - i,
    {
        proof {
            assert(indexes_view(entries@)[i as int] == entries@[i as int]@);
        }
        if str_eq(entries[i].table.as_str(), key) {
            return Some(i);
        }
        i += 1;
    }
    None
}

/// The position of the first entry keyed by `key`, if any.
fn find_table_schemas(entries: &Vec<TableSchemas>, key: &str) -> (r: Option<usize>)
    ensures
        match r {
            Some(i) => i < entries@.len() && schemas_view(entries@)[i as int].0
                == key@ && (forall|j: int|
                0 <= j < i ==> schemas_view(entries@)[j].0 != key@),
            None => forall|j: int|
                0 <= j < entries@.len() ==> schemas_view(entries@)[j].0 != key@,
        },
{
    let mut i: usize = 0;
    while i < entries.len()
        invariant
            i <= entries.len(),
            forall|j: int| 0 <= j < i ==> schemas_view(entries@)[j].0 != key@,
        decreases entries.len() - i,
    {
        proof {
            assert(schemas_view(entries@)[i as int] == entries@[i as int]@);
        }
        if str_eq(entries[i].table.as_str(), key) {
            return Some(i);
        }
        i += 1;
    }
    None
}

/// Whether `x` is present exactly in a list of names.
pub fn contains_str(items: &Vec<String>, x: &str) -> (r: bool)
    ensures
        r == contains_exact(views_of(items@), x@),
{
    let mut i: usize = 0;
    while i < items.len()
        invariant
            i <= items.len(),
            forall|j: int| 0 <= j < i ==> views_of(items@)[j] != x@,
        decreases items.len() - i,
    {
        proof {
            assert(views_of(items@)[i as int] == items@[i as int]@);
        }
        if str_eq(items[i].as_str(), x) {
            return true;
        }
        i += 1;
    }
    false
}

impl IndexCatalog {
    /// A catalog with no tables at all.
    pub fn new() -> (r: Self)
        ensures
            r@.indexes =~= Seq::<(Seq<char>, Seq<Seq<Seq<char>>>)>::empty(),
            r@.schemas =~= Seq::<(Seq<char>, Seq<Seq<char>>)>::empty(),
    {
        IndexCatalog { indexes_by_table: Vec::new(), schemas_by_table: Vec::new() }
    }

    /// Records one existing index: its column list is appended under the
    /// table's full name, and the schema is recorded as owning the bare
    /// table name unless already present.
    pub fn add_index(&mut self, schema: &str, table: &str, columns: Vec<String>)
        ensures
            final(self)@.indexes == upsert_assoc(
                old(self)@.indexes,
                schema@ + seq!['.'] + table@,
                Seq::<Seq<Seq<char>>>::empty(),
                (|ix: Seq<Seq<Seq<char>>>| ix.push(views_of(columns@))),
            ),
            final(self)@.schemas == upsert_assoc(
                old(self)@.schemas,
                table@,
                Seq::<Seq<char>>::empty(),
                (|ss: Seq<Seq<char>>| if contains_exact(ss, schema@) {
                    ss
                } else {
                    ss.push(schema@)
                }),
            ),
    {
        proof {
            reveal_strlit(".");
            assert("."@ =~= seq!['.']);
        }
        let mut full = schema.to_owned();
        full.append(".");
        full.append(table);
        let ghost iv = self@.indexes;
        let ghost fident = (|ix: Seq<Seq<Seq<char>>>| ix.push(views_of(columns@)));
        let pos = find_table_indexes(&self.indexes_by_table, full.as_str());
        if let Some(i) = pos {
            let ghost cols = views_of(columns@);
            let mut entry = self.indexes_by_table.remove(i);
            entry.indexes.push(columns);
            self.indexes_by_table.insert(i, entry);
            proof {
                lemma_upsert_assoc_found(iv, full@, Seq::<Seq<Seq<char>>>::empty(), fident,
                    i as int);
                assert(index_lists_view(entry.indexes@) =~= iv[i as int].1.push(cols));
                assert(self@.indexes =~~= upsert_assoc(iv, full@,
                    Seq::<Seq<Seq<char>>>::empty(), fident));
            }
        } else {
            let ghost cols = views_of(columns@);
            let mut fresh: Vec<Vec<String>> = Vec::new();
            fresh.push(columns);
            self.indexes_by_table.push(TableIndexes { table: full, indexes: fresh });
            proof {
                lemma_upsert_assoc_missing(iv, schema@ + seq!['.'] + table@,
                    Seq::<Seq<Seq<char>>>::empty(), fident);
                assert(index_lists_view(fresh@) =~= Seq::<Seq<Seq<char>>>::empty().push(cols));
                assert(self@.indexes =~~= upsert_assoc(iv, schema@ + seq!['.'] + table@,
                    Seq::<Seq<Seq<char>>>::empty(), fident));
            }
        }
        let ghost sv0 = self@.schemas;
        let ghost fsch = (|ss: Seq<Seq<char>>| if contains_exact(ss, schema@) {
            ss
        } else {
            ss.push(schema@)
        });
        let spos = find_table_schemas(&self.schemas_by_table, table);
        if let Some(k) = spos {
            let mut entry = self.schemas_by_table.remove(k);
            let present = contains_str(&entry.schemas, schema);
            if !present {
                entry.schemas.push(schema.to_owned());
            }
            self.schemas_by_table.insert(k, entry);
            proof {
                lemma_upsert_assoc_found(sv0, table@, Seq::<Seq<char>>::empty(), fsch, k as int);
                assert(self@.schemas =~~= upsert_assoc(sv0, table@, Seq::<Seq<char>>::empty(),
                    fsch));
            }
        } else {
            let mut fresh: Vec<String> = Vec::new();
            fresh.push(schema.to_owned());
            self.schemas_by_table.push(TableSchemas { table: table.to_owned(), schemas: fresh });
            proof {
                lemma_upsert_assoc_missing(sv0, table@, Seq::<Seq<char>>::empty(), fsch);
                assert(!contains_exact(Seq::<Seq<char>>::empty(), schema@));
                assert(views_of(fresh@) =~= Seq::<Seq<char>>::empty().push(schema@));
                assert(self@.schemas =~~= upsert_assoc(sv0, table@, Seq::<Seq<char>>::empty(),
                    fsch));
            }
        }
    }
}

/// Leftmost-prefix coverage: every candidate column equals, up to ASCII
/// case, the index column at the same position, and the index is at least
/// as long.
pub open spec fn prefix_ci(cols: Seq<Seq<char>>, index_cols: Seq<Seq<char>>) -> bool {
    index_cols.len() >= cols.len() && (forall|j: int|
        0 <= j < cols.len() ==> eq_ci(index_cols[j], cols[j]))
}

/// Whether one of the given indexes covers the candidate columns.
pub open spec fn some_index_covers(ixs: Seq<Seq<Seq<char>>>, cols: Seq<Seq<char>>) -> bool {
    exists|i: int| 0 <= i < ixs.len() && prefix_ci(cols, #[trigger] ixs[i])
}

/// Whether some existing index of `table` covers the candidate columns
/// under leftmost-prefix semantics.
pub open spec fn covered_spec(
    indexes: Seq<(Seq<char>, Seq<Seq<Seq<char>>>)>,
    table: Seq<char>,
    cols: Seq<Seq<char>>,
) -> bool {
    match assoc_first(indexes, table) {
        None => false,
        Some(ix) => some_index_covers(ix, cols),
    }
}

/// Whether `index_cols` serves `cols` as a leftmost prefix.
fn is_prefix_ci(cols: &Vec<String>, index_cols: &Vec<String>) -> (r: bool)
    ensures
        r == prefix_ci(views_of(cols@), views_of(index_cols@)),
{
    if index_cols.len() < cols.len() {
        return false;
    }
    let mut j: usize = 0;
    while j < cols.len()
        invariant
            j <= cols.len(),
            cols@.len() <= index_cols@.len(),
            forall|k: int| 0 <= k < j ==> eq_ci(views_of(index_cols@)[k], views_of(cols@)[k]),
        decreases cols.len() - j,
    {
        proof {
            assert(views_of(cols@)[j as int] == cols@[j as int]@);
            assert(views_of(index_cols@)[j as int] == index_cols@[j as int]@);
        }
        if !str_eq_ci(index_cols[j].as_str(), cols[j].as_str()) {
            return false;
        }
        j += 1;
    }
    true
}

/// Whether an existing index of `table` already covers the candidate
/// columns: some index whose leading columns equal the candidate's, in
/// order and up to ASCII case.
pub fn is_index_covered(table: &str, columns: &Vec<String>, catalog: &IndexCatalog) -> (r: bool)
    ensures
        r == covered_spec(catalog@.indexes, table@, views_of(columns@)),
{
    let pos = find_table_indexes(&catalog.indexes_by_table, table);
    match pos {
        None => {
            proof {
                lemma_assoc_first_missing(catalog@.indexes, table@);
            }
            false
        },
        Some(i) => {
            proof {
                lemma_assoc_first_found(catalog@.indexes, table@, i as int);
            }
            let entry = &catalog.indexes_by_table[i];
            let ghost ix = indexes_view(catalog.indexes_by_table@)[i as int].1;
            let mut k: usize = 0;
            while k < entry.indexes.len()
                invariant
                    k <= entry.indexes.len(),
                    ix == index_lists_view(entry.indexes@),
                    assoc_first(catalog@.indexes, table@) == Some(ix),
                    ix.len() == entry.indexes@.len(),
                    forall|m: int| 0 <= m < k ==> !prefix_ci(views_of(columns@), #[trigger] ix[m]),
                decreases entry.indexes.len() - k,
            {
                proof {
                    assert(ix[k as int] == views_of(entry.indexes@[k as int]@));
                }
                if is_prefix_ci(columns, &entry.indexes[k]) {
                    proof {
                        assert(prefix_ci(views_of(columns@), ix[k as int]));
                        assert(some_index_covers(ix, views_of(columns@)));
                    }
                    return true;
                }
                k += 1;
            }
            false
        },
    }
}

/// A table reference resolved against the catalog: schema, bare table name,
/// canonical full name, and whether the resolution was ambiguous.
pub struct ResolvedTable {
    pub schema: String,
    pub table: String,
    pub full_name: String,
    pub ambiguous_schema: bool,
}

/// The mathematical value of a resolved table.
#[verifier::ext_equal]
pub struct ResolvedV {
    pub schema: Seq<char>,
    pub table: Seq<char>,
    pub full_name: Seq<char>,
    pub ambiguous_schema: bool,
}

impl View for ResolvedTable {
    type V = ResolvedV;

    open spec fn view(&self) -> ResolvedV {
        ResolvedV {
            schema: self.schema@,
            table: self.table@,
            full_name: self.full_name@,
            ambiguous_schema: self.ambiguous_schema,
        }
    }
}

/// How a table reference resolves against the catalog's schema map: an
/// explicit schema is kept; a bare name owned by exactly one schema takes
/// it; one owned by several schemas among them the default schema takes the
/// default, marked ambiguous; anything else is left unresolved under the
/// `unknown` schema, marked ambiguous, and still proceeds.
pub open spec fn resolved_of(t: TableRefV, schemas: Seq<(Seq<char>, Seq<Seq<char>>)>)
    -> ResolvedV {
    match t.schema {
        Some(s) => ResolvedV {
            schema: s,
            table: t.name,
            full_name: s + seq!['.'] + t.name,
            ambiguous_schema: false,
        },
        None => {
            let ss = match assoc_first(schemas, t.name) {
                Some(x) => x,
                None => Seq::empty(),
            };
            if ss.len() == 1 {
                ResolvedV {
                    schema: ss[0],
                    table: t.name,
                    full_name: ss[0] + seq!['.'] + t.name,
                    ambiguous_schema: false,
                }
            } else if contains_exact(ss, "public"@) {
                ResolvedV {
                    schema: "public"@,
                    table: t.name,
                    full_name: "public"@ + seq!['.'] + t.name,
                    ambiguous_schema: true,
                }
            } else {
                ResolvedV {
                    schema: "unknown"@,
                    table: t.name,
                    full_name: t.name,
                    ambiguous_schema: true,
                }
            }
        },
    }
}

/// Joins a schema and a table name into a canonical full name.
fn join_full_name(schema: &str, table: &str) -> (r: String)
    ensures
        r@ == schema@ + seq!['.'] + table@,
{
    proof {
        reveal_strlit(".");
        assert("."@ =~= seq!['.']);
    }
    let mut full = schema.to_owned();
    full.append(".");
    full.append(table);
    proof {
        assert(full@ =~= schema@ + seq!['.'] + table@);
    }
    full
}

/// Resolves a table reference against the catalog's schema map.
pub fn resolve_table_schema(table: &crate::query_parser::TableRef, catalog: &IndexCatalog) -> (r:
    ResolvedTable)
    ensures
        r@ == resolved_of(table@, catalog@.schemas),
{
    match &table.schema {
        Some(schema) => {
            let full_name = join_full_name(schema.as_str(), table.name.as_str());
            ResolvedTable {
                schema: schema.clone(),
                table: table.name.clone(),
                full_name,
                ambiguous_schema: false,
            }
        },
        None => {
            let pos = find_table_schemas(&catalog.schemas_by_table, table.name.as_str());
            match pos {
                Some(i) => {
                    proof {
                        lemma_assoc_first_found(catalog@.schemas, table.name@, i as int);
                    }
                    let entry = &catalog.schemas_by_table[i];
                    proof {
                        assert(schemas_view(catalog.schemas_by_table@)[i as int]
                            == entry@);
                    }
                    if entry.schemas.len() == 1 {
                        proof {
                            assert(views_of(entry.schemas@)[0] == entry.schemas@[0]@);
                        }
                        let schema = entry.schemas[0].clone();
                        let full_name = join_full_name(schema.as_str(), table.name.as_str());
                        ResolvedTable {
                            schema,
                            table: table.name.clone(),
                            full_name,
                            ambiguous_schema: false,
                        }
                    } else if contains_str(&entry.schemas, "public") {
                        let full_name = join_full_name("public", table.name.as_str());
                        ResolvedTable {
                            schema: "public".to_owned(),
                            table: table.name.clone(),
                            full_name,
                            ambiguous_schema: true,
                        }
                    } else {
                        ResolvedTable {
                            schema: "unknown".to_owned(),
                            table: table.name.clone(),
                            full_name: table.name.clone(),
                            ambiguous_schema: true,
                        }
                    }
                },
                None => {
                    proof {
                        lemma_assoc_first_missing(catalog@.schemas, table.name@);
                        assert(!contains_exact(Seq::<Seq<char>>::empty(), "public"@));
                    }
                    ResolvedTable {
                        schema: "unknown".to_owned(),
                        table: table.name.clone(),
                        full_name: table.name.clone(),
                        ambiguous_schema: true,
                    }
                },
            }
        },
    }
}

/// The rationale attached to a candidate: which usage categories
/// contributed, and whether schema resolution was ambiguous.
pub open spec fn reason_spec(u: crate::query_spec::UsageV, ambiguous: bool) -> Seq<char> {
    let p0 = Seq::<Seq<char>>::empty();
    let p1 = if u.filters.len() > 0 {
        p0.push("WHERE "@ + join_with(u.filters, ", "@))
    } else {
        p0
    };
    let p2 = if u.joins.len() > 0 {
        p1.push("JOIN "@ + join_with(u.joins, ", "@))
    } else {
        p1
    };
    let p3 = if u.orders.len() > 0 {
        p2.push("ORDER BY "@ + join_with(u.orders, ", "@))
    } else {
        p2
    };
    let p4 = if ambiguous {
        p3.push("schema ambiguous"@)
    } else {
        p3
    };
    "heuristic from slow query: "@ + join_with(p4, "; "@)
}

/// Builds the human-readable rationale for one candidate.
pub fn format_reason(usage: &TableColumnUsage, ambiguous_schema: bool) -> (r: String)
    ensures
        r@ == reason_spec(usage@, ambiguous_schema),
{
    let mut parts: Vec<String> = Vec::new();
    if usage.filters.len() > 0 {
        let mut part = "WHERE ".to_owned();
        part.append(join_strings(&usage.filters, ", ").as_str());
        parts.push(part);
    }
    if usage.joins.len() > 0 {
        let mut part = "JOIN ".to_owned();
        part.append(join_strings(&usage.joins, ", ").as_str());
        parts.push(part);
    }
    if usage.orders.len() > 0 {
        let mut part = "ORDER BY ".to_owned();
        part.append(join_strings(&usage.orders, ", ").as_str());
        parts.push(part);
    }
    if ambiguous_schema {
        parts.push("schema ambiguous".to_owned());
    }
    let mut out = "heuristic from slow query: ".to_owned();
    out.append(join_strings(&parts, "; ").as_str());
    proof {
        assert(views_of(parts@) =~= {
            let u = usage@;
            let p0 = Seq::<Seq<char>>::empty();
            let p1 = if u.filters.len() > 0 {
                p0.push("WHERE "@ + join_with(u.filters, ", "@))
            } else {
                p0
            };
            let p2 = if u.joins.len() > 0 {
                p1.push("JOIN "@ + join_with(u.joins, ", "@))
            } else {
                p1
            };
            let p3 = if u.orders.len() > 0 {
                p2.push("ORDER BY "@ + join_with(u.orders, ", "@))
            } else {
                p2
            };
            if ambiguous_schema {
                p3.push("schema ambiguous"@)
            } else {
                p3
            }
        });
    }
    out
}

/// A proposed composite index: schema, table, an ordered column list of at
/// most three entries, a human-readable rationale, and the provenance of
/// the statement it was inferred from.
pub struct QueryIndexCandidate {
    pub schema: String,
    pub table: String,
    pub columns: Vec<String>,
    pub reason: String,
    pub queryid: i64,
    pub total_time_us: u64,
    pub mean_time_us: u64,
    pub calls: i64,
}

/// The mathematical value of one candidate.
#[verifier::ext_equal]
pub struct CandV {
    pub schema: Seq<char>,
    pub table: Seq<char>,
    pub columns: Seq<Seq<char>>,
    pub reason: Seq<char>,
    pub queryid: int,
    pub total_time_us: int,
    pub mean_time_us: int,
    pub calls: int,
}

impl View for QueryIndexCandidate {
    type V = CandV;

    open spec fn view(&self) -> CandV {
        CandV {
            schema: self.schema@,
            table: self.table@,
            columns: views_of(self.columns@),
            reason: self.reason@,
            queryid: self.queryid as int,
            total_time_us: self.total_time_us as int,
            mean_time_us: self.mean_time_us as int,
            calls: self.calls as int,
        }
    }
}

/// The views of a sequence of candidates.
pub open spec fn cands_view(cs: Seq<QueryIndexCandidate>) -> Seq<CandV> {
    cs.map_values(|c: QueryIndexCandidate| c@)
}

/// The table reference a usage record belongs to: the one registered last
/// under this full name, as an overwriting map insert would have it.
pub open spec fn find_table(tables: Seq<TableRefV>, full: Seq<char>) -> Option<TableRefV>
    decreases tables.len(),
{
    if tables.len() == 0 {
        None
    } else if crate::query_spec::full_name_v(tables.last()) == full {
        Some(tables.last())
    } else {
        find_table(tables.drop_last(), full)
    }
}

/// A candidate's column list: filter columns, then join columns not already
/// present, then order columns not already present, capped at three.
pub open spec fn candidate_columns(u: crate::query_spec::UsageV) -> Seq<Seq<char>> {
    let all = append_unique_ci(
        append_unique_ci(append_unique_ci(Seq::empty(), u.filters), u.joins),
        u.orders,
    );
    if all.len() > 3 {
        all.take(3)
    } else {
        all
    }
}

/// The candidate one table's usage yields for one statement, if any: none
/// when the table reference is unknown, when no columns were mined, or when
/// an existing index of the resolved table already covers the columns.  A
/// table whose schema stayed unresolved is conservatively treated as
/// uncovered and still yields its candidate.
pub open spec fn candidate_of(
    stat: StatV,
    entry: (Seq<char>, crate::query_spec::UsageV),
    tables: Seq<TableRefV>,
    cat: CatalogV,
) -> Option<CandV> {
    match find_table(tables, entry.0) {
        None => None,
        Some(t) => {
            let cols = candidate_columns(entry.1);
            if cols.len() == 0 {
                None
            } else {
                let res = resolved_of(t, cat.schemas);
                if res.schema != "unknown"@ && covered_spec(cat.indexes, res.full_name, cols) {
                    None
                } else {
                    Some(CandV {
                        schema: res.schema,
                        table: res.table,
                        columns: cols,
                        reason: reason_spec(entry.1, res.ambiguous_schema),
                        queryid: stat.queryid,
                        total_time_us: stat.total_time_us,
                        mean_time_us: stat.mean_time_us,
                        calls: stat.calls,
                    })
                }
            }
        },
    }
}

/// The candidates one statement's usage yields, one per table with usable
/// columns, in the order the tables were first touched.
pub open spec fn candidates_from_entries(
    stat: StatV,
    entries: Seq<(Seq<char>, crate::query_spec::UsageV)>,
    tables: Seq<TableRefV>,
    cat: CatalogV,
    acc: Seq<CandV>,
) -> Seq<CandV>
    decreases entries.len(),
{
    if entries.len() == 0 {
        acc
    } else {
        let acc1 = match candidate_of(stat, entries[0], tables, cat) {
            Some(c) => acc.push(c),
            None => acc,
        };
        candidates_from_entries(stat, entries.drop_first(), tables, cat, acc1)
    }
}

/// The candidates one statement yields from its extracted usage.
pub open spec fn candidates_for_usage_spec(
    stat: StatV,
    u: crate::query_spec::QueryUsageV,
    cat: CatalogV,
) -> Seq<CandV> {
    candidates_from_entries(stat, u.usage, u.tables, cat, Seq::empty())
}

/// The position among the statement's tables of the one registered last
/// under this full name, if any.
fn find_table_ref(tables: &Vec<crate::query_parser::TableRef>, full: &str) -> (r: Option<usize>)
    ensures
        match r {
            Some(i) => i < tables@.len() && find_table(
                crate::query_parser::tables_view(tables@),
                full@,
            ) == Some(crate::query_parser::tables_view(tables@)[i as int]),
            None => find_table(crate::query_parser::tables_view(tables@), full@) is None,
        },
{
    let ghost tv = crate::query_parser::tables_view(tables@);
    proof {
        assert(tv.take(tv.len() as int) =~= tv);
    }
    let mut i: usize = tables.len();
    while i > 0
        invariant
            i <= tables.len(),
            tv == crate::query_parser::tables_view(tables@),
            find_table(tv, full@) == find_table(tv.take(i as int), full@),
        decreases i,
    {
        i -= 1;
        proof {
            assert(tv.take(i as int + 1).last() == tv[i as int]);
            assert(tv.take(i as int + 1).drop_last() =~= tv.take(i as int));
            assert(tv[i as int] == tables@[i as int]@);
        }
        let name = tables[i].full_name();
        if str_eq(name.as_str(), full) {
            return Some(i);
        }
    }
    proof {
        assert(tv.take(0) =~= Seq::<TableRefV>::empty());
    }
    None
}

/// Builds at most one candidate per table from one statement's usage,
/// consulting the catalog for coverage.
pub fn build_candidates_for_usage(
    stat: &StatementStat,
    usage: &crate::query_parser::QueryColumnUsage,
    catalog: &IndexCatalog,
) -> (r: Vec<QueryIndexCandidate>)
    ensures
        cands_view(r@) == candidates_for_usage_spec(stat@, usage@, catalog@),
{
    let ghost entries = usage@.usage;
    let ghost tablesv = usage@.tables;
    let mut candidates: Vec<QueryIndexCandidate> = Vec::new();
    proof {
        assert(entries.skip(0) =~= entries);
        assert(cands_view(candidates@) =~= Seq::<CandV>::empty());
    }
    let mut i: usize = 0;
    while i < usage.usage_by_table.len()
        invariant
            i <= usage.usage_by_table.len(),
            entries == usage@.usage,
            tablesv == usage@.tables,
            candidates_from_entries(stat@, entries.skip(i as int), tablesv, catalog@,
                cands_view(candidates@)) == candidates_from_entries(stat@, entries, tablesv,
                catalog@, Seq::empty()),
        decreases usage.usage_by_table.len() - i,
    {
        let ghost acc0 = cands_view(candidates@);
        let ghost cur = entries[i as int];
        let ghost expected = candidate_of(stat@, cur, tablesv, catalog@);
        proof {
            assert(entries.skip(i as int)[0] == entries[i as int]);
            assert(entries.skip(i as int).drop_first() =~= entries.skip(i as int + 1));
            assert(entries[i as int] == usage.usage_by_table@[i as int]@);
        }
        let entry = &usage.usage_by_table[i];
        match find_table_ref(&usage.tables, entry.table.as_str()) {
            None => {
                proof {
                    assert(expected is None);
                }
            },
            Some(ti) => {
                proof {
                    assert(crate::query_parser::tables_view(usage.tables@)[ti as int]
                        == usage.tables@[ti as int]@);
                }
                let ghost tref = tablesv[ti as int];
                let mut columns: Vec<String> = Vec::new();
                proof {
                    assert(views_of(columns@) =~= Seq::<Seq<char>>::empty());
                }
                append_unique(&mut columns, &entry.usage.filters);
                append_unique(&mut columns, &entry.usage.joins);
                append_unique(&mut columns, &entry.usage.orders);
                if columns.len() > 3 {
                    let ghost before = views_of(columns@);
                    columns.truncate(3);
                    proof {
                        assert(views_of(columns@) =~= before.take(3));
                    }
                }
                proof {
                    assert(views_of(columns@) == candidate_columns(cur.1));
                }
                if columns.len() == 0 {
                    proof {
                        assert(expected is None);
                    }
                } else {
                    let resolved = resolve_table_schema(&usage.tables[ti], catalog);
                    proof {
                        reveal_strlit("unknown");
                        assert(resolved@ == resolved_of(tref, catalog@.schemas));
                    }
                    let skip_covered = if !str_eq(resolved.schema.as_str(), "unknown") {
                        is_index_covered(resolved.full_name.as_str(), &columns, catalog)
                    } else {
                        false
                    };
                    if skip_covered {
                        proof {
                            assert(expected is None);
                        }
                    } else {
                        let reason = format_reason(&entry.usage, resolved.ambiguous_schema);
                        candidates.push(
                            QueryIndexCandidate {
                                schema: resolved.schema,
                                table: resolved.table,
                                columns,
                                reason,
                                queryid: stat.queryid,
                                total_time_us: stat.total_time_us,
                                mean_time_us: stat.mean_time_us,
                                calls: stat.calls,
                            },
                        );
                        proof {
                            assert(expected == Some(candidates@.last()@));
                            assert(cands_view(candidates@) =~= acc0.push(candidates@.last()@));
                        }
                    }
                }
            },
        }
        proof {
            assert(cands_view(candidates@) == (match expected {
                Some(c) => acc0.push(c),
                None => acc0,
            }));
        }
        i += 1;
    }
    proof {
        assert(entries.skip(entries.len() as int) =~= Seq::<(Seq<char>,
            crate::query_spec::UsageV)>::empty());
    }
    candidates
}

/// Whether two column lists are equal position by position up to ASCII
/// case.
pub open spec fn cols_eq_ci(a: Seq<Seq<char>>, b: Seq<Seq<char>>) -> bool {
    a.len() == b.len() && (forall|i: int| 0 <= i < a.len() ==> eq_ci(a[i], b[i]))
}

/// Whether two candidates propose the same index: same resolved schema and
/// table, and the same column list up to ASCII case.
pub open spec fn same_cand_key(a: CandV, b: CandV) -> bool {
    a.schema == b.schema && a.table == b.table && cols_eq_ci(a.columns, b.columns)
}

/// Whether a colliding newcomer displaces the kept candidate: a larger
/// total execution time wins, and a tie falls to the smaller statement
/// identifier.
pub open spec fn displaces(new: CandV, kept: CandV) -> bool {
    new.total_time_us > kept.total_time_us || (new.total_time_us == kept.total_time_us
        && new.queryid < kept.queryid)
}

/// Merges one candidate into the deduplicated list: a newcomer with no
/// colliding entry is appended; a colliding one survives only as the worse
/// offender.
pub open spec fn dedup_insert(cs: Seq<CandV>, c: CandV) -> Seq<CandV>
    decreases cs.len(),
{
    if cs.len() == 0 {
        seq![c]
    } else if same_cand_key(cs[0], c) {
        if displaces(c, cs[0]) {
            seq![c] + cs.drop_first()
        } else {
            cs
        }
    } else {
        seq![cs[0]] + dedup_insert(cs.drop_first(), c)
    }
}

/// When the first collision is at position `i`, merging either replaces
/// that entry or leaves the list unchanged.
pub proof fn lemma_dedup_found(cs: Seq<CandV>, c: CandV, i: int)
    requires
        0 <= i < cs.len(),
        same_cand_key(cs[i], c),
        forall|j: int| 0 <= j < i ==> !same_cand_key(cs[j], c),
    ensures
        dedup_insert(cs, c) =~= if displaces(c, cs[i]) {
            cs.update(i, c)
        } else {
            cs
        },
    decreases cs.len(),
{
    if i == 0 {
        if displaces(c, cs[0]) {
            assert(dedup_insert(cs, c) =~= cs.update(0, c));
        }
    } else {
        lemma_dedup_found(cs.drop_first(), c, i - 1);
        if displaces(c, cs[i]) {
            assert(dedup_insert(cs, c) =~= cs.update(i, c));
        } else {
            assert(dedup_insert(cs, c) =~= cs);
        }
    }
}

/// When nothing collides, merging appends the newcomer.
pub proof fn lemma_dedup_missing(cs: Seq<CandV>, c: CandV)
    requires
        forall|j: int| 0 <= j < cs.len() ==> !same_cand_key(cs[j], c),
    ensures
        dedup_insert(cs, c) =~= cs.push(c),
    decreases cs.len(),
{
    if cs.len() > 0 {
        lemma_dedup_missing(cs.drop_first(), c);
        assert(dedup_insert(cs, c) =~= cs.push(c));
    }
}

/// Merges a batch of candidates in order.
pub open spec fn dedup_many(cs: Seq<CandV>, new: Seq<CandV>) -> Seq<CandV>
    decreases new.len(),
{
    if new.len() == 0 {
        cs
    } else {
        dedup_many(dedup_insert(cs, new[0]), new.drop_first())
    }
}

/// Whether two candidates propose the same index.
fn same_key_exec(a: &QueryIndexCandidate, b: &QueryIndexCandidate) -> (r: bool)
    ensures
        r == same_cand_key(a@, b@),
{
    if !str_eq(a.schema.as_str(), b.schema.as_str()) {
        return false;
    }
    if !str_eq(a.table.as_str(), b.table.as_str()) {
        return false;
    }
    if a.columns.len() != b.columns.len() {
        return false;
    }
    let mut i: usize = 0;
    while i < a.columns.len()
        invariant
            i <= a.columns.len(),
            a.columns@.len() == b.columns@.len(),
            forall|j: int| 0 <= j < i ==> eq_ci(views_of(a.columns@)[j], views_of(b.columns@)[j]),
        decreases a.columns.len() - i,
    {
        proof {
            assert(views_of(a.columns@)[i as int] == a.columns@[i as int]@);
            assert(views_of(b.columns@)[i as int] == b.columns@[i as int]@);
        }
        if !str_eq_ci(a.columns[i].as_str(), b.columns[i].as_str()) {
            return false;
        }
        i += 1;
    }
    true
}

/// Merges one candidate into the deduplicated list.
fn dedup_insert_exec(deduped: &mut Vec<QueryIndexCandidate>, c: QueryIndexCandidate)
    ensures
        cands_view(final(deduped)@) == dedup_insert(cands_view(old(deduped)@), c@),
{
    let ghost before = cands_view(deduped@);
    let mut i: usize = 0;
    while i < deduped.len()
        invariant
            i <= deduped.len(),
            *deduped == *old(deduped),
            before == cands_view(deduped@),
            forall|j: int| 0 <= j < i ==> !same_cand_key(cands_view(deduped@)[j], c@),
        decreases deduped.len() - i,
    {
        proof {
            assert(cands_view(deduped@)[i as int] == deduped@[i as int]@);
        }
        if same_key_exec(&deduped[i], &c) {
            let kept = &deduped[i];
            let replace = c.total_time_us > kept.total_time_us || (c.total_time_us
                == kept.total_time_us && c.queryid < kept.queryid);
            proof {
                lemma_dedup_found(before, c@, i as int);
            }
            if replace {
                let _ = deduped.remove(i);
                deduped.insert(i, c);
                proof {
                    assert(cands_view(deduped@) =~= before.update(i as int, c@));
                }
            }
            return ;
        }
        i += 1;
    }
    deduped.push(c);
    proof {
        lemma_dedup_missing(before, c@);
        assert(cands_view(deduped@) =~= before.push(c@));
    }
}

/// Inserts `x` before the first element it must precede, under `le`.
pub open spec fn insert_by<T>(s: Seq<T>, x: T, le: spec_fn(T, T) -> bool) -> Seq<T>
    decreases s.len(),
{
    if s.len() == 0 {
        seq![x]
    } else if le(s[0], x) {
        seq![s[0]] + insert_by(s.drop_first(), x, le)
    } else {
        seq![x] + s
    }
}

/// Sorts by repeated insertion, in input order, so that the result is
/// deterministic in the input.
pub open spec fn sort_by_spec<T>(s: Seq<T>, le: spec_fn(T, T) -> bool) -> Seq<T>
    decreases s.len(),
{
    if s.len() == 0 {
        Seq::empty()
    } else {
        insert_by(sort_by_spec(s.drop_last(), le), s.last(), le)
    }
}

/// The insertion lands at the first position whose element does not precede
/// `x`.
pub proof fn lemma_insert_by_at<T>(s: Seq<T>, x: T, le: spec_fn(T, T) -> bool, i: int)
    requires
        0 <= i <= s.len(),
        forall|j: int| 0 <= j < i ==> le(s[j], x),
        i == s.len() || !le(s[i], x),
    ensures
        insert_by(s, x, le) =~= s.insert(i, x),
    decreases s.len(),
{
    if s.len() == 0 {
    } else if i == 0 {
        assert(insert_by(s, x, le) =~= s.insert(0, x));
    } else {
        lemma_insert_by_at(s.drop_first(), x, le, i - 1);
        assert(insert_by(s, x, le) =~= s.insert(i, x));
    }
}

/// Candidate ranking: larger total execution time first, ties by ascending
/// statement identifier.
pub open spec fn cand_le(a: CandV, b: CandV) -> bool {
    a.total_time_us > b.total_time_us || (a.total_time_us == b.total_time_us && a.queryid
        <= b.queryid)
}

/// The candidate ranking as an insertion ordering.
pub open spec fn cand_le_fn() -> spec_fn(CandV, CandV) -> bool {
    |a: CandV, b: CandV| cand_le(a, b)
}

/// Inserts one candidate at its rank.
fn insert_cand_sorted(sorted: &mut Vec<QueryIndexCandidate>, x: QueryIndexCandidate)
    ensures
        cands_view(final(sorted)@) == insert_by(cands_view(old(sorted)@), x@, cand_le_fn()),
{
    let ghost before = cands_view(sorted@);
    let mut i: usize = 0;
    while i < sorted.len()
        invariant
            i <= sorted.len(),
            *sorted == *old(sorted),
            before == cands_view(sorted@),
            forall|j: int| 0 <= j < i ==> cand_le(cands_view(sorted@)[j], x@),
        decreases sorted.len() - i,
    {
        proof {
            assert(cands_view(sorted@)[i as int] == sorted@[i as int]@);
        }
        let e = &sorted[i];
        let keeps = e.total_time_us > x.total_time_us || (e.total_time_us == x.total_time_us
            && e.queryid <= x.queryid);
        if !keeps {
            sorted.insert(i, x);
            proof {
                lemma_insert_by_at(before, x@, cand_le_fn(), i as int);
                assert(cands_view(sorted@) =~= before.insert(i as int, x@));
            }
            return ;
        }
        i += 1;
    }
    let ghost n = sorted@.len() as int;
    sorted.push(x);
    proof {
        lemma_insert_by_at(before, x@, cand_le_fn(), n);
        assert(cands_view(sorted@) =~= before.insert(n, x@));
    }
}

/// A sequence cut to at most `n` entries.
pub open spec fn take_at_most<T>(s: Seq<T>, n: int) -> Seq<T> {
    if s.len() <= n {
        s
    } else {
        s.take(n)
    }
}

/// The metric one slow-statement listing ranks by.
#[derive(Debug, Clone, Copy, PartialEq, Eq, Structural)]
pub enum SlowQueryKind {
    TotalTime,
    MeanTime,
    SharedBlksRead,
    TempBlksWritten,
}

/// The ranking metric of one statement under a listing kind.
pub open spec fn stat_key(kind: SlowQueryKind, s: StatV) -> int {
    match kind {
        SlowQueryKind::TotalTime => s.total_time_us,
        SlowQueryKind::MeanTime => s.mean_time_us,
        SlowQueryKind::SharedBlksRead => s.shared_blks_read,
        SlowQueryKind::TempBlksWritten => s.temp_blks_written,
    }
}

/// Listing order: larger metric first, ties by ascending statement
/// identifier.
pub open spec fn stat_le(kind: SlowQueryKind, a: StatV, b: StatV) -> bool {
    stat_key(kind, a) > stat_key(kind, b) || (stat_key(kind, a) == stat_key(kind, b) && a.queryid
        <= b.queryid)
}

/// The listing order as an insertion ordering.
pub open spec fn stat_le_fn(kind: SlowQueryKind) -> spec_fn(StatV, StatV) -> bool {
    |a: StatV, b: StatV| stat_le(kind, a, b)
}

/// One entry of a slow-statement listing: the statement's statistics and
/// its display text.
pub struct SlowQueryInfo {
    pub queryid: i64,
    pub calls: i64,
    pub total_time_us: u64,
    pub mean_time_us: u64,
    pub max_time_us: u64,
    pub rows: i64,
    pub shared_blks_read: i64,
    pub shared_blks_hit: i64,
    pub temp_blks_read: i64,
    pub temp_blks_written: i64,
    pub query_text: String,
}

/// The mathematical value of one listing entry.
#[verifier::ext_equal]
pub struct InfoV {
    pub queryid: int,
    pub calls: int,
    pub total_time_us: int,
    pub mean_time_us: int,
    pub max_time_us: int,
    pub rows: int,
    pub shared_blks_read: int,
    pub shared_blks_hit: int,
    pub temp_blks_read: int,
    pub temp_blks_written: int,
    pub query_text: Seq<char>,
}

impl View for SlowQueryInfo {
    type V = InfoV;

    open spec fn view(&self) -> InfoV {
        InfoV {
            queryid: self.queryid as int,
            calls: self.calls as int,
            total_time_us: self.total_time_us as int,
            mean_time_us: self.mean_time_us as int,
            max_time_us: self.max_time_us as int,
            rows: self.rows as int,
            shared_blks_read: self.shared_blks_read as int,
            shared_blks_hit: self.shared_blks_hit as int,
            temp_blks_read: self.temp_blks_read as int,
            temp_blks_written: self.temp_blks_written as int,
            query_text: self.query_text@,
        }
    }
}

/// The listing entry one statement yields.
pub open spec fn info_of(s: StatV, max_len: int, full: bool) -> InfoV {
    InfoV {
        queryid: s.queryid,
        calls: s.calls,
        total_time_us: s.total_time_us,
        mean_time_us: s.mean_time_us,
        max_time_us: s.max_time_us,
        rows: s.rows,
        shared_blks_read: s.shared_blks_read,
        shared_blks_hit: s.shared_blks_hit,
        temp_blks_read: s.temp_blks_read,
        temp_blks_written: s.temp_blks_written,
        query_text: format_query_spec(s.query, max_len, full),
    }
}

/// The listing entries a sequence of statements yields.
pub open spec fn infos_of(ss: Seq<StatV>, max_len: int, full: bool) -> Seq<InfoV> {
    ss.map_values(|s: StatV| info_of(s, max_len, full))
}

/// The views of a sequence of listing entries.
pub open spec fn infos_view(is: Seq<SlowQueryInfo>) -> Seq<InfoV> {
    is.map_values(|i: SlowQueryInfo| i@)
}

/// One slow-statement listing: the ranking metric and the top statements
/// under it.
pub struct SlowQueryGroup {
    pub kind: SlowQueryKind,
    pub queries: Vec<SlowQueryInfo>,
}

/// What one listing holds: the statements ranked under the metric, cut to
/// the limit, each turned into its display entry.
pub open spec fn group_queries_spec(
    stats: Seq<StatV>,
    kind: SlowQueryKind,
    limit: int,
    max_len: int,
    full: bool,
) -> Seq<InfoV> {
    infos_of(take_at_most(sort_by_spec(stats, stat_le_fn(kind)), limit), max_len, full)
}

/// Whether `a` precedes or equals `b` in listing order.
fn stat_le_exec(kind: SlowQueryKind, a: &StatementStat, b: &StatementStat) -> (r: bool)
    ensures
        r == stat_le(kind, a@, b@),
{
    match kind {
        SlowQueryKind::TotalTime => a.total_time_us > b.total_time_us || (a.total_time_us
            == b.total_time_us && a.queryid <= b.queryid),
        SlowQueryKind::MeanTime => a.mean_time_us > b.mean_time_us || (a.mean_time_us
            == b.mean_time_us && a.queryid <= b.queryid),
        SlowQueryKind::SharedBlksRead => a.shared_blks_read > b.shared_blks_read || (
        a.shared_blks_read == b.shared_blks_read && a.queryid <= b.queryid),
        SlowQueryKind::TempBlksWritten => a.temp_blks_written > b.temp_blks_written || (
        a.temp_blks_written == b.temp_blks_written && a.queryid <= b.queryid),
    }
}

/// Inserts one statement at its rank.
fn insert_stat_sorted(sorted: &mut Vec<StatementStat>, kind: SlowQueryKind, x: StatementStat)
    ensures
        stats_view(final(sorted)@) == insert_by(stats_view(old(sorted)@), x@, stat_le_fn(kind)),
{
    let ghost before = stats_view(sorted@);
    let mut i: usize = 0;
    while i < sorted.len()
        invariant
            i <= sorted.len(),
            *sorted == *old(sorted),
            before == stats_view(sorted@),
            forall|j: int| 0 <= j < i ==> stat_le(kind, stats_view(sorted@)[j], x@),
        decreases sorted.len() - i,
    {
        proof {
            assert(stats_view(sorted@)[i as int] == sorted@[i as int]@);
        }
        if !stat_le_exec(kind, &sorted[i], &x) {
            sorted.insert(i, x);
            proof {
                lemma_insert_by_at(before, x@, stat_le_fn(kind), i as int);
                assert(stats_view(sorted@) =~= before.insert(i as int, x@));
            }
            return ;
        }
        i += 1;
    }
    let ghost n = sorted@.len() as int;
    sorted.push(x);
    proof {
        lemma_insert_by_at(before, x@, stat_le_fn(kind), n);
        assert(stats_view(sorted@) =~= before.insert(n, x@));
    }
}

/// Builds one slow-statement listing: the statements ranked under `kind`,
/// cut to the limit.
pub fn build_slow_query_group(
    stats: &Vec<StatementStat>,
    kind: SlowQueryKind,
    opts: &WorkloadOptions,
) -> (r: SlowQueryGroup)
    ensures
        r.kind == kind,
        infos_view(r.queries@) == group_queries_spec(stats_view(stats@), kind,
            opts.limit as int, opts.max_query_len as int, opts.include_full_query),
{
    let ghost sv = stats_view(stats@);
    let mut sorted: Vec<StatementStat> = Vec::new();
    proof {
        assert(stats_view(sorted@) =~= Seq::<StatV>::empty());
        assert(sv.take(0) =~= Seq::<StatV>::empty());
    }
    let mut i: usize = 0;
    while i < stats.len()
        invariant
            i <= stats.len(),
            sv == stats_view(stats@),
            stats_view(sorted@) == sort_by_spec(sv.take(i as int), stat_le_fn(kind)),
        decreases stats.len() - i,
    {
        proof {
            assert(sv.take(i as int + 1).drop_last() =~= sv.take(i as int));
            assert(sv.take(i as int + 1).last() == sv[i as int]);
            assert(sv[i as int] == stats@[i as int]@);
        }
        insert_stat_sorted(&mut sorted, kind, stats[i].clone());
        i += 1;
    }
    proof {
        assert(sv.take(sv.len() as int) =~= sv);
    }
    let ghost ranked = stats_view(sorted@);
    sorted.truncate(opts.limit);
    proof {
        assert(stats_view(sorted@) =~= take_at_most(ranked, opts.limit as int));
    }
    let ghost cut = stats_view(sorted@);
    let mut queries: Vec<SlowQueryInfo> = Vec::new();
    proof {
        assert(infos_view(queries@) =~= Seq::<InfoV>::empty());
        assert(infos_of(cut.take(0), opts.max_query_len as int, opts.include_full_query)
            =~= Seq::<InfoV>::empty());
    }
    let mut j: usize = 0;
    while j < sorted.len()
        invariant
            j <= sorted.len(),
            cut == stats_view(sorted@),
            infos_view(queries@) == infos_of(cut.take(j as int), opts.max_query_len as int,
                opts.include_full_query),
        decreases sorted.len() - j,
    {
        proof {
            assert(cut[j as int] == sorted@[j as int]@);
        }
        let stat = &sorted[j];
        let query_text = format_query_text(stat.query.as_str(), opts);
        let ghost qb = queries@;
        queries.push(
            SlowQueryInfo {
                queryid: stat.queryid,
                calls: stat.calls,
                total_time_us: stat.total_time_us,
                mean_time_us: stat.mean_time_us,
                max_time_us: stat.max_time_us,
                rows: stat.rows,
                shared_blks_read: stat.shared_blks_read,
                shared_blks_hit: stat.shared_blks_hit,
                temp_blks_read: stat.temp_blks_read,
                temp_blks_written: stat.temp_blks_written,
                query_text,
            },
        );
        proof {
            let max_len = opts.max_query_len as int;
            let full = opts.include_full_query;
            assert(queries@.last()@ =~= info_of(cut[j as int], max_len, full));
            assert(infos_view(queries@) =~= infos_view(qb).push(queries@.last()@));
            assert(cut.take(j as int + 1) =~= cut.take(j as int).push(cut[j as int]));
            assert(infos_of(cut.take(j as int + 1), max_len, full) =~= infos_of(
                cut.take(j as int),
                max_len,
                full,
            ).push(info_of(cut[j as int], max_len, full)));
        }
        j += 1;
    }
    proof {
        assert(cut.take(cut.len() as int) =~= cut);
    }
    SlowQueryGroup { kind, queries }
}

/// Builds the four slow-statement listings: by total time, by mean time,
/// by shared blocks read, by temporary blocks written.
pub fn build_slow_query_groups(stats: &Vec<StatementStat>, opts: &WorkloadOptions) -> (r: Vec<
    SlowQueryGroup,
>)
    ensures
        r@.len() == 4,
        r@[0].kind == SlowQueryKind::TotalTime,
        r@[1].kind == SlowQueryKind::MeanTime,
        r@[2].kind == SlowQueryKind::SharedBlksRead,
        r@[3].kind == SlowQueryKind::TempBlksWritten,
        forall|k: int| 0 <= k < 4 ==> infos_view(#[trigger] r@[k].queries@)
            == group_queries_spec(stats_view(stats@), r@[k].kind, opts.limit as int,
            opts.max_query_len as int, opts.include_full_query),
{
    let mut groups: Vec<SlowQueryGroup> = Vec::new();
    groups.push(build_slow_query_group(stats, SlowQueryKind::TotalTime, opts));
    groups.push(build_slow_query_group(stats, SlowQueryKind::MeanTime, opts));
    groups.push(build_slow_query_group(stats, SlowQueryKind::SharedBlksRead, opts));
    groups.push(build_slow_query_group(stats, SlowQueryKind::TempBlksWritten, opts));
    groups
}

/// The outcome of workload analysis: any warnings the caller recorded, the
/// slow-statement listings, the ranked candidate list, and how many
/// statements failed to parse.
pub struct WorkloadResults {
    pub warnings: Vec<String>,
    pub slow_query_groups: Vec<SlowQueryGroup>,
    pub query_index_candidates: Vec<QueryIndexCandidate>,
    pub parse_failures: u64,
}

impl Default for WorkloadResults {
    /// A result with nothing recorded yet.
    fn default() -> (r: Self)
        ensures
            r.warnings@.len() == 0,
            r.slow_query_groups@.len() == 0,
            r.query_index_candidates@.len() == 0,
            r.parse_failures == 0,
    {
        WorkloadResults {
            warnings: Vec::new(),
            slow_query_groups: Vec::new(),
            query_index_candidates: Vec::new(),
            parse_failures: 0,
        }
    }
}

/// What one statement contributes: its candidates, or nothing when its text
/// does not parse as a single read query, which counts as one parse
/// failure.
pub open spec fn stat_candidates(s: StatV, cat: CatalogV) -> Option<Seq<CandV>> {
    match crate::parse::parse_of(s.query) {
        None => None,
        Some(stmts) => if stmts.len() == 1 && stmts[0] is Query {
            Some(candidates_for_usage_spec(
                s,
                crate::query_spec::usage_of_query(stmts[0]->Query_0),
                cat,
            ))
        } else {
            None
        },
    }
}

/// Folds every statement's contribution into the deduplicated candidate
/// list and the parse-failure count.
pub open spec fn accumulate_stats(acc: (Seq<CandV>, int), ss: Seq<StatV>, cat: CatalogV) -> (
    Seq<CandV>,
    int,
)
    decreases ss.len(),
{
    if ss.len() == 0 {
        acc
    } else {
        let acc1 = match stat_candidates(ss[0], cat) {
            Some(cands) => (dedup_many(acc.0, cands), acc.1),
            None => (acc.0, acc.1 + 1),
        };
        accumulate_stats(acc1, ss.drop_first(), cat)
    }
}

/// Builds the deduplicated, ranked candidate list across all statements,
/// counting statements that failed to parse into `results`.
pub fn build_index_candidates(
    stats: &Vec<StatementStat>,
    catalog: &IndexCatalog,
    opts: &WorkloadOptions,
    results: &mut WorkloadResults,
) -> (r: Vec<QueryIndexCandidate>)
    requires
        old(results).parse_failures + stats@.len() <= u64::MAX,
        opts.limit <= usize::MAX / 2,
    ensures
        final(results).parse_failures == old(results).parse_failures + accumulate_stats(
            (Seq::empty(), 0),
            stats_view(stats@),
            catalog@,
        ).1,
        final(results).warnings == old(results).warnings,
        final(results).slow_query_groups == old(results).slow_query_groups,
        final(results).query_index_candidates == old(results).query_index_candidates,
        cands_view(r@) == take_at_most(
            sort_by_spec(
                accumulate_stats((Seq::empty(), 0), stats_view(stats@), catalog@).0,
                cand_le_fn(),
            ),
            2 * opts.limit as int,
        ),
{
    let ghost sv = stats_view(stats@);
    let mut deduped: Vec<QueryIndexCandidate> = Vec::new();
    proof {
        assert(sv.skip(0) =~= sv);
        assert(cands_view(deduped@) =~= Seq::<CandV>::empty());
    }
    let mut i: usize = 0;
    while i < stats.len()
        invariant
            i <= stats.len(),
            sv == stats_view(stats@),
            old(results).parse_failures + sv.len() <= u64::MAX,
            old(results).parse_failures <= results.parse_failures,
            results.parse_failures - old(results).parse_failures <= i,
            results.warnings == old(results).warnings,
            results.slow_query_groups == old(results).slow_query_groups,
            results.query_index_candidates == old(results).query_index_candidates,
            accumulate_stats(
                (
                    cands_view(deduped@),
                    results.parse_failures - old(results).parse_failures,
                ),
                sv.skip(i as int),
                catalog@,
            ) == accumulate_stats((Seq::empty(), 0), sv, catalog@),
        decreases stats.len() - i,
    {
        proof {
            assert(sv.skip(i as int)[0] == sv[i as int]);
            assert(sv.skip(i as int).drop_first() =~= sv.skip(i as int + 1));
            assert(sv[i as int] == stats@[i as int]@);
        }
        let stat = &stats[i];
        match crate::query_parser::parse_query_columns(stat.query.as_str()) {
            Ok(usage) => {
                let mut per = build_candidates_for_usage(stat, &usage, catalog);
                proof {
                    assert(stat_candidates(sv[i as int], catalog@) == Some(cands_view(per@)));
                }
                let ghost target = dedup_many(cands_view(deduped@), cands_view(per@));
                while per.len() > 0
                    invariant
                        dedup_many(cands_view(deduped@), cands_view(per@)) == target,
                    decreases per.len(),
                {
                    proof {
                        assert(cands_view(per@)[0] == per@[0]@);
                        assert(cands_view(per@).drop_first() =~= cands_view(per@.drop_first()));
                    }
                    let c = per.remove(0);
                    dedup_insert_exec(&mut deduped, c);
                }
            },
            Err(_) => {
                proof {
                    assert(stat_candidates(sv[i as int], catalog@) is None);
                }
                results.parse_failures = results.parse_failures + 1;
            },
        }
        i += 1;
    }
    proof {
        assert(sv.skip(sv.len() as int) =~= Seq::<StatV>::empty());
    }
    let ghost all = cands_view(deduped@);
    let mut sorted: Vec<QueryIndexCandidate> = Vec::new();
    proof {
        assert(cands_view(sorted@) =~= Seq::<CandV>::empty());
        assert(all.take(0) =~= Seq::<CandV>::empty());
    }
    let total = deduped.len();
    let mut taken: usize = 0;
    while deduped.len() > 0
        invariant
            taken + deduped@.len() == total,
            all.len() == total as int,
            cands_view(deduped@) == all.skip(taken as int),
            cands_view(sorted@) == sort_by_spec(all.take(taken as int), cand_le_fn()),
        decreases deduped.len(),
    {
        proof {
            assert(cands_view(deduped@)[0] == deduped@[0]@);
            assert(all.skip(taken as int)[0] == all[taken as int]);
            assert(all.skip(taken as int).drop_first() =~= all.skip(taken as int + 1));
            assert(all.take(taken as int + 1).drop_last() =~= all.take(taken as int));
            assert(all.take(taken as int + 1).last() == all[taken as int]);
            assert(cands_view(deduped@.drop_first()) =~= cands_view(deduped@).drop_first());
        }
        let c = deduped.remove(0);
        insert_cand_sorted(&mut sorted, c);
        taken += 1;
    }
    proof {
        assert(all.take(total as int) =~= all);
    }
    let ghost ranked = cands_view(sorted@);
    sorted.truncate(2 * opts.limit);
    proof {
        assert(cands_view(sorted@) =~= take_at_most(ranked, 2 * opts.limit as int));
    }
    sorted
}

/// The whole workload analysis: the slow-statement listings and the
/// deduplicated, ranked candidate list, cut to the caller's limit, plus the
/// parse-failure count.
pub fn analyze_statements(
    stats: &Vec<StatementStat>,
    catalog: &IndexCatalog,
    opts: &WorkloadOptions,
) -> (r: WorkloadResults)
    requires
        stats@.len() <= u64::MAX,
        opts.limit <= usize::MAX / 2,
    ensures
        r.warnings@.len() == 0,
        r.parse_failures == accumulate_stats(
            (Seq::empty(), 0),
            stats_view(stats@),
            catalog@,
        ).1,
        cands_view(r.query_index_candidates@) == take_at_most(
            sort_by_spec(
                accumulate_stats((Seq::empty(), 0), stats_view(stats@), catalog@).0,
                cand_le_fn(),
            ),
            opts.limit as int,
        ),
        r.slow_query_groups@.len() == 4,
        r.slow_query_groups@[0].kind == SlowQueryKind::TotalTime,
        r.slow_query_groups@[1].kind == SlowQueryKind::MeanTime,
        r.slow_query_groups@[2].kind == SlowQueryKind::SharedBlksRead,
        r.slow_query_groups@[3].kind == SlowQueryKind::TempBlksWritten,
        forall|k: int| 0 <= k < 4 ==> infos_view(#[trigger] r.slow_query_groups@[k].queries@)
            == group_queries_spec(stats_view(stats@), r.slow_query_groups@[k].kind,
            opts.limit as int, opts.max_query_len as int, opts.include_full_query),
{
    let mut results = WorkloadResults::default();
    results.slow_query_groups = build_slow_query_groups(stats, opts);
    let mut candidates = build_index_candidates(stats, catalog, opts, &mut results);
    let ghost twice = cands_view(candidates@);
    candidates.truncate(opts.limit);
    proof {
        let full = sort_by_spec(
            accumulate_stats((Seq::empty(), 0), stats_view(stats@), catalog@).0,
            cand_le_fn(),
        );
        assert(cands_view(candidates@) =~= take_at_most(full, opts.limit as int));
    }
    results.query_index_candidates = candidates;
    results
}

} // verus!
