//! The mathematical model of column-usage extraction.
//!
//! One statement is walked exactly once.  The walk is modelled as a pure
//! function threading a [`CollectorV`] through the statement's table list,
//! join tree, predicates and ordering clauses; afterwards the pending column
//! references are resolved against the recorded alias bindings into one
//! usage record per table.  The executable collector in `query_parser`
//! mirrors these functions step for step.

use vstd::prelude::*;
use crate::sql_ast::{SqlBinOp, SqlExpr, SqlJoin, SqlJoinConstraint, SqlQuery, SqlSelect,
    SqlSetExpr, SqlTableFactor, SqlTableWithJoins};

verus! {

/// Which position a column reference was found in.
#[derive(Clone, Copy, PartialEq, Eq, Structural)]
pub enum ColumnKind {
    Filter,
    Join,
    Order,
}

/// A table reference: optional schema, table name.
#[verifier::ext_equal]
pub struct TableRefV {
    pub schema: Option<Seq<char>>,
    pub name: Seq<char>,
}

/// A column reference waiting to be attributed to a table.
#[verifier::ext_equal]
pub struct PendingV {
    pub relation: Option<Seq<char>>,
    pub name: Seq<char>,
    pub kind: ColumnKind,
}

/// The state threaded through one statement's walk: the base tables seen so
/// far, the alias bindings recorded so far (later bindings shadow earlier
/// ones), and the pending column references in discovery order.
#[verifier::ext_equal]
pub struct CollectorV {
    pub tables: Seq<TableRefV>,
    pub aliases: Seq<(Seq<char>, Seq<char>)>,
    pub pending: Seq<PendingV>,
}

/// The canonical full name of a table: `schema.table` when the schema is
/// known, else just the table name.
pub open spec fn full_name_v(t: TableRefV) -> Seq<char> {
    match t.schema {
        Some(s) => s + seq!['.'] + t.name,
        None => t.name,
    }
}

/// Splits a dot-separated object name into optional schema and table name:
/// the last part is the table, the part before it (if any) the schema.
pub open spec fn split_object_name(parts: Seq<Seq<char>>) -> (Option<Seq<char>>, Seq<char>) {
    if parts.len() == 0 {
        (None, Seq::empty())
    } else if parts.len() == 1 {
        (None, parts[0])
    } else {
        (Some(parts[parts.len() - 2]), parts[parts.len() - 1])
    }
}

/// The column reference denoted by an expression, if it is one: a bare
/// identifier is unqualified; a two-part identifier is qualified by its
/// first part; with three or more parts the last three are read as
/// `schema.table.column` and the reference is qualified by `schema.table`.
pub open spec fn column_ref_of(e: SqlExpr) -> Option<(Option<Seq<char>>, Seq<char>)> {
    match e {
        SqlExpr::Column(parts) => {
            let ps = crate::text::views_of(parts@);
            if ps.len() == 0 {
                None
            } else if ps.len() == 1 {
                Some((None, ps[0]))
            } else if ps.len() == 2 {
                Some((Some(ps[0]), ps[1]))
            } else {
                Some((Some(ps[ps.len() - 3] + seq!['.'] + ps[ps.len() - 2]), ps[ps.len() - 1]))
            }
        },
        _ => None,
    }
}

/// Records the column reference denoted by `e`, if any, under `kind`.
pub open spec fn push_col(st: CollectorV, e: SqlExpr, kind: ColumnKind) -> CollectorV {
    match column_ref_of(e) {
        Some(cr) => CollectorV {
            pending: st.pending.push(PendingV { relation: cr.0, name: cr.1, kind }),
            ..st
        },
        None => st,
    }
}

/// Walks a filter predicate: conjunctions and disjunctions recurse, both
/// sides of an equality are mined, `IN`, `BETWEEN` and null tests mine their
/// target, parentheses recurse, everything else is ignored.
pub open spec fn walk_filter_expr(st: CollectorV, e: SqlExpr) -> CollectorV
    decreases e,
{
    match e {
        SqlExpr::Binary(op, l, r) => match op {
            SqlBinOp::And => walk_filter_expr(walk_filter_expr(st, *l), *r),
            SqlBinOp::Or => walk_filter_expr(walk_filter_expr(st, *l), *r),
            SqlBinOp::Eq => push_col(push_col(st, *l, ColumnKind::Filter), *r, ColumnKind::Filter),
            SqlBinOp::Other => st,
        },
        SqlExpr::InList(t) => push_col(st, *t, ColumnKind::Filter),
        SqlExpr::Between(t) => push_col(st, *t, ColumnKind::Filter),
        SqlExpr::IsNull(t) => push_col(st, *t, ColumnKind::Filter),
        SqlExpr::IsNotNull(t) => push_col(st, *t, ColumnKind::Filter),
        SqlExpr::Nested(i) => walk_filter_expr(st, *i),
        _ => st,
    }
}

/// Walks an `ON` predicate: like a filter, but only conjunctions,
/// disjunctions, equalities and parentheses are considered, and mined
/// columns count as join usage.
pub open spec fn walk_join_expr(st: CollectorV, e: SqlExpr) -> CollectorV
    decreases e,
{
    match e {
        SqlExpr::Binary(op, l, r) => match op {
            SqlBinOp::And => walk_join_expr(walk_join_expr(st, *l), *r),
            SqlBinOp::Or => walk_join_expr(walk_join_expr(st, *l), *r),
            SqlBinOp::Eq => push_col(push_col(st, *l, ColumnKind::Join), *r, ColumnKind::Join),
            SqlBinOp::Other => st,
        },
        SqlExpr::Nested(i) => walk_join_expr(st, *i),
        _ => st,
    }
}

/// Records each ordering expression that is a column reference, in order.
pub open spec fn walk_order_list(st: CollectorV, es: Seq<SqlExpr>) -> CollectorV
    decreases es.len(),
{
    if es.len() == 0 {
        st
    } else {
        walk_order_list(push_col(st, es[0], ColumnKind::Order), es.drop_first())
    }
}

/// Attributes one `USING` column to every already-seen left-side table.
pub open spec fn using_lefts(st: CollectorV, col: Seq<char>, lefts: Seq<Seq<char>>) -> CollectorV
    decreases lefts.len(),
{
    if lefts.len() == 0 {
        st
    } else {
        let st1 = CollectorV {
            pending: st.pending.push(
                PendingV { relation: Some(lefts[0]), name: col, kind: ColumnKind::Join },
            ),
            ..st
        };
        using_lefts(st1, col, lefts.drop_first())
    }
}

/// Attributes one `USING` column to the left-side tables and then to the
/// newly joined right-side table, when that table was registered.
pub open spec fn using_col(
    st: CollectorV,
    col: Seq<char>,
    lefts: Seq<Seq<char>>,
    right: Option<Seq<char>>,
) -> CollectorV {
    let st1 = using_lefts(st, col, lefts);
    match right {
        Some(t) => CollectorV {
            pending: st1.pending.push(
                PendingV { relation: Some(t), name: col, kind: ColumnKind::Join },
            ),
            ..st1
        },
        None => st1,
    }
}

/// Walks a `USING (...)` column list.
pub open spec fn walk_using(
    st: CollectorV,
    cols: Seq<Seq<char>>,
    lefts: Seq<Seq<char>>,
    right: Option<Seq<char>>,
) -> CollectorV
    decreases cols.len(),
{
    if cols.len() == 0 {
        st
    } else {
        walk_using(using_col(st, cols[0], lefts, right), cols.drop_first(), lefts, right)
    }
}

/// Walks one relation of a FROM clause or join.  A base table is registered
/// under its reference and its alias bindings, and its full name is handed
/// back; a derived table is walked as an independent statement contributing
/// into the same flat state; a nested join recurses structurally.
pub open spec fn walk_table_factor(st: CollectorV, tf: SqlTableFactor) -> (CollectorV, Option<
    Seq<char>,
>)
    decreases tf,
{
    match tf {
        SqlTableFactor::Table { name, alias } => {
            let parts = crate::text::views_of(name@);
            let (schema, tname) = split_object_name(parts);
            let tr = TableRefV { schema, name: tname };
            let full = full_name_v(tr);
            let a1 = st.aliases.push((tname, full));
            let a2 = match schema {
                Some(s) => a1.push((s + seq!['.'] + tname, full)),
                None => a1,
            };
            let a3 = match alias {
                Some(a) => a2.push((a@, full)),
                None => a2,
            };
            (CollectorV { tables: st.tables.push(tr), aliases: a3, pending: st.pending }, Some(full))
        },
        SqlTableFactor::Derived(q) => (walk_query(st, *q), None),
        SqlTableFactor::NestedJoin(t) => (walk_table_with_joins(st, *t), None),
        SqlTableFactor::Other => (st, None),
    }
}

/// Walks one join: the joined relation is registered first, then the
/// constraint is mined; `ON` predicates contribute join usage, `USING`
/// columns are attributed to both sides of the join chain.
pub open spec fn walk_join(st: CollectorV, j: SqlJoin, lefts: Seq<Seq<char>>) -> (CollectorV,
    Option<Seq<char>>)
    decreases j,
{
    let (st1, right) = walk_table_factor(st, j.relation);
    let st2 = match j.constraint {
        SqlJoinConstraint::On(e) => walk_join_expr(st1, e),
        SqlJoinConstraint::Using(cols) => walk_using(st1, crate::text::views_of(cols@), lefts, right),
        SqlJoinConstraint::Other => st1,
    };
    (st2, right)
}

/// Walks a join chain, carrying the full names of the tables registered so
/// far on the left of each join.
pub open spec fn walk_join_list(st: CollectorV, js: Seq<SqlJoin>, lefts: Seq<Seq<char>>)
    -> CollectorV
    decreases js,
{
    if js.len() == 0 {
        st
    } else {
        let (st1, right) = walk_join(st, js[0], lefts);
        let lefts1 = match right {
            Some(n) => lefts.push(n),
            None => lefts,
        };
        walk_join_list(st1, js.drop_first(), lefts1)
    }
}

/// Walks one FROM entry: the base relation, then its join chain.
pub open spec fn walk_table_with_joins(st: CollectorV, t: SqlTableWithJoins) -> CollectorV
    decreases t,
{
    let (st1, first) = walk_table_factor(st, t.relation);
    let lefts = match first {
        Some(n) => seq![n],
        None => Seq::<Seq<char>>::empty(),
    };
    walk_join_list(st1, t.joins@, lefts)
}

/// Walks the FROM list of a SELECT in order.
pub open spec fn walk_from_list(st: CollectorV, fs: Seq<SqlTableWithJoins>) -> CollectorV
    decreases fs,
{
    if fs.len() == 0 {
        st
    } else {
        walk_from_list(walk_table_with_joins(st, fs[0]), fs.drop_first())
    }
}

/// Walks one SELECT block: its table list, then its filter predicate.
/// Projection expressions contribute no usage.
pub open spec fn walk_select(st: CollectorV, sel: SqlSelect) -> CollectorV
    decreases sel,
{
    let st1 = walk_from_list(st, sel.from@);
    match sel.selection {
        Some(e) => walk_filter_expr(st1, e),
        None => st1,
    }
}

/// Walks a query body: a plain SELECT, a parenthesized subquery, or both
/// sides of a set operation.
pub open spec fn walk_set_expr(st: CollectorV, se: SqlSetExpr) -> CollectorV
    decreases se,
{
    match se {
        SqlSetExpr::Select(sel) => walk_select(st, *sel),
        SqlSetExpr::Query(q) => walk_query(st, *q),
        SqlSetExpr::SetOperation(l, r) => walk_set_expr(walk_set_expr(st, *l), *r),
        SqlSetExpr::Other => st,
    }
}

/// Walks one query: its body, then its ordering clauses.
pub open spec fn walk_query(st: CollectorV, q: SqlQuery) -> CollectorV
    decreases q,
{
    walk_order_list(walk_set_expr(st, q.body), q.order_by@)
}

/// The state every statement's walk starts from.
pub open spec fn collector_init() -> CollectorV {
    CollectorV { tables: Seq::empty(), aliases: Seq::empty(), pending: Seq::empty() }
}

/// The usage of one table within one statement: filter, join and order
/// columns, each in first-seen order, each free of ASCII-case-insensitive
/// duplicates.
#[verifier::ext_equal]
pub struct UsageV {
    pub filters: Seq<Seq<char>>,
    pub joins: Seq<Seq<char>>,
    pub orders: Seq<Seq<char>>,
}

/// Usage with no columns at all.
pub open spec fn empty_usage() -> UsageV {
    UsageV { filters: Seq::empty(), joins: Seq::empty(), orders: Seq::empty() }
}

/// Adds one column under the given usage kind, keeping the sequence free of
/// case-insensitive duplicates.
pub open spec fn usage_add(u: UsageV, name: Seq<char>, kind: ColumnKind) -> UsageV {
    match kind {
        ColumnKind::Filter => UsageV { filters: crate::text::push_unique_ci(u.filters, name), ..u },
        ColumnKind::Join => UsageV { joins: crate::text::push_unique_ci(u.joins, name), ..u },
        ColumnKind::Order => UsageV { orders: crate::text::push_unique_ci(u.orders, name), ..u },
    }
}

/// Looks a relation key up in the alias bindings; the binding recorded last
/// wins, as an overwriting map insert would have it.
pub open spec fn alias_lookup(aliases: Seq<(Seq<char>, Seq<char>)>, key: Seq<char>) -> Option<
    Seq<char>,
>
    decreases aliases.len(),
{
    if aliases.len() == 0 {
        None
    } else if aliases.last().0 == key {
        Some(aliases.last().1)
    } else {
        alias_lookup(aliases.drop_last(), key)
    }
}

/// The table an unqualified column reference falls to: the single table of
/// a single-table statement, nothing otherwise.
pub open spec fn default_table_of(tables: Seq<TableRefV>) -> Option<Seq<char>> {
    if tables.len() == 1 {
        Some(full_name_v(tables[0]))
    } else {
        None
    }
}

/// Resolves a column reference's relation qualifier to a table's full name:
/// a qualifier is looked up among the alias bindings, an absent qualifier
/// falls to the default table.
pub open spec fn resolve_relation(
    rel: Option<Seq<char>>,
    aliases: Seq<(Seq<char>, Seq<char>)>,
    deft: Option<Seq<char>>,
) -> Option<Seq<char>> {
    match rel {
        Some(r) => alias_lookup(aliases, r),
        None => deft,
    }
}

/// Adds one column to the usage record of table `t`, creating the record at
/// the end of the list when the table has none yet.
pub open spec fn upsert_usage(
    us: Seq<(Seq<char>, UsageV)>,
    t: Seq<char>,
    name: Seq<char>,
    kind: ColumnKind,
) -> Seq<(Seq<char>, UsageV)>
    decreases us.len(),
{
    if us.len() == 0 {
        seq![(t, usage_add(empty_usage(), name, kind))]
    } else if us[0].0 == t {
        seq![(us[0].0, usage_add(us[0].1, name, kind))] + us.drop_first()
    } else {
        seq![us[0]] + upsert_usage(us.drop_first(), t, name, kind)
    }
}

/// Attributes one pending column reference, dropping it when its qualifier
/// resolves to no table.
pub open spec fn apply_pending(
    us: Seq<(Seq<char>, UsageV)>,
    p: PendingV,
    aliases: Seq<(Seq<char>, Seq<char>)>,
    deft: Option<Seq<char>>,
) -> Seq<(Seq<char>, UsageV)> {
    match resolve_relation(p.relation, aliases, deft) {
        Some(t) => upsert_usage(us, t, p.name, p.kind),
        None => us,
    }
}

/// Attributes every pending column reference in discovery order.
pub open spec fn fold_pending(
    us: Seq<(Seq<char>, UsageV)>,
    ps: Seq<PendingV>,
    aliases: Seq<(Seq<char>, Seq<char>)>,
    deft: Option<Seq<char>>,
) -> Seq<(Seq<char>, UsageV)>
    decreases ps.len(),
{
    if ps.len() == 0 {
        us
    } else {
        fold_pending(apply_pending(us, ps[0], aliases, deft), ps.drop_first(), aliases, deft)
    }
}

/// The result of extracting one statement: its table list and one usage
/// record per table that received at least one attributed column.
#[verifier::ext_equal]
pub struct QueryUsageV {
    pub tables: Seq<TableRefV>,
    pub usage: Seq<(Seq<char>, UsageV)>,
}

/// Resolves a finished collector state into the statement's usage.
pub open spec fn usage_of_collector(st: CollectorV) -> QueryUsageV {
    QueryUsageV {
        tables: st.tables,
        usage: fold_pending(
            Seq::empty(),
            st.pending,
            st.aliases,
            default_table_of(st.tables),
        ),
    }
}

/// The usage extracted from one whole query.
pub open spec fn usage_of_query(q: SqlQuery) -> QueryUsageV {
    usage_of_collector(walk_query(collector_init(), q))
}

/// When table `t` already has a record, at first position `i`, adding a
/// column updates that record in place and moves nothing else.
pub proof fn lemma_upsert_found(
    us: Seq<(Seq<char>, UsageV)>,
    t: Seq<char>,
    name: Seq<char>,
    kind: ColumnKind,
    i: int,
)
    requires
        0 <= i < us.len(),
        us[i].0 == t,
        forall|j: int| 0 <= j < i ==> us[j].0 != t,
    ensures
        upsert_usage(us, t, name, kind) =~= us.update(
            i,
            (us[i].0, usage_add(us[i].1, name, kind)),
        ),
    decreases us.len(),
{
    if i == 0 {
        assert(upsert_usage(us, t, name, kind) =~= us.update(
            0,
            (us[0].0, usage_add(us[0].1, name, kind)),
        ));
    } else {
        lemma_upsert_found(us.drop_first(), t, name, kind, i - 1);
        assert(upsert_usage(us, t, name, kind) =~= us.update(
            i,
            (us[i].0, usage_add(us[i].1, name, kind)),
        ));
    }
}

/// When table `t` has no record yet, adding a column appends a fresh record
/// at the end and moves nothing else.
pub proof fn lemma_upsert_missing(
    us: Seq<(Seq<char>, UsageV)>,
    t: Seq<char>,
    name: Seq<char>,
    kind: ColumnKind,
)
    requires
        forall|j: int| 0 <= j < us.len() ==> us[j].0 != t,
    ensures
        upsert_usage(us, t, name, kind) =~= us.push((t, usage_add(empty_usage(), name, kind))),
    decreases us.len(),
{
    if us.len() == 0 {
    } else {
        lemma_upsert_missing(us.drop_first(), t, name, kind);
        assert(upsert_usage(us, t, name, kind) =~= us.push(
            (t, usage_add(empty_usage(), name, kind)),
        ));
    }
}

} // verus!
