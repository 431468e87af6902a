//! Extraction of per-table column usage from one parsed SQL statement.
//!
//! A [`QueryColumnCollector`] walks a statement's table list, join tree,
//! filter predicate and ordering clauses, recording alias bindings and
//! pending column references; [`QueryColumnCollector::into_usage`] then
//! attributes each reference to the table it unambiguously resolves to.
//! Every step is specified against the model in [`crate::query_spec`].

use vstd::prelude::*;
use vstd::string::StringExecFns;
use crate::query_spec::{alias_lookup, collector_init, column_ref_of, ColumnKind,
    lemma_upsert_found, lemma_upsert_missing, resolve_relation,
    CollectorV, default_table_of, empty_usage, fold_pending, full_name_v, PendingV, QueryUsageV,
    split_object_name, TableRefV, upsert_usage, usage_add, UsageV, usage_of_collector,
    usage_of_query, walk_filter_expr, walk_from_list, walk_join, walk_join_expr, walk_join_list,
    walk_order_list, walk_query, walk_select, walk_set_expr, walk_table_factor,
    walk_table_with_joins, walk_using, using_col, using_lefts, push_col};
use crate::parse::{parse_of, parse_sql_text};
use crate::sql_ast::{SqlBinOp, SqlExpr, SqlJoin, SqlJoinConstraint, SqlQuery, SqlSelect,
    SqlSelectItem, SqlSetExpr, SqlStatement, SqlTableFactor, SqlTableWithJoins};
use crate::text::{contains_ci, push_unique_ci, str_eq, str_eq_ci, view_opt, views_of};

verus! {

/// A reference to a base table: optional schema name and table name, kept
/// case-sensitively as they appeared in the statement text.
pub struct TableRef {
    pub schema: Option<String>,
    pub name: String,
}

impl View for TableRef {
    type V = TableRefV;

    open spec fn view(&self) -> TableRefV {
        TableRefV { schema: view_opt(self.schema), name: self.name@ }
    }
}

impl TableRef {
    /// The canonical full name: `schema.table` when the schema is known,
    /// else just the table name.
    pub fn full_name(&self) -> (r: String)
        ensures
            r@ == full_name_v(self@),
    {
        proof {
            reveal_strlit(".");
        }
        match &self.schema {
            Some(schema) => {
                let mut full = schema.clone();
                full.append(".");
                full.append(self.name.as_str());
                full
            },
            None => self.name.clone(),
        }
    }
}

/// The usage of one table within one statement: filter, join and order
/// columns, each in first-seen order, each free of case-insensitive
/// duplicates.
pub struct TableColumnUsage {
    pub filters: Vec<String>,
    pub joins: Vec<String>,
    pub orders: Vec<String>,
}

impl View for TableColumnUsage {
    type V = UsageV;

    open spec fn view(&self) -> UsageV {
        UsageV {
            filters: views_of(self.filters@),
            joins: views_of(self.joins@),
            orders: views_of(self.orders@),
        }
    }
}

impl TableColumnUsage {
    /// Usage with no columns at all.
    pub fn new() -> (r: Self)
        ensures
            r@ == empty_usage(),
    {
        TableColumnUsage { filters: Vec::new(), joins: Vec::new(), orders: Vec::new() }
    }
}

/// One table's usage record, keyed by the table's canonical full name.
pub struct TableUsageEntry {
    pub table: String,
    pub usage: TableColumnUsage,
}

impl View for TableUsageEntry {
    type V = (Seq<char>, UsageV);

    open spec fn view(&self) -> (Seq<char>, UsageV) {
        (self.table@, self.usage@)
    }
}

/// The extraction result for one statement: the table list and one usage
/// record per table that received at least one attributed column, in
/// first-touch order.
pub struct QueryColumnUsage {
    pub tables: Vec<TableRef>,
    pub usage_by_table: Vec<TableUsageEntry>,
}

/// The views of a sequence of table references.
pub open spec fn tables_view(ts: Seq<TableRef>) -> Seq<TableRefV> {
    ts.map_values(|t: TableRef| t@)
}

/// The views of a sequence of usage records.
pub open spec fn entries_view(es: Seq<TableUsageEntry>) -> Seq<(Seq<char>, UsageV)> {
    es.map_values(|e: TableUsageEntry| e@)
}

impl View for QueryColumnUsage {
    type V = QueryUsageV;

    open spec fn view(&self) -> QueryUsageV {
        QueryUsageV {
            tables: tables_view(self.tables@),
            usage: entries_view(self.usage_by_table@),
        }
    }
}

impl QueryColumnUsage {
    /// The usage record of the table with this exact full name, if any.
    pub fn usage_for<'a>(&'a self, table: &str) -> (r: Option<&'a TableColumnUsage>)
        ensures
            match r {
                Some(u) => exists|i: int|
                    0 <= i < self@.usage.len() && self@.usage[i].0 == table@ && u@
                        == self@.usage[i].1,
                None => forall|i: int| 0 <= i < self@.usage.len() ==> self@.usage[i].0 != table@,
            },
    {
        let mut i: usize = 0;
        while i < self.usage_by_table.len()
            invariant
                i <= self.usage_by_table.len(),
                forall|j: int| 0 <= j < i ==> self@.usage[j].0 != table@,
            decreases self.usage_by_table.len() - i,
        {
            if str_eq(self.usage_by_table[i].table.as_str(), table) {
                proof {
                    assert(self@.usage[i as int] == self.usage_by_table@[i as int]@);
                }
                return Some(&self.usage_by_table[i].usage);
            }
            i += 1;
        }
        None
    }
}

/// A column reference as written: optional relation qualifier and column
/// name.
pub struct ColumnRef {
    pub relation: Option<String>,
    pub name: String,
}

/// Splits a dot-separated object name into optional schema and table name.
pub fn parse_object_name(parts: &Vec<String>) -> (r: (Option<String>, String))
    ensures
        (view_opt(r.0), r.1@) == split_object_name(views_of(parts@)),
{
    if parts.len() == 0 {
        (None, String::new())
    } else if parts.len() == 1 {
        (None, parts[0].clone())
    } else {
        (Some(parts[parts.len() - 2].clone()), parts[parts.len() - 1].clone())
    }
}

/// The column reference denoted by an expression, if it is one.
pub fn column_ref_from_expr(expr: &SqlExpr) -> (r: Option<ColumnRef>)
    ensures
        match r {
            Some(cr) => column_ref_of(*expr) == Some((view_opt(cr.relation), cr.name@)),
            None => column_ref_of(*expr) is None,
        },
{
    match expr {
        SqlExpr::Column(parts) => {
            if parts.len() == 0 {
                None
            } else if parts.len() == 1 {
                Some(ColumnRef { relation: None, name: parts[0].clone() })
            } else if parts.len() == 2 {
                Some(ColumnRef { relation: Some(parts[0].clone()), name: parts[1].clone() })
            } else {
                proof {
                    reveal_strlit(".");
                }
                let mut rel = parts[parts.len() - 3].clone();
                rel.append(".");
                rel.append(parts[parts.len() - 2].as_str());
                Some(ColumnRef { relation: Some(rel), name: parts[parts.len() - 1].clone() })
            }
        },
        _ => None,
    }
}

/// Clones an optional string.
pub fn clone_opt(o: &Option<String>) -> (r: Option<String>)
    ensures
        view_opt(r) == view_opt(*o),
{
    match o {
        Some(s) => Some(s.clone()),
        None => None,
    }
}

/// A column reference waiting to be attributed to a table.
pub struct PendingColumn {
    pub relation: Option<String>,
    pub name: String,
    pub kind: ColumnKind,
}

impl View for PendingColumn {
    type V = PendingV;

    open spec fn view(&self) -> PendingV {
        PendingV { relation: view_opt(self.relation), name: self.name@, kind: self.kind }
    }
}

/// One alias binding: an in-query identifier and the canonical full name of
/// the table it stands for.
pub struct AliasBinding {
    pub name: String,
    pub target: String,
}

impl View for AliasBinding {
    type V = (Seq<char>, Seq<char>);

    open spec fn view(&self) -> (Seq<char>, Seq<char>) {
        (self.name@, self.target@)
    }
}

/// The mutable state built while walking one statement; consumed once into
/// a [`QueryColumnUsage`].  Its lifetime is scoped to exactly one statement.
pub struct QueryColumnCollector {
    pub tables: Vec<TableRef>,
    pub aliases: Vec<AliasBinding>,
    pub pending: Vec<PendingColumn>,
}

/// The views of a sequence of alias bindings.
pub open spec fn aliases_view(bs: Seq<AliasBinding>) -> Seq<(Seq<char>, Seq<char>)> {
    bs.map_values(|a: AliasBinding| a@)
}

/// The views of a sequence of pending column references.
pub open spec fn pendings_view(ps: Seq<PendingColumn>) -> Seq<PendingV> {
    ps.map_values(|p: PendingColumn| p@)
}

impl View for QueryColumnCollector {
    type V = CollectorV;

    open spec fn view(&self) -> CollectorV {
        CollectorV {
            tables: tables_view(self.tables@),
            aliases: aliases_view(self.aliases@),
            pending: pendings_view(self.pending@),
        }
    }
}

impl QueryColumnCollector {
    /// A collector with nothing recorded yet.
    pub fn new() -> (r: Self)
        ensures
            r@ == collector_init(),
    {
        let r = QueryColumnCollector { tables: Vec::new(), aliases: Vec::new(), pending: Vec::new() };
        proof {
            assert(r@ =~= collector_init());
        }
        r
    }

    /// Records the column reference denoted by `expr`, if any, under `kind`.
    pub fn push_column_if_applicable(&mut self, expr: &SqlExpr, kind: ColumnKind)
        ensures
            final(self)@ == push_col(old(self)@, *expr, kind),
    {
        match column_ref_from_expr(expr) {
            Some(column) => {
                self.pending.push(
                    PendingColumn { relation: column.relation, name: column.name, kind },
                );
                proof {
                    assert(self@ =~= push_col(old(self)@, *expr, kind));
                }
            },
            None => {},
        }
    }

    /// Walks a filter predicate, mining filter usage.
    pub fn collect_filter_expr(&mut self, expr: &SqlExpr)
        ensures
            final(self)@ == walk_filter_expr(old(self)@, *expr),
        decreases *expr,
    {
        match expr {
            SqlExpr::Binary(op, left, right) => match op {
                SqlBinOp::And | SqlBinOp::Or => {
                    self.collect_filter_expr(left);
                    self.collect_filter_expr(right);
                },
                SqlBinOp::Eq => {
                    self.push_column_if_applicable(left, ColumnKind::Filter);
                    self.push_column_if_applicable(right, ColumnKind::Filter);
                },
                SqlBinOp::Other => {},
            },
            SqlExpr::InList(target) => self.push_column_if_applicable(target, ColumnKind::Filter),
            SqlExpr::Between(target) => self.push_column_if_applicable(target, ColumnKind::Filter),
            SqlExpr::IsNull(target) => self.push_column_if_applicable(target, ColumnKind::Filter),
            SqlExpr::IsNotNull(target) => self.push_column_if_applicable(
                target,
                ColumnKind::Filter,
            ),
            SqlExpr::Nested(inner) => self.collect_filter_expr(inner),
            _ => {},
        }
    }

    /// Walks an `ON` predicate, mining join usage.
    pub fn collect_join_expr(&mut self, expr: &SqlExpr)
        ensures
            final(self)@ == walk_join_expr(old(self)@, *expr),
        decreases *expr,
    {
        match expr {
            SqlExpr::Binary(op, left, right) => match op {
                SqlBinOp::And | SqlBinOp::Or => {
                    self.collect_join_expr(left);
                    self.collect_join_expr(right);
                },
                SqlBinOp::Eq => {
                    self.push_column_if_applicable(left, ColumnKind::Join);
                    self.push_column_if_applicable(right, ColumnKind::Join);
                },
                SqlBinOp::Other => {},
            },
            SqlExpr::Nested(inner) => self.collect_join_expr(inner),
            _ => {},
        }
    }

    /// Records an ordering expression that is a column reference.
    pub fn collect_order_by(&mut self, order: &SqlExpr)
        ensures
            final(self)@ == push_col(old(self)@, *order, ColumnKind::Order),
    {
        self.push_column_if_applicable(order, ColumnKind::Order);
    }

    /// Walks a projection expression.  Projections contribute no usage; only
    /// parenthesized sub-expressions are descended into, for symmetry with
    /// the predicate walkers.
    pub fn collect_projection_expr(&mut self, expr: &SqlExpr)
        ensures
            final(self)@ == old(self)@,
        decreases *expr,
    {
        if let SqlExpr::Nested(inner) = expr {
            self.collect_projection_expr(inner);
        }
    }

    /// Walks one relation: registers a base table and hands back its full
    /// name, or recurses into a derived table or nested join.
    pub fn collect_table_factor(&mut self, table_factor: &SqlTableFactor) -> (r: Option<String>)
        ensures
            final(self)@ == walk_table_factor(old(self)@, *table_factor).0,
            view_opt(r) == walk_table_factor(old(self)@, *table_factor).1,
        decreases *table_factor,
    {
        match table_factor {
            SqlTableFactor::Table { name, alias } => {
                proof {
                    reveal_strlit(".");
                    assert("."@ =~= seq!['.']);
                }
                let (schema, tname) = parse_object_name(name);
                let table_ref = TableRef { schema: clone_opt(&schema), name: tname.clone() };
                let full = table_ref.full_name();
                self.tables.push(table_ref);
                self.aliases.push(AliasBinding { name: tname.clone(), target: full.clone() });
                if let Some(schema_name) = &schema {
                    let mut key = schema_name.clone();
                    key.append(".");
                    key.append(tname.as_str());
                    self.aliases.push(AliasBinding { name: key, target: full.clone() });
                }
                if let Some(alias_name) = alias {
                    self.aliases.push(
                        AliasBinding { name: alias_name.clone(), target: full.clone() },
                    );
                }
                proof {
                    let target = walk_table_factor(old(self)@, *table_factor);
                    assert(self@.tables =~~= target.0.tables);
                    assert(self@.aliases =~~= target.0.aliases);
                    assert(self@.pending =~~= target.0.pending);
                    assert(self@ =~~= target.0);
                }
                Some(full)
            },
            SqlTableFactor::Derived(subquery) => {
                self.collect_query(subquery);
                None
            },
            SqlTableFactor::NestedJoin(table_with_joins) => {
                self.collect_table_with_joins(table_with_joins);
                None
            },
            SqlTableFactor::Other => None,
        }
    }

    /// Walks one join: registers the joined relation, then mines its
    /// constraint.  `left_tables` holds the full names of the tables already
    /// registered on the left of this join.
    pub fn collect_join(&mut self, join: &SqlJoin, left_tables: &Vec<String>) -> (r: Option<
        String,
    >)
        ensures
            final(self)@ == walk_join(old(self)@, *join, views_of(left_tables@)).0,
            view_opt(r) == walk_join(old(self)@, *join, views_of(left_tables@)).1,
        decreases *join,
    {
        let right_table = self.collect_table_factor(&join.relation);
        match &join.constraint {
            SqlJoinConstraint::On(expr) => {
                self.collect_join_expr(expr);
            },
            SqlJoinConstraint::Using(columns) => {
                let ghost st1 = self@;
                let ghost colsv = views_of(columns@);
                let ghost leftsv = views_of(left_tables@);
                let ghost rightv = view_opt(right_table);
                proof {
                    assert(colsv.skip(0) =~= colsv);
                }
                let mut ci: usize = 0;
                while ci < columns.len()
                    invariant
                        ci <= columns.len(),
                        colsv == views_of(columns@),
                        leftsv == views_of(left_tables@),
                        rightv == view_opt(right_table),
                        walk_using(self@, colsv.skip(ci as int), leftsv, rightv) == walk_using(
                            st1,
                            colsv,
                            leftsv,
                            rightv,
                        ),
                    decreases columns.len() - ci,
                {
                    let ghost stc = self@;
                    proof {
                        assert(leftsv.skip(0) =~= leftsv);
                        assert(colsv[ci as int] == columns@[ci as int]@);
                    }
                    let mut li: usize = 0;
                    while li < left_tables.len()
                        invariant
                            li <= left_tables.len(),
                            ci < columns.len(),
                            colsv == views_of(columns@),
                            leftsv == views_of(left_tables@),
                            using_lefts(self@, colsv[ci as int], leftsv.skip(li as int))
                                == using_lefts(stc, colsv[ci as int], leftsv),
                        decreases left_tables.len() - li,
                    {
                        proof {
                            assert(leftsv.skip(li as int)[0] == leftsv[li as int]);
                            assert(leftsv.skip(li as int).drop_first() =~= leftsv.skip(
                                li as int + 1,
                            ));
                            assert(leftsv[li as int] == left_tables@[li as int]@);
                        }
                        let ghost pre = self@;
                        self.pending.push(
                            PendingColumn {
                                relation: Some(left_tables[li].clone()),
                                name: columns[ci].clone(),
                                kind: ColumnKind::Join,
                            },
                        );
                        proof {
                            assert(self@ =~= CollectorV {
                                pending: pre.pending.push(
                                    PendingV {
                                        relation: Some(leftsv[li as int]),
                                        name: colsv[ci as int],
                                        kind: ColumnKind::Join,
                                    },
                                ),
                                ..pre
                            });
                        }
                        li += 1;
                    }
                    proof {
                        assert(leftsv.skip(left_tables@.len() as int)
                            =~= Seq::<Seq<char>>::empty());
                    }
                    if let Some(table) = &right_table {
                        self.pending.push(
                            PendingColumn {
                                relation: Some(table.clone()),
                                name: columns[ci].clone(),
                                kind: ColumnKind::Join,
                            },
                        );
                    }
                    proof {
                        assert(self@ =~= using_col(stc, colsv[ci as int], leftsv, rightv));
                        assert(colsv.skip(ci as int)[0] == colsv[ci as int]);
                        assert(colsv.skip(ci as int).drop_first() =~= colsv.skip(ci as int + 1));
                    }
                    ci += 1;
                }
                proof {
                    assert(colsv.skip(columns@.len() as int) =~= Seq::<Seq<char>>::empty());
                }
            },
            SqlJoinConstraint::Other => {},
        }
        right_table
    }

    /// Walks one FROM entry: the base relation, then each join in the
    /// chain, carrying the names of the tables registered so far.
    pub fn collect_table_with_joins(&mut self, table: &SqlTableWithJoins)
        ensures
            final(self)@ == walk_table_with_joins(old(self)@, *table),
        decreases *table,
    {
        let mut left_tables: Vec<String> = Vec::new();
        let first = self.collect_table_factor(&table.relation);
        let ghost fv = view_opt(first);
        if let Some(table_name) = first {
            left_tables.push(table_name);
        }
        proof {
            assert(views_of(left_tables@) =~= (match fv {
                Some(n) => seq![n],
                None => Seq::<Seq<char>>::empty(),
            }));
        }
        let ghost st1 = self@;
        let ghost js = table.joins@;
        let ghost lefts0 = views_of(left_tables@);
        proof {
            assert(js.skip(0) =~= js);
        }
        let mut i: usize = 0;
        while i < table.joins.len()
            invariant
                i <= table.joins.len(),
                js == table.joins@,
                walk_join_list(self@, js.skip(i as int), views_of(left_tables@))
                    == walk_join_list(st1, js, lefts0),
            decreases table.joins.len() - i,
        {
            proof {
                assert(js.skip(i as int)[0] == js[i as int]);
                assert(js.skip(i as int).drop_first() =~= js.skip(i as int + 1));
            }
            let ghost lefts_before = views_of(left_tables@);
            let right_table = self.collect_join(&table.joins[i], &left_tables);
            let ghost rv = view_opt(right_table);
            if let Some(table_name) = right_table {
                left_tables.push(table_name);
                proof {
                    assert(views_of(left_tables@) =~= lefts_before.push(rv->0));
                }
            }
            i += 1;
        }
        proof {
            assert(js.skip(js.len() as int) =~= Seq::<SqlJoin>::empty());
        }
    }

    /// Walks one SELECT block: its table list, its filter predicate, then
    /// its projection list.
    pub fn collect_select(&mut self, select: &SqlSelect)
        ensures
            final(self)@ == walk_select(old(self)@, *select),
        decreases *select,
    {
        let ghost fs = select.from@;
        let ghost st0 = self@;
        proof {
            assert(fs.skip(0) =~= fs);
        }
        let mut i: usize = 0;
        while i < select.from.len()
            invariant
                i <= select.from.len(),
                fs == select.from@,
                walk_from_list(self@, fs.skip(i as int)) == walk_from_list(st0, fs),
            decreases select.from.len() - i,
        {
            proof {
                assert(fs.skip(i as int)[0] == fs[i as int]);
                assert(fs.skip(i as int).drop_first() =~= fs.skip(i as int + 1));
            }
            self.collect_table_with_joins(&select.from[i]);
            i += 1;
        }
        proof {
            assert(fs.skip(fs.len() as int) =~= Seq::<SqlTableWithJoins>::empty());
        }
        if let Some(selection) = &select.selection {
            self.collect_filter_expr(selection);
        }
        let ghost st2 = self@;
        let mut j: usize = 0;
        while j < select.projection.len()
            invariant
                j <= select.projection.len(),
                self@ == st2,
            decreases select.projection.len() - j,
        {
            if let SqlSelectItem::Expr(expr) = &select.projection[j] {
                self.collect_projection_expr(expr);
            }
            j += 1;
        }
    }

    /// Walks a query body.
    pub fn collect_set_expr(&mut self, set_expr: &SqlSetExpr)
        ensures
            final(self)@ == walk_set_expr(old(self)@, *set_expr),
        decreases *set_expr,
    {
        match set_expr {
            SqlSetExpr::Select(select) => self.collect_select(select),
            SqlSetExpr::Query(query) => self.collect_query(query),
            SqlSetExpr::SetOperation(left, right) => {
                self.collect_set_expr(left);
                self.collect_set_expr(right);
            },
            SqlSetExpr::Other => {},
        }
    }

    /// Walks one query: its body, then its ordering clauses.
    pub fn collect_query(&mut self, query: &SqlQuery)
        ensures
            final(self)@ == walk_query(old(self)@, *query),
        decreases *query,
    {
        self.collect_set_expr(&query.body);
        let ghost es = query.order_by@;
        let ghost st1 = self@;
        proof {
            assert(es.skip(0) =~= es);
        }
        let mut i: usize = 0;
        while i < query.order_by.len()
            invariant
                i <= query.order_by.len(),
                es == query.order_by@,
                walk_order_list(self@, es.skip(i as int)) == walk_order_list(st1, es),
            decreases query.order_by.len() - i,
        {
            proof {
                assert(es.skip(i as int)[0] == es[i as int]);
                assert(es.skip(i as int).drop_first() =~= es.skip(i as int + 1));
            }
            self.collect_order_by(&query.order_by[i]);
            i += 1;
        }
        proof {
            assert(es.skip(es.len() as int) =~= Seq::<SqlExpr>::empty());
        }
    }
}

/// Appends a column name unless a case-insensitive equal is already present.
pub fn push_unique(values: &mut Vec<String>, value: &str)
    ensures
        views_of(final(values)@) == push_unique_ci(views_of(old(values)@), value@),
{
    let mut i: usize = 0;
    while i < values.len()
        invariant
            i <= values.len(),
            *values == *old(values),
            forall|j: int| 0 <= j < i ==> !crate::text::eq_ci(views_of(values@)[j], value@),
        decreases values.len() - i,
    {
        if str_eq_ci(values[i].as_str(), value) {
            proof {
                assert(views_of(values@)[i as int] == values@[i as int]@);
                assert(contains_ci(views_of(values@), value@));
            }
            return ;
        }
        i += 1;
    }
    proof {
        assert(!contains_ci(views_of(values@), value@));
    }
    values.push(value.to_owned());
    proof {
        assert(views_of(values@) =~= push_unique_ci(views_of(old(values)@), value@));
    }
}

/// Resolves a column reference's relation qualifier to a table's full name:
/// a qualifier is looked up among the alias bindings, where the binding
/// recorded last wins; an absent qualifier falls to the default table.
pub fn resolve_table_name(
    relation: &Option<String>,
    aliases: &Vec<AliasBinding>,
    default_table: &Option<String>,
) -> (r: Option<String>)
    ensures
        view_opt(r) == resolve_relation(
            view_opt(*relation),
            aliases_view(aliases@),
            view_opt(*default_table),
        ),
{
    match relation {
        Some(rel) => {
            let ghost av = aliases_view(aliases@);
            proof {
                assert(av.take(av.len() as int) =~= av);
            }
            let mut i: usize = aliases.len();
            while i > 0
                invariant
                    i <= aliases.len(),
                    av == aliases_view(aliases@),
                    view_opt(*relation) == Some(rel@),
                    alias_lookup(av, rel@) == alias_lookup(av.take(i as int), rel@),
                decreases i,
            {
                i -= 1;
                proof {
                    assert(av.take(i as int + 1).last() == av[i as int]);
                    assert(av.take(i as int + 1).drop_last() =~= av.take(i as int));
                    assert(av[i as int] == aliases@[i as int]@);
                }
                if str_eq(aliases[i].name.as_str(), rel) {
                    proof {
                        assert(av.take(i as int + 1).len() == i as int + 1);
                        assert(av.take(i as int + 1).last().0 == rel@);
                        assert(alias_lookup(av.take(i as int + 1), rel@) == Some(av[i as int].1));
                        assert(alias_lookup(av, rel@) == Some(aliases@[i as int]@.1));
                    }
                    return Some(aliases[i].target.clone());
                }
            }
            proof {
                assert(av.take(0) =~= Seq::<(Seq<char>, Seq<char>)>::empty());
            }
            None
        },
        None => clone_opt(default_table),
    }
}

/// Adds one column to the usage record of `table`, creating the record at
/// the end of the list when the table has none yet.
pub fn upsert_entry(
    entries: &mut Vec<TableUsageEntry>,
    table: String,
    name: &str,
    kind: ColumnKind,
)
    ensures
        entries_view(final(entries)@) == upsert_usage(
            entries_view(old(entries)@),
            table@,
            name@,
            kind,
        ),
{
    let ghost before = entries_view(entries@);
    let mut i: usize = 0;
    while i < entries.len()
        invariant
            i <= entries.len(),
            *entries == *old(entries),
            before == entries_view(entries@),
            forall|j: int| 0 <= j < i ==> entries_view(entries@)[j].0 != table@,
        decreases entries.len() - i,
    {
        proof {
            assert(entries_view(entries@)[i as int] == entries@[i as int]@);
        }
        if str_eq(entries[i].table.as_str(), table.as_str()) {
            let mut entry = entries.remove(i);
            match kind {
                ColumnKind::Filter => push_unique(&mut entry.usage.filters, name),
                ColumnKind::Join => push_unique(&mut entry.usage.joins, name),
                ColumnKind::Order => push_unique(&mut entry.usage.orders, name),
            }
            entries.insert(i, entry);
            proof {
                lemma_upsert_found(before, table@, name@, kind, i as int);
                assert(entries_view(entries@) =~~= before.update(
                    i as int,
                    (before[i as int].0, usage_add(before[i as int].1, name@, kind)),
                ));
            }
            return ;
        }
        i += 1;
    }
    let mut usage = TableColumnUsage::new();
    match kind {
        ColumnKind::Filter => push_unique(&mut usage.filters, name),
        ColumnKind::Join => push_unique(&mut usage.joins, name),
        ColumnKind::Order => push_unique(&mut usage.orders, name),
    }
    entries.push(TableUsageEntry { table, usage });
    proof {
        lemma_upsert_missing(before, table@, name@, kind);
        assert(entries_view(entries@) =~~= before.push(
            (table@, usage_add(empty_usage(), name@, kind)),
        ));
    }
}

impl QueryColumnCollector {
    /// Resolves every pending column reference against the recorded alias
    /// bindings and folds each into the usage record of the table it falls
    /// to, consuming the collector.
    pub fn into_usage(self) -> (r: QueryColumnUsage)
        ensures
            r@ == usage_of_collector(self@),
    {
        let ghost sv = self@;
        let default_table: Option<String> = if self.tables.len() == 1 {
            proof {
                assert(tables_view(self.tables@)[0] == self.tables@[0]@);
            }
            Some(self.tables[0].full_name())
        } else {
            None
        };
        let ghost deft = view_opt(default_table);
        proof {
            assert(deft == default_table_of(sv.tables));
        }
        let mut usage_by_table: Vec<TableUsageEntry> = Vec::new();
        proof {
            assert(entries_view(usage_by_table@) =~= Seq::<(Seq<char>, UsageV)>::empty());
            assert(sv.pending.skip(0) =~= sv.pending);
        }
        let mut i: usize = 0;
        while i < self.pending.len()
            invariant
                i <= self.pending.len(),
                sv == self@,
                deft == view_opt(default_table),
                fold_pending(entries_view(usage_by_table@), sv.pending.skip(i as int), sv.aliases,
                    deft) == fold_pending(Seq::empty(), sv.pending, sv.aliases, deft),
            decreases self.pending.len() - i,
        {
            proof {
                assert(sv.pending.skip(i as int)[0] == sv.pending[i as int]);
                assert(sv.pending.skip(i as int).drop_first() =~= sv.pending.skip(i as int + 1));
                assert(sv.pending[i as int] == self.pending@[i as int]@);
            }
            let p = &self.pending[i];
            let resolved: Option<String> = resolve_table_name(
                &p.relation,
                &self.aliases,
                &default_table,
            );
            if let Some(table_name) = resolved {
                upsert_entry(&mut usage_by_table, table_name, p.name.as_str(), p.kind);
            }
            i += 1;
        }
        proof {
            assert(sv.pending.skip(sv.pending.len() as int) =~= Seq::<PendingV>::empty());
        }
        QueryColumnUsage { tables: self.tables, usage_by_table }
    }
}


/// Why one statement contributed no usage: its text failed to parse under
/// the expected SQL dialect, or it parsed but is not a single read query.
#[derive(Debug, Clone, Copy, PartialEq, Eq, Structural)]
pub enum QueryParseError {
    Syntax,
    Unsupported,
}

/// Parses one statement's text and extracts its per-table column usage.
///
/// Exactly one top-level read query is accepted: malformed text is a syntax
/// failure, and an empty batch, several statements, or any other statement
/// kind is an unsupported statement.  Both failures are recoverable; the
/// caller counts them and moves on.
pub fn parse_query_columns(query: &str) -> (r: Result<QueryColumnUsage, QueryParseError>)
    ensures
        match parse_of(query@) {
            None => r == Err::<QueryColumnUsage, QueryParseError>(QueryParseError::Syntax),
            Some(stmts) => if stmts.len() == 1 && stmts[0] is Query {
                &&& r is Ok
                &&& r->Ok_0@ == usage_of_query(stmts[0]->Query_0)
            } else {
                r == Err::<QueryColumnUsage, QueryParseError>(QueryParseError::Unsupported)
            },
        },
{
    match parse_sql_text(query) {
        None => Err(QueryParseError::Syntax),
        Some(statements) => {
            if statements.len() != 1 {
                Err(QueryParseError::Unsupported)
            } else {
                match &statements[0] {
                    SqlStatement::Query(q) => {
                        let mut collector = QueryColumnCollector::new();
                        collector.collect_query(q);
                        Ok(collector.into_usage())
                    },
                    SqlStatement::Other => Err(QueryParseError::Unsupported),
                }
            }
        },
    }
}

} // verus!
