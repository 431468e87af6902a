//! The laws the library states about itself: how extraction attributes
//! columns for the canonical statement shapes, when coverage suppresses a
//! candidate, and that deduplication does not depend on the order in which
//! colliding candidates arrive.

use vstd::prelude::*;
use crate::query_spec::{alias_lookup, apply_pending, collector_init, ColumnKind, CollectorV,
    default_table_of, fold_pending, full_name_v, PendingV,
    split_object_name, TableRefV, UsageV, usage_of_query, walk_filter_expr,
    walk_from_list, walk_join_list, walk_order_list, walk_query, walk_select, walk_set_expr,
    walk_table_factor, walk_table_with_joins};
use crate::sql_ast::{SqlBinOp, SqlExpr, SqlJoin, SqlJoinConstraint, SqlQuery,
    SqlSetExpr, SqlTableFactor, SqlTableWithJoins};
use crate::text::{contains_ci, eq_ci, views_of};
use crate::workload::{candidate_columns, candidate_of, CandV, CatalogV, covered_spec, dedup_insert,
    displaces, find_table, resolved_of, same_cand_key};

verus! {

/// An expression that is exactly the one-part column `name`.
pub open spec fn is_bare_column(e: SqlExpr, name: String) -> bool {
    e matches SqlExpr::Column(parts) && parts@ == seq![name]
}

/// A query of the shape `SELECT ... FROM <table> WHERE <filter> = <rhs>
/// ORDER BY <order>`: one plain base table without joins, one equality
/// whose left side is the bare filter column and whose right side is no
/// column reference, and one bare ordering column.
pub open spec fn single_filter_order_shape(
    q: SqlQuery,
    tname: String,
    filter_col: String,
    rhs: SqlExpr,
    order_col: String,
) -> bool {
    &&& q.body matches SqlSetExpr::Select(sel) && {
        &&& sel.from@.len() == 1
        &&& sel.from@[0].joins@.len() == 0
        &&& sel.from@[0].relation matches SqlTableFactor::Table { name, alias } && name@ == seq![
            tname,
        ] && alias is None
        &&& sel.selection matches Some(w) && w matches SqlExpr::Binary(op, l, r) && op
            == SqlBinOp::Eq && is_bare_column(*l, filter_col) && *r == rhs
    }
    &&& crate::query_spec::column_ref_of(rhs) is None
    &&& q.order_by@.len() == 1
    &&& is_bare_column(q.order_by@[0], order_col)
}

/// For every single-table statement with one equality filter and one
/// ordering column, the table's usage holds exactly the filter column as
/// filter usage and the ordering column as order usage, and the candidate
/// column list is the filter column followed by the ordering column.
pub proof fn lemma_single_table_filter_order(
    q: SqlQuery,
    tname: String,
    filter_col: String,
    rhs: SqlExpr,
    order_col: String,
)
    requires
        single_filter_order_shape(q, tname, filter_col, rhs, order_col),
        !eq_ci(filter_col@, order_col@),
    ensures
        usage_of_query(q).tables =~= seq![TableRefV { schema: None, name: tname@ }],
        usage_of_query(q).usage =~~= seq![
            (
                tname@,
                UsageV { filters: seq![filter_col@], joins: Seq::empty(), orders: seq![order_col@] },
            ),
        ],
        candidate_columns(usage_of_query(q).usage[0].1) =~= seq![filter_col@, order_col@],
{
    let sel = q.body->Select_0;
    let tf = sel.from@[0].relation;
    let init = collector_init();

    // Registering the single base table.
    let name = tf->Table_name;
    assert(views_of(name@) =~= seq![tname@]);
    let tr = TableRefV { schema: None, name: tname@ };
    assert(split_object_name(views_of(name@)) == (None::<Seq<char>>, tname@));
    assert(full_name_v(tr) == tname@);
    let st1 = walk_table_factor(init, tf).0;
    assert(st1 =~~= CollectorV {
        tables: seq![tr],
        aliases: seq![(tname@, tname@)],
        pending: Seq::empty(),
    });
    assert(walk_table_factor(init, tf).1 == Some(tname@));

    // The FROM list is that one table with no joins.
    assert(sel.from@[0].joins@ =~= Seq::<SqlJoin>::empty());
    assert(walk_join_list(st1, sel.from@[0].joins@, seq![tname@]) == st1);
    assert(walk_table_with_joins(init, sel.from@[0]) == st1);
    assert(sel.from@.drop_first() =~= Seq::<SqlTableWithJoins>::empty());
    assert(walk_from_list(st1, Seq::<SqlTableWithJoins>::empty()) == st1);
    assert(walk_from_list(init, sel.from@) == st1);

    // The filter predicate contributes one pending filter column.
    let w = sel.selection->0;
    let l = w->Binary_1;
    let r = w->Binary_2;
    assert(views_of(l->Column_0@) =~= seq![filter_col@]);
    assert(crate::query_spec::column_ref_of(*l) == Some(
        (None::<Seq<char>>, filter_col@),
    ));
    let pf = PendingV { relation: None, name: filter_col@, kind: ColumnKind::Filter };
    let st2 = walk_filter_expr(st1, w);
    assert(st2 =~~= CollectorV {
        tables: seq![tr],
        aliases: seq![(tname@, tname@)],
        pending: seq![pf],
    });
    assert(walk_select(init, *sel) == st2);
    assert(walk_set_expr(init, q.body) == st2);

    // The ordering clause contributes one pending order column.
    let oe = q.order_by@[0];
    assert(views_of(oe->Column_0@) =~= seq![order_col@]);
    assert(crate::query_spec::column_ref_of(oe) == Some(
        (None::<Seq<char>>, order_col@),
    ));
    let po = PendingV { relation: None, name: order_col@, kind: ColumnKind::Order };
    assert(q.order_by@.drop_first() =~= Seq::<SqlExpr>::empty());
    let st2b = crate::query_spec::push_col(st2, oe, ColumnKind::Order);
    assert(walk_order_list(st2b, Seq::<SqlExpr>::empty()) == st2b);
    let st3 = walk_query(init, q);
    assert(st3 == st2b);
    assert(st3 =~~= CollectorV {
        tables: seq![tr],
        aliases: seq![(tname@, tname@)],
        pending: seq![pf, po],
    });

    // Both pending columns fall to the single table, in order.
    assert(default_table_of(st3.tables) == Some(tname@));
    let u1 = UsageV { filters: seq![filter_col@], joins: Seq::empty(), orders: Seq::empty() };
    assert(!contains_ci(Seq::empty(), filter_col@));
    assert(apply_pending(Seq::empty(), pf, st3.aliases, Some(tname@)) =~~= seq![(tname@, u1)]);
    let u2 = UsageV { filters: seq![filter_col@], joins: Seq::empty(), orders: seq![order_col@] };
    assert(!contains_ci(Seq::empty(), order_col@));
    assert(apply_pending(seq![(tname@, u1)], po, st3.aliases, Some(tname@)) =~~= seq![
        (tname@, u2),
    ]);
    assert(seq![pf, po].drop_first() =~= seq![po]);
    assert(seq![po].drop_first() =~= Seq::<PendingV>::empty());
    let us1 = apply_pending(Seq::empty(), pf, st3.aliases, Some(tname@));
    let us2 = apply_pending(us1, po, st3.aliases, Some(tname@));
    assert(fold_pending(us2, Seq::<PendingV>::empty(), st3.aliases, Some(tname@)) == us2);
    assert(fold_pending(us1, seq![po], st3.aliases, Some(tname@)) == us2);
    assert(fold_pending(Seq::empty(), seq![pf, po], st3.aliases, Some(tname@)) == us2);
    assert(usage_of_query(q).usage =~~= seq![(tname@, u2)]);

    // The candidate columns: the filter column, then the order column.
    assert(!contains_ci(seq![filter_col@], order_col@)) by {
        assert(forall|i: int| 0 <= i < 1 ==> !eq_ci(seq![filter_col@][i], order_col@));
    }
    assert(crate::workload::append_unique_ci(Seq::empty(), seq![filter_col@]) =~~= seq![
        filter_col@,
    ]) by {
        assert(seq![filter_col@].drop_first() =~= Seq::<Seq<char>>::empty());
        assert(crate::text::push_unique_ci(Seq::empty(), filter_col@) =~= seq![filter_col@]);
        assert(crate::workload::append_unique_ci(seq![filter_col@],
            Seq::<Seq<char>>::empty()) == seq![filter_col@]);
    }
    assert(crate::workload::append_unique_ci(seq![filter_col@], Seq::empty()) == seq![
        filter_col@,
    ]);
    assert(crate::workload::append_unique_ci(seq![filter_col@], seq![order_col@]) =~~= seq![
        filter_col@,
        order_col@,
    ]) by {
        assert(seq![order_col@].drop_first() =~= Seq::<Seq<char>>::empty());
        assert(crate::text::push_unique_ci(seq![filter_col@], order_col@) =~= seq![
            filter_col@,
            order_col@,
        ]);
        assert(crate::workload::append_unique_ci(seq![filter_col@, order_col@],
            Seq::<Seq<char>>::empty()) == seq![filter_col@, order_col@]);
    }
    assert(candidate_columns(u2) =~= seq![filter_col@, order_col@]);
}

/// A query of the shape `SELECT ... FROM <t1> <a1> JOIN <t2> <a2> USING
/// (<col>)`: two aliased base tables joined on one `USING` column, with no
/// filter and no ordering clause.
pub open spec fn two_table_using_shape(
    q: SqlQuery,
    t1: String,
    a1: String,
    t2: String,
    a2: String,
    col: String,
) -> bool {
    &&& q.body matches SqlSetExpr::Select(sel) && {
        &&& sel.from@.len() == 1
        &&& sel.from@[0].relation matches SqlTableFactor::Table { name, alias } && name@ == seq![
            t1,
        ] && alias == Some(a1)
        &&& sel.from@[0].joins@.len() == 1
        &&& sel.from@[0].joins@[0].relation matches SqlTableFactor::Table { name, alias } && name@
            == seq![t2] && alias == Some(a2)
        &&& sel.from@[0].joins@[0].constraint matches SqlJoinConstraint::Using(cols) && cols@
            == seq![col]
        &&& sel.selection is None
    }
    &&& q.order_by@.len() == 0
}

/// A `USING` column is attributed to both participating tables' join usage:
/// for the two-table join, each table's record holds exactly the `USING`
/// column as join usage.  The joined table's name and alias must not
/// collide with the first table's name, since one flat alias scope lets a
/// later binding shadow an earlier one.
pub proof fn lemma_using_attributes_both_tables(
    q: SqlQuery,
    t1: String,
    a1: String,
    t2: String,
    a2: String,
    col: String,
)
    requires
        two_table_using_shape(q, t1, a1, t2, a2, col),
        t1@ != t2@,
        t1@ != a2@,
    ensures
        usage_of_query(q).tables =~= seq![
            TableRefV { schema: None, name: t1@ },
            TableRefV { schema: None, name: t2@ },
        ],
        usage_of_query(q).usage =~~= seq![
            (t1@, UsageV { filters: Seq::empty(), joins: seq![col@], orders: Seq::empty() }),
            (t2@, UsageV { filters: Seq::empty(), joins: seq![col@], orders: Seq::empty() }),
        ],
{
    let sel = q.body->Select_0;
    let twj = sel.from@[0];
    let join = twj.joins@[0];
    let init = collector_init();
    let tr1 = TableRefV { schema: None, name: t1@ };
    let tr2 = TableRefV { schema: None, name: t2@ };

    // Registering the first table and its alias.
    assert(views_of(twj.relation->Table_name@) =~= seq![t1@]);
    assert(full_name_v(tr1) == t1@);
    let st1 = walk_table_factor(init, twj.relation).0;
    assert(st1 =~~= CollectorV {
        tables: seq![tr1],
        aliases: seq![(t1@, t1@), (a1@, t1@)],
        pending: Seq::empty(),
    });
    assert(walk_table_factor(init, twj.relation).1 == Some(t1@));

    // Registering the joined table and its alias.
    assert(views_of(join.relation->Table_name@) =~= seq![t2@]);
    assert(full_name_v(tr2) == t2@);
    let aliases = seq![(t1@, t1@), (a1@, t1@), (t2@, t2@), (a2@, t2@)];
    let st2 = walk_table_factor(st1, join.relation).0;
    assert(st2 =~~= CollectorV {
        tables: seq![tr1, tr2],
        aliases,
        pending: Seq::empty(),
    });
    assert(walk_table_factor(st1, join.relation).1 == Some(t2@));

    // The `USING` column is recorded once for each side of the join.
    let p1 = PendingV { relation: Some(t1@), name: col@, kind: ColumnKind::Join };
    let p2 = PendingV { relation: Some(t2@), name: col@, kind: ColumnKind::Join };
    assert(views_of(join.constraint->Using_0@) =~= seq![col@]);
    let st2a = crate::query_spec::using_lefts(st2, col@, seq![t1@]);
    assert(seq![t1@].drop_first() =~= Seq::<Seq<char>>::empty());
    assert(st2a =~~= CollectorV { tables: seq![tr1, tr2], aliases, pending: seq![p1] }) by {
        assert(crate::query_spec::using_lefts(
            CollectorV { tables: seq![tr1, tr2], aliases, pending: seq![p1] },
            col@,
            Seq::<Seq<char>>::empty(),
        ) == CollectorV { tables: seq![tr1, tr2], aliases, pending: seq![p1] });
    }
    let st3 = crate::query_spec::using_col(st2, col@, seq![t1@], Some(t2@));
    assert(st3 =~~= CollectorV { tables: seq![tr1, tr2], aliases, pending: seq![p1, p2] });
    assert(seq![col@].drop_first() =~= Seq::<Seq<char>>::empty());
    assert(crate::query_spec::walk_using(st3, Seq::<Seq<char>>::empty(), seq![t1@], Some(t2@))
        == st3);
    assert(crate::query_spec::walk_using(st2, seq![col@], seq![t1@], Some(t2@)) == st3);
    assert(crate::query_spec::walk_join(st1, join, seq![t1@]).0 == st3);
    assert(crate::query_spec::walk_join(st1, join, seq![t1@]).1 == Some(t2@));

    // The join chain, the FROM list, and the whole query end in that state.
    assert(twj.joins@.drop_first() =~= Seq::<SqlJoin>::empty());
    assert(seq![t1@].push(t2@) =~= seq![t1@, t2@]);
    assert(walk_join_list(st3, Seq::<SqlJoin>::empty(), seq![t1@].push(t2@)) == st3);
    assert(walk_join_list(st1, twj.joins@, seq![t1@]) == st3);
    assert(walk_table_with_joins(init, twj) == st3);
    assert(sel.from@.drop_first() =~= Seq::<SqlTableWithJoins>::empty());
    assert(walk_from_list(st3, Seq::<SqlTableWithJoins>::empty()) == st3);
    assert(walk_from_list(init, sel.from@) == st3);
    assert(walk_select(init, *sel) == st3);
    assert(q.order_by@ =~= Seq::<SqlExpr>::empty());
    assert(walk_query(init, q) == st3);

    // Each qualifier resolves to its own table, later bindings shadowing
    // earlier ones notwithstanding.
    assert(aliases.drop_last() =~= seq![(t1@, t1@), (a1@, t1@), (t2@, t2@)]);
    assert(seq![(t1@, t1@), (a1@, t1@), (t2@, t2@)].drop_last() =~= seq![(t1@, t1@), (a1@, t1@)]);
    assert(seq![(t1@, t1@), (a1@, t1@)].drop_last() =~= seq![(t1@, t1@)]);
    assert(alias_lookup(seq![(t1@, t1@)], t1@) == Some(t1@));
    assert(alias_lookup(seq![(t1@, t1@), (a1@, t1@)], t1@) == Some(t1@));
    assert(alias_lookup(seq![(t1@, t1@), (a1@, t1@), (t2@, t2@)], t1@) == Some(t1@));
    assert(alias_lookup(aliases, t1@) == Some(t1@));
    assert(alias_lookup(seq![(t1@, t1@), (a1@, t1@), (t2@, t2@)], t2@) == Some(t2@));
    assert(alias_lookup(aliases, t2@) == Some(t2@));

    // Each side's record gains the column as join usage, in join order.
    let u = UsageV { filters: Seq::empty(), joins: seq![col@], orders: Seq::empty() };
    let deft = default_table_of(st3.tables);
    assert(!contains_ci(Seq::empty(), col@));
    let us1 = apply_pending(Seq::empty(), p1, st3.aliases, deft);
    assert(us1 =~~= seq![(t1@, u)]);
    let us2 = apply_pending(us1, p2, st3.aliases, deft);
    assert(us1.drop_first() =~= Seq::<(Seq<char>, UsageV)>::empty());
    assert(crate::query_spec::upsert_usage(Seq::empty(), t2@, col@, ColumnKind::Join) =~~= seq![
        (t2@, u),
    ]);
    assert(us2 =~~= seq![(t1@, u), (t2@, u)]);
    assert(seq![p1, p2].drop_first() =~= seq![p2]);
    assert(seq![p2].drop_first() =~= Seq::<PendingV>::empty());
    assert(fold_pending(us2, Seq::<PendingV>::empty(), st3.aliases, deft) == us2);
    assert(fold_pending(us1, seq![p2], st3.aliases, deft) == us2);
    assert(fold_pending(Seq::empty(), seq![p1, p2], st3.aliases, deft) == us2);
    assert(usage_of_query(q).usage =~~= seq![(t1@, u), (t2@, u)]);
}

/// In a statement that references more than one table, an unqualified
/// column reference is attributed to no table: its resolution falls to the
/// default table, and a multi-table statement has none.
pub proof fn lemma_unqualified_dropped_with_many_tables(
    us: Seq<(Seq<char>, UsageV)>,
    name: Seq<char>,
    kind: ColumnKind,
    st: CollectorV,
)
    requires
        st.tables.len() != 1,
    ensures
        apply_pending(us, PendingV { relation: None, name, kind }, st.aliases,
            default_table_of(st.tables)) == us,
{
    assert(default_table_of(st.tables) is None);
}

/// A column reference whose qualifier resolves through the alias bindings
/// to one table is attributed to that table and to no other: exactly that
/// table's record changes.
pub proof fn lemma_qualified_attribution(
    us: Seq<(Seq<char>, UsageV)>,
    rel: Seq<char>,
    name: Seq<char>,
    kind: ColumnKind,
    aliases: Seq<(Seq<char>, Seq<char>)>,
    deft: Option<Seq<char>>,
    t: Seq<char>,
)
    requires
        alias_lookup(aliases, rel) == Some(t),
    ensures
        apply_pending(us, PendingV { relation: Some(rel), name, kind }, aliases, deft)
            == crate::query_spec::upsert_usage(us, t, name, kind),
        forall|i: int|
            0 <= i < us.len() && us[i].0 != t ==> #[trigger] crate::query_spec::upsert_usage(
                us,
                t,
                name,
                kind,
            )[i] == us[i],
{
    lemma_upsert_touches_only(us, t, name, kind);
}

/// Adding a column never shortens the usage list.
proof fn lemma_upsert_len(us: Seq<(Seq<char>, UsageV)>, t: Seq<char>, name: Seq<char>,
    kind: ColumnKind)
    ensures
        crate::query_spec::upsert_usage(us, t, name, kind).len() >= us.len(),
    decreases us.len(),
{
    if us.len() > 0 && us[0].0 != t {
        lemma_upsert_len(us.drop_first(), t, name, kind);
    }
}

/// Adding a column to one table's record leaves every other table's record
/// unchanged.
proof fn lemma_upsert_touches_only(
    us: Seq<(Seq<char>, UsageV)>,
    t: Seq<char>,
    name: Seq<char>,
    kind: ColumnKind,
)
    ensures
        forall|i: int|
            0 <= i < us.len() && us[i].0 != t ==> #[trigger] crate::query_spec::upsert_usage(
                us,
                t,
                name,
                kind,
            )[i] == us[i],
    decreases us.len(),
{
    if us.len() > 0 {
        lemma_upsert_touches_only(us.drop_first(), t, name, kind);
        assert forall|i: int|
            0 <= i < us.len() && us[i].0 != t implies #[trigger] crate::query_spec::upsert_usage(
            us,
            t,
            name,
            kind,
        )[i] == us[i] by {
            if us[0].0 == t {
                assert(i >= 1);
                assert(crate::query_spec::upsert_usage(us, t, name, kind) == seq![
                    (us[0].0, crate::query_spec::usage_add(us[0].1, name, kind)),
                ] + us.drop_first());
                assert((seq![(us[0].0, crate::query_spec::usage_add(us[0].1, name, kind))]
                    + us.drop_first())[i] == us.drop_first()[i - 1]);
                assert(us.drop_first()[i - 1] == us[i]);
            } else if i >= 1 {
                lemma_upsert_len(us.drop_first(), t, name, kind);
                assert(us.drop_first()[i - 1] == us[i]);
                assert(crate::query_spec::upsert_usage(us.drop_first(), t, name, kind)[i - 1]
                    == us.drop_first()[i - 1]);
                assert(crate::query_spec::upsert_usage(us, t, name, kind) == seq![us[0]]
                    + crate::query_spec::upsert_usage(us.drop_first(), t, name, kind));
                assert((seq![us[0]] + crate::query_spec::upsert_usage(us.drop_first(), t, name,
                    kind))[i] == crate::query_spec::upsert_usage(us.drop_first(), t, name,
                    kind)[i - 1]);
            } else {
                assert(crate::query_spec::upsert_usage(us, t, name, kind) == seq![us[0]]
                    + crate::query_spec::upsert_usage(us.drop_first(), t, name, kind));
                assert((seq![us[0]] + crate::query_spec::upsert_usage(us.drop_first(), t, name,
                    kind))[0] == us[0]);
            }
        }
    }
}

/// When a table resolves to a known schema, an existing index covering the
/// candidate columns suppresses the candidate, and the candidate is emitted
/// exactly when no index covers it — with precisely those columns and the
/// statement's provenance.
pub proof fn lemma_coverage_decides_emission(
    stat: crate::workload::StatV,
    entry: (Seq<char>, UsageV),
    tables: Seq<TableRefV>,
    cat: CatalogV,
)
    requires
        find_table(tables, entry.0) is Some,
        candidate_columns(entry.1).len() > 0,
        resolved_of(find_table(tables, entry.0)->0, cat.schemas).schema != "unknown"@,
    ensures
        covered_spec(
            cat.indexes,
            resolved_of(find_table(tables, entry.0)->0, cat.schemas).full_name,
            candidate_columns(entry.1),
        ) ==> candidate_of(stat, entry, tables, cat) is None,
        !covered_spec(
            cat.indexes,
            resolved_of(find_table(tables, entry.0)->0, cat.schemas).full_name,
            candidate_columns(entry.1),
        ) ==> (candidate_of(stat, entry, tables, cat) matches Some(c) && c.columns
            == candidate_columns(entry.1) && c.schema == resolved_of(
            find_table(tables, entry.0)->0,
            cat.schemas,
        ).schema && c.queryid == stat.queryid && c.total_time_us == stat.total_time_us),
{
}

/// A table left unresolved under the `unknown` schema is conservatively
/// treated as uncovered: its candidate is always emitted once it has
/// columns.
pub proof fn lemma_unresolved_always_emits(
    stat: crate::workload::StatV,
    entry: (Seq<char>, UsageV),
    tables: Seq<TableRefV>,
    cat: CatalogV,
)
    requires
        find_table(tables, entry.0) is Some,
        candidate_columns(entry.1).len() > 0,
        resolved_of(find_table(tables, entry.0)->0, cat.schemas).schema == "unknown"@,
    ensures
        candidate_of(stat, entry, tables, cat) matches Some(c) && c.columns == candidate_columns(
            entry.1,
        ),
{
}

/// Two colliding candidates survive deduplication as the same single
/// candidate whichever arrives first: the one with the larger total
/// execution time, a tie falling to the smaller statement identifier.
pub proof fn lemma_dedup_pair_order_independent(a: CandV, b: CandV)
    requires
        same_cand_key(a, b),
        a.queryid != b.queryid,
    ensures
        dedup_insert(dedup_insert(Seq::empty(), a), b) =~= seq![
            if displaces(b, a) {
                b
            } else {
                a
            },
        ],
        dedup_insert(dedup_insert(Seq::empty(), a), b) =~= dedup_insert(
            dedup_insert(Seq::empty(), b), a),
{
    assert(same_cand_key(b, a));
    assert(dedup_insert(Seq::empty(), a) =~= seq![a]);
    assert(dedup_insert(Seq::empty(), b) =~= seq![b]);
    if displaces(b, a) {
        assert(!displaces(a, b));
        assert(dedup_insert(seq![a], b) =~= seq![b]);
        assert(dedup_insert(seq![b], a) =~= seq![b]);
    } else {
        assert(displaces(a, b));
        assert(dedup_insert(seq![a], b) =~= seq![a]);
        assert(dedup_insert(seq![b], a) =~= seq![a]);
    }
}


/// Appending a name that is not yet present keeps a list free of
/// case-insensitive duplicates.
proof fn lemma_push_unique_ci_distinct(xs: Seq<Seq<char>>, x: Seq<char>)
    requires
        crate::text::distinct_ci(xs),
    ensures
        crate::text::distinct_ci(crate::text::push_unique_ci(xs, x)),
{
    if !contains_ci(xs, x) {
        assert forall|i: int, j: int|
            0 <= i < j < xs.push(x).len() implies !eq_ci(
            #[trigger] xs.push(x)[i],
            #[trigger] xs.push(x)[j],
        ) by {
            if j == xs.len() {
                assert(!eq_ci(xs[i], x));
            }
        }
    }
}

/// Appending many names one by one keeps the list duplicate-free.
proof fn lemma_append_unique_ci_distinct(target: Seq<Seq<char>>, source: Seq<Seq<char>>)
    requires
        crate::text::distinct_ci(target),
    ensures
        crate::text::distinct_ci(crate::workload::append_unique_ci(target, source)),
    decreases source.len(),
{
    if source.len() > 0 {
        lemma_push_unique_ci_distinct(target, source[0]);
        lemma_append_unique_ci_distinct(
            crate::text::push_unique_ci(target, source[0]),
            source.drop_first(),
        );
    }
}

/// A candidate's column list never exceeds three entries, and no column
/// appears in it twice up to ASCII case, whatever the usage held.
pub proof fn lemma_candidate_columns_invariant(u: UsageV)
    ensures
        candidate_columns(u).len() <= 3,
        crate::text::distinct_ci(candidate_columns(u)),
{
    assert(crate::text::distinct_ci(Seq::<Seq<char>>::empty()));
    lemma_append_unique_ci_distinct(Seq::empty(), u.filters);
    lemma_append_unique_ci_distinct(
        crate::workload::append_unique_ci(Seq::empty(), u.filters),
        u.joins,
    );
    let all = crate::workload::append_unique_ci(
        crate::workload::append_unique_ci(
            crate::workload::append_unique_ci(Seq::empty(), u.filters),
            u.joins,
        ),
        u.orders,
    );
    lemma_append_unique_ci_distinct(
        crate::workload::append_unique_ci(
            crate::workload::append_unique_ci(Seq::empty(), u.filters),
            u.joins,
        ),
        u.orders,
    );
    if all.len() > 3 {
        assert forall|i: int, j: int|
            0 <= i < j < all.take(3).len() implies !eq_ci(
            #[trigger] all.take(3)[i],
            #[trigger] all.take(3)[j],
        ) by {
            assert(!eq_ci(all[i], all[j]));
        }
    }
}

/// Whether every usage record in the list keeps each of its three column
/// lists free of case-insensitive duplicates.
pub open spec fn well_formed_usage(us: Seq<(Seq<char>, UsageV)>) -> bool {
    forall|k: int|
        0 <= k < us.len() ==> crate::text::distinct_ci(#[trigger] us[k].1.filters)
            && crate::text::distinct_ci(us[k].1.joins) && crate::text::distinct_ci(us[k].1.orders)
}

/// Adding one column to a well-formed record keeps it well formed.
proof fn lemma_usage_add_wf(u: UsageV, name: Seq<char>, kind: ColumnKind)
    requires
        crate::text::distinct_ci(u.filters),
        crate::text::distinct_ci(u.joins),
        crate::text::distinct_ci(u.orders),
    ensures
        crate::text::distinct_ci(crate::query_spec::usage_add(u, name, kind).filters),
        crate::text::distinct_ci(crate::query_spec::usage_add(u, name, kind).joins),
        crate::text::distinct_ci(crate::query_spec::usage_add(u, name, kind).orders),
{
    lemma_push_unique_ci_distinct(u.filters, name);
    lemma_push_unique_ci_distinct(u.joins, name);
    lemma_push_unique_ci_distinct(u.orders, name);
}

/// Adding one column keeps the whole usage list well formed.
proof fn lemma_upsert_usage_wf(
    us: Seq<(Seq<char>, UsageV)>,
    t: Seq<char>,
    name: Seq<char>,
    kind: ColumnKind,
)
    requires
        well_formed_usage(us),
    ensures
        well_formed_usage(crate::query_spec::upsert_usage(us, t, name, kind)),
    decreases us.len(),
{
    let out = crate::query_spec::upsert_usage(us, t, name, kind);
    if us.len() == 0 {
        assert(crate::text::distinct_ci(Seq::<Seq<char>>::empty()));
        lemma_usage_add_wf(crate::query_spec::empty_usage(), name, kind);
        assert(well_formed_usage(out));
    } else if us[0].0 == t {
        lemma_usage_add_wf(us[0].1, name, kind);
        assert forall|k: int| 0 <= k < out.len() implies crate::text::distinct_ci(
            #[trigger] out[k].1.filters,
        ) && crate::text::distinct_ci(out[k].1.joins) && crate::text::distinct_ci(
            out[k].1.orders,
        ) by {
            if k >= 1 {
                assert(out[k] == us[k]);
            }
        }
    } else {
        lemma_upsert_usage_wf(us.drop_first(), t, name, kind);
        assert forall|k: int| 0 <= k < out.len() implies crate::text::distinct_ci(
            #[trigger] out[k].1.filters,
        ) && crate::text::distinct_ci(out[k].1.joins) && crate::text::distinct_ci(
            out[k].1.orders,
        ) by {
            if k >= 1 {
                assert(out[k] == crate::query_spec::upsert_usage(us.drop_first(), t, name,
                    kind)[k - 1]);
            } else {
                assert(out[0] == us[0]);
            }
        }
    }
}

/// Attributing every pending reference keeps the usage list well formed.
proof fn lemma_fold_pending_wf(
    us: Seq<(Seq<char>, UsageV)>,
    ps: Seq<PendingV>,
    aliases: Seq<(Seq<char>, Seq<char>)>,
    deft: Option<Seq<char>>,
)
    requires
        well_formed_usage(us),
    ensures
        well_formed_usage(fold_pending(us, ps, aliases, deft)),
    decreases ps.len(),
{
    if ps.len() > 0 {
        match crate::query_spec::resolve_relation(ps[0].relation, aliases, deft) {
            Some(t) => {
                lemma_upsert_usage_wf(us, t, ps[0].name, ps[0].kind);
            },
            None => {},
        }
        lemma_fold_pending_wf(apply_pending(us, ps[0], aliases, deft), ps.drop_first(), aliases,
            deft);
    }
}

/// Within one statement's extracted usage, no column name appears twice,
/// up to ASCII case, within the same usage category of the same table.
pub proof fn lemma_extraction_usage_distinct(st: CollectorV)
    ensures
        well_formed_usage(crate::query_spec::usage_of_collector(st).usage),
{
    assert(well_formed_usage(Seq::<(Seq<char>, UsageV)>::empty()));
    lemma_fold_pending_wf(Seq::empty(), st.pending, st.aliases, default_table_of(st.tables));
}


/// A query of the shape `SELECT ... FROM <t1> <a1> JOIN <t2> <a2> ON
/// <a1>.<jl> = <a2>.<jr> WHERE <a1>.<f> = <rhs>`: two aliased base tables,
/// an equality join predicate qualified by each side's alias, and one
/// filter qualified by the first table's alias whose right side is no
/// column reference.
pub open spec fn two_table_on_shape(
    q: SqlQuery,
    t1: String,
    a1: String,
    t2: String,
    a2: String,
    jl: String,
    jr: String,
    f: String,
    rhs: SqlExpr,
) -> bool {
    &&& q.body matches SqlSetExpr::Select(sel) && {
        &&& sel.from@.len() == 1
        &&& sel.from@[0].relation matches SqlTableFactor::Table { name, alias } && name@ == seq![
            t1,
        ] && alias == Some(a1)
        &&& sel.from@[0].joins@.len() == 1
        &&& sel.from@[0].joins@[0].relation matches SqlTableFactor::Table { name, alias } && name@
            == seq![t2] && alias == Some(a2)
        &&& sel.from@[0].joins@[0].constraint matches SqlJoinConstraint::On(e) && e matches
            SqlExpr::Binary(op, l, r) && op == SqlBinOp::Eq && (*l matches SqlExpr::Column(lp)
            && lp@ == seq![a1, jl]) && (*r matches SqlExpr::Column(rp) && rp@ == seq![a2, jr])
        &&& sel.selection matches Some(w) && w matches SqlExpr::Binary(op, l, r) && op
            == SqlBinOp::Eq && (*l matches SqlExpr::Column(wp) && wp@ == seq![a1, f]) && *r == rhs
    }
    &&& crate::query_spec::column_ref_of(rhs) is None
    &&& q.order_by@.len() == 0
}

/// In a two-table equality join whose predicates are qualified by alias,
/// each table's usage holds exactly its own columns: the first table its
/// join and filter columns, the joined table its join column alone.  The
/// four binding keys must not collide, since one flat alias scope lets a
/// later binding shadow an earlier one.
pub proof fn lemma_join_attributes_own_columns(
    q: SqlQuery,
    t1: String,
    a1: String,
    t2: String,
    a2: String,
    jl: String,
    jr: String,
    f: String,
    rhs: SqlExpr,
)
    requires
        two_table_on_shape(q, t1, a1, t2, a2, jl, jr, f, rhs),
        t1@ != t2@,
        a1@ != a2@,
        a1@ != t2@,
        a2@ != t1@,
    ensures
        usage_of_query(q).tables =~= seq![
            TableRefV { schema: None, name: t1@ },
            TableRefV { schema: None, name: t2@ },
        ],
        usage_of_query(q).usage =~~= seq![
            (t1@, UsageV { filters: seq![f@], joins: seq![jl@], orders: Seq::empty() }),
            (t2@, UsageV { filters: Seq::empty(), joins: seq![jr@], orders: Seq::empty() }),
        ],
{
    let sel = q.body->Select_0;
    let twj = sel.from@[0];
    let join = twj.joins@[0];
    let init = collector_init();
    let tr1 = TableRefV { schema: None, name: t1@ };
    let tr2 = TableRefV { schema: None, name: t2@ };

    // Registering both tables and their aliases.
    assert(views_of(twj.relation->Table_name@) =~= seq![t1@]);
    assert(full_name_v(tr1) == t1@);
    let st1 = walk_table_factor(init, twj.relation).0;
    assert(st1 =~~= CollectorV {
        tables: seq![tr1],
        aliases: seq![(t1@, t1@), (a1@, t1@)],
        pending: Seq::empty(),
    });
    assert(walk_table_factor(init, twj.relation).1 == Some(t1@));
    assert(views_of(join.relation->Table_name@) =~= seq![t2@]);
    assert(full_name_v(tr2) == t2@);
    let aliases = seq![(t1@, t1@), (a1@, t1@), (t2@, t2@), (a2@, t2@)];
    let st2 = walk_table_factor(st1, join.relation).0;
    assert(st2 =~~= CollectorV { tables: seq![tr1, tr2], aliases, pending: Seq::empty() });
    assert(walk_table_factor(st1, join.relation).1 == Some(t2@));

    // The join predicate records one qualified column for each side.
    let e = join.constraint->On_0;
    let el = e->Binary_1;
    let er = e->Binary_2;
    assert(views_of(el->Column_0@) =~= seq![a1@, jl@]);
    assert(views_of(er->Column_0@) =~= seq![a2@, jr@]);
    assert(crate::query_spec::column_ref_of(*el) == Some((Some(a1@), jl@)));
    assert(crate::query_spec::column_ref_of(*er) == Some((Some(a2@), jr@)));
    let p1 = PendingV { relation: Some(a1@), name: jl@, kind: ColumnKind::Join };
    let p2 = PendingV { relation: Some(a2@), name: jr@, kind: ColumnKind::Join };
    let st3 = crate::query_spec::walk_join_expr(st2, e);
    assert(st3 =~~= CollectorV { tables: seq![tr1, tr2], aliases, pending: seq![p1, p2] });
    assert(crate::query_spec::walk_join(st1, join, seq![t1@]).0 == st3);
    assert(crate::query_spec::walk_join(st1, join, seq![t1@]).1 == Some(t2@));

    // The join chain and the FROM list end in that state.
    assert(twj.joins@.drop_first() =~= Seq::<SqlJoin>::empty());
    assert(seq![t1@].push(t2@) =~= seq![t1@, t2@]);
    assert(walk_join_list(st3, Seq::<SqlJoin>::empty(), seq![t1@].push(t2@)) == st3);
    assert(walk_join_list(st1, twj.joins@, seq![t1@]) == st3);
    assert(walk_table_with_joins(init, twj) == st3);
    assert(sel.from@.drop_first() =~= Seq::<SqlTableWithJoins>::empty());
    assert(walk_from_list(st3, Seq::<SqlTableWithJoins>::empty()) == st3);
    assert(walk_from_list(init, sel.from@) == st3);

    // The filter predicate records one column qualified by the first
    // table's alias.
    let w = sel.selection->0;
    let wl = w->Binary_1;
    assert(views_of(wl->Column_0@) =~= seq![a1@, f@]);
    assert(crate::query_spec::column_ref_of(*wl) == Some((Some(a1@), f@)));
    let p3 = PendingV { relation: Some(a1@), name: f@, kind: ColumnKind::Filter };
    let st4 = walk_filter_expr(st3, w);
    assert(st4 =~~= CollectorV { tables: seq![tr1, tr2], aliases, pending: seq![p1, p2, p3] });
    assert(walk_select(init, *sel) == st4);
    assert(q.order_by@ =~= Seq::<SqlExpr>::empty());
    assert(walk_query(init, q) == st4);

    // Each alias resolves to its own table.
    assert(aliases.drop_last() =~= seq![(t1@, t1@), (a1@, t1@), (t2@, t2@)]);
    assert(seq![(t1@, t1@), (a1@, t1@), (t2@, t2@)].drop_last() =~= seq![(t1@, t1@), (a1@, t1@)]);
    assert(alias_lookup(seq![(t1@, t1@), (a1@, t1@)], a1@) == Some(t1@));
    assert(alias_lookup(seq![(t1@, t1@), (a1@, t1@), (t2@, t2@)], a1@) == Some(t1@));
    assert(alias_lookup(aliases, a1@) == Some(t1@));
    assert(alias_lookup(aliases, a2@) == Some(t2@));

    // Folding the three pending references: the first table gathers its
    // join and filter columns, the joined table its join column.
    let uj1 = UsageV { filters: Seq::empty(), joins: seq![jl@], orders: Seq::empty() };
    let uj2 = UsageV { filters: Seq::empty(), joins: seq![jr@], orders: Seq::empty() };
    let u1 = UsageV { filters: seq![f@], joins: seq![jl@], orders: Seq::empty() };
    let deft = default_table_of(st4.tables);
    assert(!contains_ci(Seq::empty(), jl@));
    assert(!contains_ci(Seq::empty(), jr@));
    assert(!contains_ci(Seq::empty(), f@));
    let us1 = apply_pending(Seq::empty(), p1, st4.aliases, deft);
    assert(us1 =~~= seq![(t1@, uj1)]);
    let us2 = apply_pending(us1, p2, st4.aliases, deft);
    assert(us1.drop_first() =~= Seq::<(Seq<char>, UsageV)>::empty());
    assert(crate::query_spec::upsert_usage(Seq::empty(), t2@, jr@, ColumnKind::Join) =~~= seq![
        (t2@, uj2),
    ]);
    assert(us2 =~~= seq![(t1@, uj1), (t2@, uj2)]);
    let us3 = apply_pending(us2, p3, st4.aliases, deft);
    assert(us3 =~~= seq![(t1@, u1), (t2@, uj2)]);
    assert(seq![p1, p2, p3].drop_first() =~= seq![p2, p3]);
    assert(seq![p2, p3].drop_first() =~= seq![p3]);
    assert(seq![p3].drop_first() =~= Seq::<PendingV>::empty());
    assert(fold_pending(us3, Seq::<PendingV>::empty(), st4.aliases, deft) == us3);
    assert(fold_pending(us2, seq![p3], st4.aliases, deft) == us3);
    assert(fold_pending(us1, seq![p2, p3], st4.aliases, deft) == us3);
    assert(fold_pending(Seq::empty(), seq![p1, p2, p3], st4.aliases, deft) == us3);
    assert(usage_of_query(q).usage =~~= seq![(t1@, u1), (t2@, uj2)]);
}

} // verus!
