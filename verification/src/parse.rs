//! The trusted boundary to the SQL parser.
//!
//! Statement text is handed to the `sqlparser` crate, and the generic syntax
//! tree it yields is transliterated, node for node, into the closed
//! representation of [`crate::sql_ast`].  Each converter below reads exactly
//! one node kind of `sqlparser`'s tree and moves its fields; node kinds the
//! extractor does not mine are collapsed into the `Other` variants.  Nothing
//! in this module is verified: the contract of [`parse_sql_text`] is the one
//! assumption the rest of the library builds on.

use vstd::prelude::*;
use sqlparser::ast::{BinaryOperator, Expr, Ident, Join, JoinConstraint, JoinOperator, Query,
    Select, SelectItem, SetExpr, Statement, TableFactor, TableWithJoins};
use crate::sql_ast::{SqlBinOp, SqlExpr, SqlJoin, SqlJoinConstraint, SqlQuery, SqlSelect,
    SqlSelectItem, SqlSetExpr, SqlStatement, SqlTableFactor, SqlTableWithJoins};

verus! {

#[verifier::external_type_specification]
#[verifier::external_body]
pub struct ExStatement(Statement);

#[verifier::external_type_specification]
#[verifier::external_body]
pub struct ExQuery(Query);

#[verifier::external_type_specification]
#[verifier::external_body]
pub struct ExSetExpr(SetExpr);

#[verifier::external_type_specification]
#[verifier::external_body]
pub struct ExSelect(Select);

#[verifier::external_type_specification]
#[verifier::external_body]
pub struct ExSelectItem(SelectItem);

#[verifier::external_type_specification]
#[verifier::external_body]
pub struct ExTableWithJoins(TableWithJoins);

#[verifier::external_type_specification]
#[verifier::external_body]
pub struct ExTableFactor(TableFactor);

#[verifier::external_type_specification]
#[verifier::external_body]
pub struct ExJoin(Join);

#[verifier::external_type_specification]
#[verifier::external_body]
pub struct ExJoinOperator(JoinOperator);

#[verifier::external_type_specification]
#[verifier::external_body]
pub struct ExJoinConstraint(JoinConstraint);

#[verifier::external_type_specification]
#[verifier::external_body]
pub struct ExExpr(Expr);

#[verifier::external_type_specification]
#[verifier::external_body]
pub struct ExBinaryOperator(BinaryOperator);

#[verifier::external_type_specification]
#[verifier::external_body]
pub struct ExIdent(Ident);

/// What parsing a statement batch yields: `None` on a syntax failure, else
/// the converted statements.  The outcome is a function of the text alone.
pub uninterp spec fn parse_of(text: Seq<char>) -> Option<Seq<SqlStatement>>;

/// Reads the `value` of each `sqlparser::ast::Ident`, in order.
#[verifier::external_body]
fn conv_idents(ids: &Vec<Ident>) -> Vec<String> {
    let mut parts = Vec::new();
    for id in ids {
        parts.push(id.value.clone());
    }
    parts
}

/// Reads one `sqlparser::ast::BinaryOperator`.
#[verifier::external_body]
fn conv_bin_op(op: &BinaryOperator) -> SqlBinOp {
    match op {
        BinaryOperator::And => SqlBinOp::And,
        BinaryOperator::Or => SqlBinOp::Or,
        BinaryOperator::Eq => SqlBinOp::Eq,
        _ => SqlBinOp::Other,
    }
}

/// Reads one `sqlparser::ast::Expr` behind a box.
#[verifier::external_body]
fn conv_boxed(e: &Expr) -> Box<SqlExpr> {
    Box::new(conv_expr(e))
}

/// Reads one `sqlparser::ast::Expr`, keeping the shapes the extractor mines.
#[verifier::external_body]
fn conv_expr(e: &Expr) -> SqlExpr {
    match e {
        Expr::Identifier(ident) => SqlExpr::Column(vec![ident.value.clone()]),
        Expr::CompoundIdentifier(ids) => SqlExpr::Column(conv_idents(ids)),
        Expr::BinaryOp { left, op, right } => SqlExpr::Binary(
            conv_bin_op(op),
            conv_boxed(left),
            conv_boxed(right),
        ),
        Expr::InList { expr, .. } => SqlExpr::InList(conv_boxed(expr)),
        Expr::Between { expr, .. } => SqlExpr::Between(conv_boxed(expr)),
        Expr::IsNull(inner) => SqlExpr::IsNull(conv_boxed(inner)),
        Expr::IsNotNull(inner) => SqlExpr::IsNotNull(conv_boxed(inner)),
        Expr::Nested(inner) => SqlExpr::Nested(conv_boxed(inner)),
        _ => SqlExpr::Other,
    }
}

/// Reads one `sqlparser::ast::JoinConstraint`.
#[verifier::external_body]
fn conv_join_constraint(c: &JoinConstraint) -> SqlJoinConstraint {
    match c {
        JoinConstraint::On(e) => SqlJoinConstraint::On(conv_expr(e)),
        JoinConstraint::Using(ids) => SqlJoinConstraint::Using(conv_idents(ids)),
        _ => SqlJoinConstraint::Other,
    }
}

/// Reads one `sqlparser::ast::JoinOperator`, keeping the constraint of the
/// four join kinds whose predicates are mined.
#[verifier::external_body]
fn conv_join_operator(op: &JoinOperator) -> SqlJoinConstraint {
    match op {
        JoinOperator::Inner(c) => conv_join_constraint(c),
        JoinOperator::LeftOuter(c) => conv_join_constraint(c),
        JoinOperator::RightOuter(c) => conv_join_constraint(c),
        JoinOperator::FullOuter(c) => conv_join_constraint(c),
        _ => SqlJoinConstraint::Other,
    }
}

/// Reads one `sqlparser::ast::Join`.
#[verifier::external_body]
fn conv_join(j: &Join) -> SqlJoin {
    SqlJoin {
        relation: conv_table_factor(&j.relation),
        constraint: conv_join_operator(&j.join_operator),
    }
}

/// Reads one `sqlparser::ast::TableFactor`.
#[verifier::external_body]
fn conv_table_factor(tf: &TableFactor) -> SqlTableFactor {
    match tf {
        TableFactor::Table { name, alias, .. } => SqlTableFactor::Table {
            name: conv_idents(&name.0),
            alias: alias.as_ref().map(|a| a.name.value.clone()),
        },
        TableFactor::Derived { subquery, .. } => SqlTableFactor::Derived(
            Box::new(conv_query(subquery)),
        ),
        TableFactor::NestedJoin { table_with_joins, .. } => SqlTableFactor::NestedJoin(
            Box::new(conv_table_with_joins(table_with_joins)),
        ),
        _ => SqlTableFactor::Other,
    }
}

/// Reads one `sqlparser::ast::TableWithJoins`.
#[verifier::external_body]
fn conv_table_with_joins(t: &TableWithJoins) -> SqlTableWithJoins {
    let mut joins = Vec::new();
    for j in &t.joins {
        joins.push(conv_join(j));
    }
    SqlTableWithJoins { relation: conv_table_factor(&t.relation), joins }
}

/// Reads one `sqlparser::ast::SelectItem`.
#[verifier::external_body]
fn conv_select_item(item: &SelectItem) -> SqlSelectItem {
    match item {
        SelectItem::UnnamedExpr(e) => SqlSelectItem::Expr(conv_expr(e)),
        _ => SqlSelectItem::Other,
    }
}

/// Reads one `sqlparser::ast::Select`: its FROM list, WHERE clause and
/// projection list.
#[verifier::external_body]
fn conv_select(s: &Select) -> SqlSelect {
    let mut from = Vec::new();
    for t in &s.from {
        from.push(conv_table_with_joins(t));
    }
    let mut projection = Vec::new();
    for item in &s.projection {
        projection.push(conv_select_item(item));
    }
    SqlSelect { from, selection: s.selection.as_ref().map(conv_expr), projection }
}

/// Reads one `sqlparser::ast::SetExpr`.
#[verifier::external_body]
fn conv_set_expr(se: &SetExpr) -> SqlSetExpr {
    match se {
        SetExpr::Select(s) => SqlSetExpr::Select(Box::new(conv_select(s))),
        SetExpr::Query(q) => SqlSetExpr::Query(Box::new(conv_query(q))),
        SetExpr::SetOperation { left, right, .. } => SqlSetExpr::SetOperation(
            Box::new(conv_set_expr(left)),
            Box::new(conv_set_expr(right)),
        ),
        _ => SqlSetExpr::Other,
    }
}

/// Reads one `sqlparser::ast::Query`: its body and its ORDER BY expressions.
#[verifier::external_body]
fn conv_query(q: &Query) -> SqlQuery {
    let mut order_by = Vec::new();
    for o in &q.order_by {
        order_by.push(conv_expr(&o.expr));
    }
    SqlQuery { body: conv_set_expr(&q.body), order_by }
}

/// Reads one `sqlparser::ast::Statement`, keeping read queries.
#[verifier::external_body]
fn conv_statement(s: &Statement) -> SqlStatement {
    match s {
        Statement::Query(q) => SqlStatement::Query(conv_query(q)),
        _ => SqlStatement::Other,
    }
}

/// Relies on `sqlparser::parser::Parser::parse_sql` under the PostgreSQL
/// dialect: parsing is deterministic in the statement text, a failure of the
/// tokenizer or parser yields `Err`, and on success every parsed statement
/// is handed back, in order.
#[verifier::external_body]
pub(crate) fn parse_sql_text(text: &str) -> (r: Option<Vec<SqlStatement>>)
    ensures
        r is Some <==> parse_of(text@) is Some,
        r matches Some(v) ==> parse_of(text@) == Some(v@),
{
    let dialect = sqlparser::dialect::PostgreSqlDialect {};
    match sqlparser::parser::Parser::parse_sql(&dialect, text) {
        Ok(statements) => Some(statements.iter().map(conv_statement).collect()),
        Err(_) => None,
    }
}

} // verus!
