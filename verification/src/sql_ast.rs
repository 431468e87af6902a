//! A closed representation of the parts of a parsed SQL statement that the
//! column-usage extractor reads.
//!
//! Every node kind the extractor does not mine is collapsed into an `Other`
//! variant, so each walker matches exhaustively over a small, fixed set of
//! shapes.  Identifiers are kept exactly as they appeared in the source text;
//! nothing is case-folded here.

use vstd::prelude::*;

verus! {

/// A binary operator, as far as predicate mining cares: conjunctions and
/// disjunctions are walked through, equalities are mined, everything else is
/// deliberately ignored.
pub enum SqlBinOp {
    And,
    Or,
    Eq,
    Other,
}

/// An expression. `Column` carries the dot-separated identifier parts in
/// source order.
pub enum SqlExpr {
    Column(Vec<String>),
    Binary(SqlBinOp, Box<SqlExpr>, Box<SqlExpr>),
    InList(Box<SqlExpr>),
    Between(Box<SqlExpr>),
    IsNull(Box<SqlExpr>),
    IsNotNull(Box<SqlExpr>),
    Nested(Box<SqlExpr>),
    Other,
}

/// One query: a body and its ordering expressions.
pub struct SqlQuery {
    pub body: SqlSetExpr,
    pub order_by: Vec<SqlExpr>,
}

/// The body of a query.
pub enum SqlSetExpr {
    Select(Box<SqlSelect>),
    Query(Box<SqlQuery>),
    SetOperation(Box<SqlSetExpr>, Box<SqlSetExpr>),
    Other,
}

/// A single SELECT block.
pub struct SqlSelect {
    pub from: Vec<SqlTableWithJoins>,
    pub selection: Option<SqlExpr>,
    pub projection: Vec<SqlSelectItem>,
}

/// One projection entry; only bare expressions are kept.
pub enum SqlSelectItem {
    Expr(SqlExpr),
    Other,
}

/// One FROM entry: a relation and the joins chained onto it.
pub struct SqlTableWithJoins {
    pub relation: SqlTableFactor,
    pub joins: Vec<SqlJoin>,
}

/// A relation in a FROM clause or join. `Table` carries the dot-separated
/// parts of the table name and the alias, if one was given.
pub enum SqlTableFactor {
    Table { name: Vec<String>, alias: Option<String> },
    Derived(Box<SqlQuery>),
    NestedJoin(Box<SqlTableWithJoins>),
    Other,
}

/// One join: the newly joined relation and its constraint.
pub struct SqlJoin {
    pub relation: SqlTableFactor,
    pub constraint: SqlJoinConstraint,
}

/// A join constraint. Only `ON` predicates and `USING` column lists are
/// mined; natural joins and unconstrained joins fall under `Other`.
pub enum SqlJoinConstraint {
    On(SqlExpr),
    Using(Vec<String>),
    Other,
}

/// One top-level statement: a read query, or anything else.
pub enum SqlStatement {
    Query(SqlQuery),
    Other,
}

} // verus!
