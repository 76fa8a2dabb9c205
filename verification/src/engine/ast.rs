//! The parsed form of the statements the engine runs.

use vstd::prelude::*;
use crate::engine::values::{DataType, Literal, RealNumber};

verus! {

/// Binary operators of expressions.
#[derive(Debug, Clone, Copy, PartialEq, Eq, Structural)]
pub enum BinaryOperator {
    Equal,
    NotEqual,
    LessThan,
    LessThanOrEqual,
    GreaterThan,
    GreaterThanOrEqual,
    And,
    Or,
    Plus,
    Minus,
    Multiply,
    Divide,
}

/// A call of a named function on arguments.
#[derive(Debug)]
pub struct FunctionCall {
    pub name: String,
    pub arguments: Vec<Expression>,
}

/// One key of an ordering: an expression and its direction.
#[derive(Debug)]
pub struct OrderByItem {
    pub expr: Expression,
    pub ascending: bool,
}

/// A bound of a window frame.
#[derive(Debug, Clone, Copy, PartialEq, Eq, Structural)]
pub enum FrameBound {
    UnboundedPreceding,
    Preceding(u64),
    CurrentRow,
    Following(u64),
    UnboundedFollowing,
}

/// The frame of a window function.
#[derive(Debug, Clone, Copy, PartialEq, Eq, Structural)]
pub struct FrameClause {
    pub start_bound: FrameBound,
    pub end_bound: Option<FrameBound>,
}

/// A window function: a call evaluated over the partition of each row.
#[derive(Debug)]
pub struct WindowFunction {
    pub function: FunctionCall,
    pub partition_by: Vec<Expression>,
    pub order_by: Vec<OrderByItem>,
    pub frame_clause: Option<FrameClause>,
}

/// An expression.
#[derive(Debug)]
pub enum Expression {
    Identifier(String),
    Column(String),
    Literal(Literal),
    BinaryOp { left: Box<Expression>, op: BinaryOperator, right: Box<Expression> },
    Function(FunctionCall),
    WindowFunction(Box<WindowFunction>),
    Asterisk,
    VectorLiteral(Vec<RealNumber>),
}

/// An item of a select list.
#[derive(Debug)]
pub enum SelectItem {
    Wildcard,
    Expression { expr: Expression, alias: Option<String> },
}

/// The kinds of join.
#[derive(Debug, Clone, Copy, PartialEq, Eq, Structural)]
pub enum JoinType {
    Inner,
    Left,
    Right,
    Full,
}

/// A join of another table.
#[derive(Debug)]
pub struct JoinClause {
    pub join_type: JoinType,
    pub table: String,
    pub alias: Option<String>,
    pub condition: Expression,
}

/// The tables a query reads.
#[derive(Debug)]
pub struct FromClause {
    pub table: String,
    pub alias: Option<String>,
    pub joins: Vec<JoinClause>,
}

/// A GROUP BY clause.
#[derive(Debug)]
pub struct GroupByClause {
    pub expressions: Vec<Expression>,
}

/// A SELECT statement.
#[derive(Debug)]
pub struct SelectQuery {
    pub select_list: Vec<SelectItem>,
    pub from_clause: FromClause,
    pub where_clause: Option<Expression>,
    pub group_by: Option<GroupByClause>,
    pub having: Option<Expression>,
    pub order_by: Option<Vec<OrderByItem>>,
    pub limit: Option<u64>,
}

/// A column of a CREATE TABLE statement.
#[derive(Debug)]
pub struct ColumnDefinition {
    pub name: String,
    pub data_type: DataType,
    pub nullable: bool,
    pub default: Option<Expression>,
}

/// A table constraint.
#[derive(Debug)]
pub enum TableConstraint {
    PrimaryKey(Vec<String>),
    Unique(Vec<String>),
    ForeignKey { columns: Vec<String>, references_table: String, references_columns: Vec<String> },
    Check(Expression),
}

/// A CREATE TABLE statement.
#[derive(Debug)]
pub struct CreateTableQuery {
    pub name: String,
    pub columns: Vec<ColumnDefinition>,
    pub constraints: Vec<TableConstraint>,
}

/// A DROP TABLE statement.
#[derive(Debug)]
pub struct DropTableQuery {
    pub name: String,
    pub if_exists: bool,
}

/// An INSERT statement: the target columns (all, in order, when empty) and
/// one list of values per row.
#[derive(Debug)]
pub struct InsertQuery {
    pub table: String,
    pub columns: Vec<String>,
    pub values: Vec<Vec<Expression>>,
}

/// One `column = value` of an UPDATE statement.
#[derive(Debug)]
pub struct Assignment {
    pub column: String,
    pub value: Expression,
}

/// An UPDATE statement.
#[derive(Debug)]
pub struct UpdateQuery {
    pub table: String,
    pub assignments: Vec<Assignment>,
    pub where_clause: Option<Expression>,
}

/// A DELETE statement.
#[derive(Debug)]
pub struct DeleteQuery {
    pub table: String,
    pub where_clause: Option<Expression>,
}

/// A parsed statement.
#[derive(Debug)]
pub enum Query {
    Select(SelectQuery),
    Insert(InsertQuery),
    Update(UpdateQuery),
    Delete(DeleteQuery),
    CreateTable(CreateTableQuery),
    DropTable(DropTableQuery),
    /// Any other statement.
    Other(String),
}

} // verus!
