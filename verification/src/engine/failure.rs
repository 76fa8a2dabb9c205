//! The ways a statement can fail, with the error code and message of each.

use vstd::prelude::*;
use crate::errors::{AuroraError, ErrorCode, category_of, severity_of};
use crate::text::{decimal, owned, push_decimal, push_text};

verus! {

/// The aggregate functions.
#[derive(Debug, Clone, Copy, PartialEq, Eq, Structural)]
pub enum AggregateFunction {
    Count,
    Sum,
    Avg,
    Min,
    Max,
}

/// The name of an aggregate function, in capitals.
pub open spec fn aggregate_name(f: AggregateFunction) -> Seq<char> {
    match f {
        AggregateFunction::Count => "COUNT"@,
        AggregateFunction::Sum => "SUM"@,
        AggregateFunction::Avg => "AVG"@,
        AggregateFunction::Min => "MIN"@,
        AggregateFunction::Max => "MAX"@,
    }
}

impl AggregateFunction {
    /// The name of the function, in capitals.
    pub fn name(&self) -> (r: &'static str)
        ensures
            r@ == aggregate_name(*self),
    {
        match self {
            AggregateFunction::Count => "COUNT",
            AggregateFunction::Sum => "SUM",
            AggregateFunction::Avg => "AVG",
            AggregateFunction::Min => "MIN",
            AggregateFunction::Max => "MAX",
        }
    }
}

/// Why the engine refused a statement.
#[derive(Debug)]
pub enum EngineError {
    /// CREATE TABLE of a name the catalog already has.
    TableExists(String),
    /// A statement on a table the catalog does not have.
    TableMissing(String),
    /// A join of a table the catalog does not have.
    JoinedTableMissing(String),
    /// An INSERT row whose number of values is not the number of columns.
    ColumnCountMismatch { columns: usize, values: usize },
    /// A null value for a column that does not take nulls.
    NotNull(String),
    /// An INSERT naming a column the table does not have.
    UnknownColumn { column: String, table: String },
    /// A value that does not fit its column's type.
    TypeMismatch,
    /// A row without a value for a column that needs one.
    RequiredColumn(String),
    /// A table without columns, so without a primary key.
    NoPrimaryKey,
    /// A row without a value for its primary key column.
    MissingPrimaryKey(String),
    /// A join condition naming a column neither row has.
    ColumnNotFound(String),
    /// An expression of a form the engine does not evaluate here.
    UnsupportedExpression,
    /// An aggregate function called without an argument.
    MissingArgument(AggregateFunction),
    /// A call of a function that is not an aggregate.
    UnknownAggregate(String),
    /// A window function the engine does not have.
    UnsupportedWindowFunction(String),
    /// A table schema without columns.
    NoColumns,
    /// A table schema naming a column twice.
    DuplicateColumn(String),
    /// A statement the engine does not run.
    UnsupportedStatement,
}

/// Whether a failure is that of a missing table of the given name.
pub open spec fn is_missing_table(e: EngineError, name: Seq<char>) -> bool {
    e matches EngineError::TableMissing(n) && n@ == name
}

/// The error code of each failure.
pub open spec fn engine_code(e: EngineError) -> ErrorCode {
    match e {
        EngineError::TableExists(_) | EngineError::TableMissing(_) | EngineError::JoinedTableMissing(_)
        | EngineError::NoPrimaryKey => ErrorCode::StorageCorruption,
        EngineError::ColumnCountMismatch { .. } | EngineError::NotNull(_) | EngineError::UnknownColumn { .. }
        | EngineError::NoColumns | EngineError::DuplicateColumn(_) => ErrorCode::ValidationConstraintViolation,
        EngineError::TypeMismatch => ErrorCode::ValidationTypeMismatch,
        EngineError::RequiredColumn(_) | EngineError::MissingPrimaryKey(_) | EngineError::ColumnNotFound(_) =>
            ErrorCode::ValidationRequiredField,
        _ => ErrorCode::QuerySyntaxError,
    }
}

/// The message of each failure.
pub open spec fn engine_message(e: EngineError) -> Seq<char> {
    match e {
        EngineError::TableExists(t) => "Table '"@ + t@ + "' already exists"@,
        EngineError::TableMissing(t) => "Table '"@ + t@ + "' does not exist"@,
        EngineError::JoinedTableMissing(t) => "Joined table '"@ + t@ + "' does not exist"@,
        EngineError::ColumnCountMismatch { columns, values } => "Column count ("@ + decimal(columns as nat)
            + ") doesn't match value count ("@ + decimal(values as nat) + ")"@,
        EngineError::NotNull(c) => "Column '"@ + c@ + "' cannot be null"@,
        EngineError::UnknownColumn { column, table } => "Column '"@ + column@ + "' does not exist in table '"@
            + table@ + "'"@,
        EngineError::TypeMismatch => "Data type mismatch"@,
        EngineError::RequiredColumn(c) => "Column '"@ + c@ + "' is required"@,
        EngineError::NoPrimaryKey => "No primary key column found"@,
        EngineError::MissingPrimaryKey(c) => "Primary key column '"@ + c@ + "' is required"@,
        EngineError::ColumnNotFound(c) => "Column '"@ + c@ + "' not found in joined tables"@,
        EngineError::UnsupportedExpression => "Complex expressions not yet supported"@,
        EngineError::MissingArgument(f) => aggregate_name(f) + " requires an argument"@,
        EngineError::UnknownAggregate(f) => "Unknown aggregate function: "@ + f@,
        EngineError::UnsupportedWindowFunction(f) => "Unsupported window function: "@ + f@,
        EngineError::NoColumns => "Table must have at least one column"@,
        EngineError::DuplicateColumn(c) => "Duplicate column name: "@ + c@,
        EngineError::UnsupportedStatement => "Statement not supported"@,
    }
}

fn quoted(prefix: &str, name: &str, suffix: &str) -> (r: String)
    ensures
        r@ == prefix@ + name@ + suffix@,
{
    let mut s = owned(prefix);
    push_text(&mut s, name);
    push_text(&mut s, suffix);
    s
}

impl EngineError {
    /// The error code of the failure.
    pub fn code(&self) -> (r: ErrorCode)
        ensures
            r == engine_code(*self),
    {
        match self {
            EngineError::TableExists(_) | EngineError::TableMissing(_) | EngineError::JoinedTableMissing(_)
            | EngineError::NoPrimaryKey => ErrorCode::StorageCorruption,
            EngineError::ColumnCountMismatch { .. } | EngineError::NotNull(_) | EngineError::UnknownColumn { .. }
            | EngineError::NoColumns | EngineError::DuplicateColumn(_) => ErrorCode::ValidationConstraintViolation,
            EngineError::TypeMismatch => ErrorCode::ValidationTypeMismatch,
            EngineError::RequiredColumn(_) | EngineError::MissingPrimaryKey(_) | EngineError::ColumnNotFound(_) =>
                ErrorCode::ValidationRequiredField,
            _ => ErrorCode::QuerySyntaxError,
        }
    }

    /// The message of the failure.
    pub fn message(&self) -> (r: String)
        ensures
            r@ == engine_message(*self),
    {
        match self {
            EngineError::TableExists(t) => quoted("Table '", t.as_str(), "' already exists"),
            EngineError::TableMissing(t) => quoted("Table '", t.as_str(), "' does not exist"),
            EngineError::JoinedTableMissing(t) => quoted("Joined table '", t.as_str(), "' does not exist"),
            EngineError::ColumnCountMismatch { columns, values } => {
                let mut s = owned("Column count (");
                push_decimal(&mut s, *columns as u64);
                push_text(&mut s, ") doesn't match value count (");
                push_decimal(&mut s, *values as u64);
                push_text(&mut s, ")");
                s
            },
            EngineError::NotNull(c) => quoted("Column '", c.as_str(), "' cannot be null"),
            EngineError::UnknownColumn { column, table } => {
                let mut s = quoted("Column '", column.as_str(), "' does not exist in table '");
                push_text(&mut s, table.as_str());
                push_text(&mut s, "'");
                s
            },
            EngineError::TypeMismatch => owned("Data type mismatch"),
            EngineError::RequiredColumn(c) => quoted("Column '", c.as_str(), "' is required"),
            EngineError::NoPrimaryKey => owned("No primary key column found"),
            EngineError::MissingPrimaryKey(c) => quoted("Primary key column '", c.as_str(), "' is required"),
            EngineError::ColumnNotFound(c) => quoted("Column '", c.as_str(), "' not found in joined tables"),
            EngineError::UnsupportedExpression => owned("Complex expressions not yet supported"),
            EngineError::MissingArgument(f) => {
                let mut s = owned(f.name());
                push_text(&mut s, " requires an argument");
                s
            },
            EngineError::UnknownAggregate(f) => {
                let mut s = owned("Unknown aggregate function: ");
                push_text(&mut s, f.as_str());
                s
            },
            EngineError::UnsupportedWindowFunction(f) => {
                let mut s = owned("Unsupported window function: ");
                push_text(&mut s, f.as_str());
                s
            },
            EngineError::NoColumns => owned("Table must have at least one column"),
            EngineError::DuplicateColumn(c) => {
                let mut s = owned("Duplicate column name: ");
                push_text(&mut s, c.as_str());
                s
            },
            EngineError::UnsupportedStatement => owned("Statement not supported"),
        }
    }

    /// The failure as a database error: its code and message.
    pub fn to_aurora_error(&self) -> (r: AuroraError)
        ensures
            r.code == engine_code(*self),
            r.category == category_of(engine_code(*self)),
            r.severity == severity_of(engine_code(*self)),
            r.message@ == engine_message(*self),
    {
        let m = self.message();
        AuroraError::new(self.code(), m.as_str())
    }
}

} // verus!
