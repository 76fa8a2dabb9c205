//! The database: a catalog and the rows of each table, and the statements
//! that run against them.  Rows are kept in memory, in insertion order.

use vstd::prelude::*;
use vstd::string::*;
use crate::engine::aggregate::{
    AggregateSpec, AggregateValue, aggregate_row_view, aggregate_row_views, aggregate_rows, execute_aggregation,
    query_groups, reads_first_row,
};
use crate::engine::ast::{
    Assignment, BinaryOperator, CreateTableQuery, DeleteQuery, DropTableQuery, Expression, GroupByClause,
    InsertQuery, JoinClause, OrderByItem, Query, SelectItem, SelectQuery, UpdateQuery,
};
use crate::engine::window::{execute_window_rows, window_arguments_present, window_rows};
use crate::ambient::{to_uppercase, upper_of};
use crate::engine::catalog::{ColumnMetadata, TableCatalog, column_index};
use crate::engine::failure::EngineError;
use crate::engine::rows::{Row, RowMap, copy_row, row_maps};
use crate::engine::values::{DataType, DataValue, Literal, literal_value, real_is_nan, type_accepts, value_eq};
use crate::text::{StringMap, str_equal};

verus! {

/// The user a statement runs for.
#[derive(Debug, Clone)]
pub struct UserContext {
    pub user_id: String,
    pub username: String,
    pub roles: Vec<String>,
    pub client_ip: Option<String>,
    pub session_id: String,
}

/// Transaction isolation levels.
#[derive(Debug, Clone, Copy, PartialEq, Eq, Structural)]
pub enum IsolationLevel {
    ReadUncommitted,
    ReadCommitted,
    RepeatableRead,
    Serializable,
}

/// Index kinds.
#[derive(Debug, Clone, Copy, PartialEq, Eq, Structural)]
pub enum IndexType {
    BTree,
    Hash,
    Vector,
    FullText,
    Spatial,
}

/// An index of a table.
#[derive(Debug, Clone)]
pub struct IndexDefinition {
    pub name: String,
    pub columns: Vec<String>,
    pub index_type: IndexType,
}

/// Kinds of analytics windows.
#[derive(Debug, Clone, Copy, PartialEq, Eq, Structural)]
pub enum WindowType {
    Tumbling,
    Sliding,
    Session,
}

/// The window of an analytics query.
#[derive(Debug, Clone)]
pub struct WindowSpecification {
    pub window_type: WindowType,
    pub size: Option<String>,
    pub slide: Option<String>,
}

/// An analytics query.
#[derive(Debug, Clone)]
pub struct AnalyticsQuery {
    pub sql: String,
    pub window_spec: Option<WindowSpecification>,
    pub aggregation_functions: Vec<String>,
}

/// The health of the database.
#[derive(Debug, Clone, Copy, PartialEq, Eq, Structural)]
pub enum HealthState {
    Healthy,
    Degraded,
    Unhealthy,
}

/// Counters of the database.
#[derive(Debug, Clone, Copy, PartialEq, Eq, Structural)]
pub struct DatabaseMetrics {
    pub total_queries: u64,
    /// The mean time of a query in microseconds (0 before any query).
    pub average_query_time_micros: u64,
    pub active_transactions: usize,
}

/// A column of a table schema.
#[derive(Debug)]
pub struct ColumnDefinition {
    pub name: String,
    pub data_type: DataType,
    pub nullable: bool,
    pub default_value: Option<DataValue>,
}

/// A table schema.
#[derive(Debug)]
pub struct TableSchema {
    pub columns: Vec<ColumnDefinition>,
    pub primary_key: Option<Vec<String>>,
    pub indexes: Vec<IndexDefinition>,
}

/// Whether a schema has a column of a vector type.
pub open spec fn schema_has_vector(schema: TableSchema) -> bool {
    exists|i: int| 0 <= i < schema.columns@.len() && #[trigger] schema.columns@[i].data_type is Vector
}

impl TableSchema {
    /// Whether the schema has a column of a vector type.
    pub fn has_vector_columns(&self) -> (r: bool)
        ensures
            r == schema_has_vector(*self),
    {
        let mut i: usize = 0;
        while i < self.columns.len()
            invariant
                i <= self.columns@.len(),
                forall|j: int| 0 <= j < i ==> !(#[trigger] self.columns@[j].data_type is Vector),
            decreases self.columns.len() - i,
        {
            if let DataType::Vector(_) = &self.columns[i].data_type {
                return true;
            }
            i = i + 1;
        }
        false
    }
}

/// The failure of validating a schema, if any: no columns, or the first
/// column (in order) whose name an earlier column has.
pub open spec fn schema_failure(cols: Seq<ColumnDefinition>) -> Option<EngineError> {
    if cols.len() == 0 {
        Some(EngineError::NoColumns)
    } else {
        first_duplicate(cols, cols.len() as int)
    }
}

/// Among the first `n` columns, the first whose name an earlier column has.
pub open spec fn first_duplicate(cols: Seq<ColumnDefinition>, n: int) -> Option<EngineError>
    decreases n,
{
    if n <= 0 {
        None
    } else {
        match first_duplicate(cols, n - 1) {
            Some(e) => Some(e),
            None => if exists|j: int| 0 <= j < n - 1 && #[trigger] cols[j].name@ == cols[n - 1].name@ {
                Some(EngineError::DuplicateColumn(cols[n - 1].name))
            } else {
                None
            },
        }
    }
}

/// Checks a table schema: it must have a column, and no two columns may
/// share a name.
pub fn validate_table_schema(schema: &TableSchema) -> (r: Result<(), EngineError>)
    ensures
        match schema_failure(schema.columns@) {
            Some(e) => r is Err && r->Err_0 == e,
            None => r is Ok,
        },
{
    let cols = &schema.columns;
    if cols.len() == 0 {
        return Err(EngineError::NoColumns);
    }
    let mut i: usize = 0;
    while i < cols.len()
        invariant
            i <= cols@.len(),
            *cols == schema.columns,
            first_duplicate(cols@, i as int) is None,
        decreases cols.len() - i,
    {
        let mut j: usize = 0;
        while j < i
            invariant
                j <= i < cols@.len(),
                *cols == schema.columns,
                first_duplicate(cols@, i as int) is None,
                forall|k: int| 0 <= k < j ==> #[trigger] cols@[k].name@ != cols@[i as int].name@,
            decreases i - j,
        {
            if str_equal(cols[j].name.as_str(), cols[i].name.as_str()) {
                proof {
                    assert(cols@[j as int].name@ == cols@[i as int].name@);
                    assert(first_duplicate(cols@, i as int + 1) == Some(EngineError::DuplicateColumn(cols@[i as int].name)));
                    lemma_first_duplicate_prefix(cols@, i as int + 1, cols@.len() as int);
                }
                return Err(EngineError::DuplicateColumn(cols[i].name.clone()));
            }
            j = j + 1;
        }
        assert(!exists|k: int| 0 <= k < i && #[trigger] cols@[k].name@ == cols@[i as int].name@);
        i = i + 1;
    }
    Ok(())
}

proof fn lemma_first_duplicate_prefix(cols: Seq<ColumnDefinition>, n: int, m: int)
    requires
        0 <= n <= m,
        first_duplicate(cols, n) is Some,
    ensures
        first_duplicate(cols, m) == first_duplicate(cols, n),
    decreases m,
{
    if m > n {
        lemma_first_duplicate_prefix(cols, n, m - 1);
    }
}

/// The result of a statement.
#[derive(Debug)]
pub struct QueryResult {
    pub rows: Option<Vec<Row>>,
    pub rows_affected: Option<u64>,
    pub execution_time_ms: u64,
    pub query_plan: Option<String>,
}

/// The result of a statement that changes the tables.
pub open spec fn is_change_result(r: QueryResult, affected: nat) -> bool {
    r.rows is None && r.rows_affected == Some(affected as u64) && r.execution_time_ms == 0 && r.query_plan is None
}

fn change_result(affected: u64) -> (r: QueryResult)
    ensures
        is_change_result(r, affected as nat),
{
    QueryResult { rows: None, rows_affected: Some(affected), execution_time_ms: 0, query_plan: None }
}

/// The database: the catalog and each table's rows in insertion order.
pub struct AuroraDB {
    data_directory: String,
    catalog: TableCatalog,
    tables: StringMap<Vec<Row>>,
    query_count: u64,
    total_query_time: u64,
    active_transactions: usize,
}

impl AuroraDB {
    /// The database's invariant: a table has rows exactly when the catalog
    /// has it.
    pub closed spec fn wf(&self) -> bool {
        self.tables@.dom() == self.catalog@.dom()
    }

    /// The catalog's tables.
    pub closed spec fn schema(&self) -> Map<Seq<char>, crate::engine::catalog::TableMetadata> {
        self.catalog@
    }

    /// The rows of each table.
    pub closed spec fn contents(&self) -> Map<Seq<char>, Seq<RowMap>> {
        self.tables@.map_values(|v: Vec<Row>| row_maps(v@))
    }

    /// The directory the database keeps its files in.
    pub closed spec fn directory(&self) -> Seq<char> {
        self.data_directory@
    }

    /// An empty database keeping its files in `data_directory`.
    pub fn new(data_directory: String) -> (r: Self)
        ensures
            r.schema() == Map::<Seq<char>, crate::engine::catalog::TableMetadata>::empty(),
            r.contents() == Map::<Seq<char>, Seq<RowMap>>::empty(),
            r.directory() == data_directory@,
            r.wf(),
            r.queries_run() == 0,
            r.query_time() == 0,
            r.open_transactions() == 0,
    {
        let mut path = data_directory.clone();
        crate::text::push_text(&mut path, "/catalog");
        let db = AuroraDB {
            data_directory,
            catalog: TableCatalog::new(path),
            tables: StringMap::new(),
            query_count: 0,
            total_query_time: 0,
            active_transactions: 0,
        };
        assert(db.contents() =~= Map::<Seq<char>, Seq<RowMap>>::empty());
        assert(db.tables@.dom() =~= db.catalog@.dom());
        db
    }

    /// The catalog.
    pub fn catalog(&self) -> (r: &TableCatalog)
        ensures
            r@ == self.schema(),
    {
        &self.catalog
    }

    /// CREATE TABLE: adds the table to the catalog, with no rows.  Fails,
    /// changing nothing, when the table exists.
    pub fn execute_create_table(&mut self, create_query: CreateTableQuery) -> (r: Result<QueryResult, EngineError>)
        requires
            old(self).wf(),
        ensures
            create_effect(*old(self), *final(self), create_query, r),
    {
        let name = create_query.name.clone();
        let ghost q = create_query;
        let ghost before = self.contents();
        match self.catalog.create_table(create_query) {
            Ok(()) => {},
            Err(e) => return Err(e),
        }
        let ghost name_view = name@;
        self.tables.insert(name, Vec::new());
        proof {
            assert(row_maps(Seq::<Row>::empty()) =~= Seq::<RowMap>::empty());
            assert(self.contents() =~= before.insert(name_view, Seq::empty()));
            assert(self.tables@.dom() =~= self.catalog@.dom());
        }
        Ok(change_result(0))
    }

    /// DROP TABLE: removes the table and its rows.  A missing table fails,
    /// changing nothing, unless the statement says IF EXISTS.
    pub fn execute_drop_table(&mut self, drop_query: &DropTableQuery) -> (r: Result<QueryResult, EngineError>)
        requires
            old(self).wf(),
        ensures
            drop_effect(*old(self), *final(self), *drop_query, r),
    {
        let ghost before = self.contents();
        match self.catalog.drop_table(drop_query) {
            Ok(()) => {},
            Err(e) => return Err(e),
        }
        self.tables.remove(drop_query.name.as_str());
        proof {
            assert(self.tables@.dom() =~= self.catalog@.dom());
            assert(self.contents() =~= before.remove(drop_query.name@));
            if !before.contains_key(drop_query.name@) {
                assert(self.contents() =~= before);
            }
        }
        Ok(change_result(0))
    }
}

/// Why evaluating a value of a statement stops: a failure, or a
/// floating-point literal that is not finite (which a JSON number cannot
/// hold).
pub enum Stop {
    Fail(EngineError),
    NotFinite,
}

/// Whether a bit pattern is a finite number (not an infinity or a NaN).
pub open spec fn real_is_finite(bits: u64) -> bool {
    (bits & 0x7ff0_0000_0000_0000u64) != 0x7ff0_0000_0000_0000u64
}

/// The value of an expression in INSERT and UPDATE: a literal's value; any
/// other expression fails.
pub open spec fn dml_value(expr: Expression) -> Result<DataValue, Stop> {
    match expr {
        Expression::Literal(lit) => match lit {
            Literal::Float(f) => if real_is_finite(f.bits) {
                Ok(DataValue::Real(f))
            } else {
                Err(Stop::NotFinite)
            },
            _ => Ok(literal_value(lit)),
        },
        _ => Err(Stop::Fail(EngineError::UnsupportedExpression)),
    }
}

/// Evaluates an expression of INSERT or UPDATE (see `dml_value`).
pub fn evaluate_expression(expr: &Expression) -> (r: Result<DataValue, EngineError>)
    requires
        !(dml_value(*expr) is Err && dml_value(*expr)->Err_0 is NotFinite),
    ensures
        match dml_value(*expr) {
            Ok(v) => r is Ok && r->Ok_0 == v,
            Err(Stop::Fail(e)) => r is Err && r->Err_0 == e,
            Err(Stop::NotFinite) => false,
        },
{
    match expr {
        Expression::Literal(lit) => Ok(crate::engine::values::literal_to_datavalue(lit)),
        _ => Err(EngineError::UnsupportedExpression),
    }
}

/// The columns an INSERT fills: those it names, or all of the table's in
/// order when it names none.
pub open spec fn insert_target(named: Seq<String>, cols: Seq<ColumnMetadata>) -> Seq<String> {
    if named.len() == 0 {
        cols.map_values(|c: ColumnMetadata| c.name)
    } else {
        named
    }
}

/// The row the first `n` values of an INSERT row build, value by value: each
/// value must be a literal, name a column of the table, fit its type, and be
/// null only where the column takes nulls.
pub open spec fn insert_values(values: Seq<Expression>, target: Seq<String>, cols: Seq<ColumnMetadata>, table: String, n: int) -> Result<
    RowMap,
    Stop,
>
    decreases n,
{
    if n <= 0 {
        Ok(Map::empty())
    } else {
        match insert_values(values, target, cols, table, n - 1) {
            Err(s) => Err(s),
            Ok(row) => match dml_value(values[n - 1]) {
                Err(s) => Err(s),
                Ok(v) => match column_index(cols, target[n - 1]@) {
                    None => Err(Stop::Fail(EngineError::UnknownColumn { column: target[n - 1], table })),
                    Some(ci) => if !type_accepts(cols[ci].data_type, v) {
                        Err(Stop::Fail(EngineError::TypeMismatch))
                    } else if !cols[ci].nullable && v is Null {
                        Err(Stop::Fail(EngineError::NotNull(target[n - 1])))
                    } else {
                        Ok(row.insert(target[n - 1]@, v))
                    },
                },
            },
        }
    }
}

/// The row one value list of an INSERT builds; the list must have as many
/// values as there are target columns.
pub open spec fn insert_row_outcome(values: Seq<Expression>, target: Seq<String>, cols: Seq<ColumnMetadata>, table: String) -> Result<
    RowMap,
    Stop,
> {
    if target.len() != values.len() {
        Err(Stop::Fail(EngineError::ColumnCountMismatch { columns: target.len() as usize, values: values.len() as usize }))
    } else {
        insert_values(values, target, cols, table, values.len() as int)
    }
}

/// The rows an INSERT adds, list by list, and where it stops: each list's
/// row is stored before the next list is read, so the rows before a failing
/// list stay.
pub open spec fn insert_all(lists: Seq<Vec<Expression>>, target: Seq<String>, cols: Seq<ColumnMetadata>, table: String) -> (
    Seq<RowMap>,
    Option<Stop>,
)
    decreases lists.len(),
{
    if lists.len() == 0 {
        (Seq::empty(), None)
    } else {
        let (done, stop) = insert_all(lists.drop_last(), target, cols, table);
        if stop is Some {
            (done, stop)
        } else {
            match insert_row_outcome(lists.last()@, target, cols, table) {
                Ok(row) => (done.push(row), None),
                Err(s) => (done, Some(s)),
            }
        }
    }
}

proof fn lemma_insert_all_stop(lists: Seq<Vec<Expression>>, target: Seq<String>, cols: Seq<ColumnMetadata>, table: String, n: int)
    requires
        0 <= n <= lists.len(),
        insert_all(lists.take(n), target, cols, table).1 is Some,
    ensures
        insert_all(lists, target, cols, table) == insert_all(lists.take(n), target, cols, table),
    decreases lists.len(),
{
    if n < lists.len() {
        assert(lists.drop_last().take(n) =~= lists.take(n));
        lemma_insert_all_stop(lists.drop_last(), target, cols, table, n);
    } else {
        assert(lists.take(n) =~= lists);
    }
}

proof fn lemma_insert_values_stop(values: Seq<Expression>, target: Seq<String>, cols: Seq<ColumnMetadata>, table: String, n: int, m: int)
    requires
        0 <= n <= m,
        insert_values(values, target, cols, table, n) is Err,
    ensures
        insert_values(values, target, cols, table, m) == insert_values(values, target, cols, table, n),
    decreases m,
{
    if m > n {
        lemma_insert_values_stop(values, target, cols, table, n, m - 1);
    }
}

fn build_insert_row(values: &Vec<Expression>, target: &Vec<String>, cols: &Vec<ColumnMetadata>, table: &String) -> (r: Result<
    Row,
    EngineError,
>)
    requires
        !(insert_row_outcome(values@, target@, cols@, *table) matches Err(Stop::NotFinite)),
    ensures
        match insert_row_outcome(values@, target@, cols@, *table) {
            Ok(row) => r is Ok && r->Ok_0@ == row,
            Err(Stop::Fail(e)) => r is Err && r->Err_0 == e,
            Err(Stop::NotFinite) => false,
        },
{
    if target.len() != values.len() {
        return Err(EngineError::ColumnCountMismatch { columns: target.len(), values: values.len() });
    }
    let mut row: Row = StringMap::new();
    let mut i: usize = 0;
    while i < values.len()
        invariant
            i <= values@.len(),
            target@.len() == values@.len(),
            !(insert_values(values@, target@, cols@, *table, values@.len() as int) matches Err(Stop::NotFinite)),
            insert_values(values@, target@, cols@, *table, i as int) == Ok::<RowMap, Stop>(row@),
        decreases values.len() - i,
    {
        let name = &target[i];
        proof {
            if dml_value(values@[i as int]) matches Err(Stop::NotFinite) {
                lemma_insert_values_stop(values@, target@, cols@, *table, i as int + 1, values@.len() as int);
            }
        }
        let v = match evaluate_expression(&values[i]) {
            Ok(v) => v,
            Err(e) => {
                proof {
                    lemma_insert_values_stop(values@, target@, cols@, *table, i as int + 1, values@.len() as int);
                }
                return Err(e);
            },
        };
        let mut ci: usize = 0;
        let mut found = false;
        while ci < cols.len() && !found
            invariant
                ci <= cols@.len(),
                found ==> ci < cols@.len() && column_index(cols@, name@) == Some(ci as int),
                !found ==> column_index(cols@.take(ci as int), name@) is None,
            decreases cols.len() - ci + if found {
                0int
            } else {
                1int
            },
        {
            assert(cols@.take(ci as int + 1).drop_last() =~= cols@.take(ci as int));
            if str_equal(cols[ci].name.as_str(), name.as_str()) {
                proof {
                    lemma_column_index_take(cols@, name@, ci as int + 1);
                }
                found = true;
            } else {
                ci = ci + 1;
            }
        }
        if !found {
            assert(cols@.take(ci as int) =~= cols@);
            proof {
                lemma_insert_values_stop(values@, target@, cols@, *table, i as int + 1, values@.len() as int);
            }
            return Err(EngineError::UnknownColumn { column: name.clone(), table: table.clone() });
        }
        let c = &cols[ci];
        if !crate::engine::values::type_accepts_value(&c.data_type, &v) {
            proof {
                lemma_insert_values_stop(values@, target@, cols@, *table, i as int + 1, values@.len() as int);
            }
            return Err(EngineError::TypeMismatch);
        }
        if !c.nullable && v.is_null() {
            proof {
                lemma_insert_values_stop(values@, target@, cols@, *table, i as int + 1, values@.len() as int);
            }
            return Err(EngineError::NotNull(name.clone()));
        }
        row.insert(name.clone(), v);
        i = i + 1;
    }
    Ok(row)
}

proof fn lemma_column_index_take(cols: Seq<ColumnMetadata>, name: Seq<char>, n: int)
    requires
        0 < n <= cols.len(),
        column_index(cols.take(n - 1), name) is None,
        cols[n - 1].name@ == name,
    ensures
        column_index(cols, name) == Some(n - 1),
    decreases cols.len(),
{
    if n < cols.len() {
        assert(cols.drop_last().take(n - 1) =~= cols.take(n - 1));
        lemma_column_index_take(cols.drop_last(), name, n);
        assert(column_index(cols.drop_last(), name) == Some(n - 1));
    } else {
        assert(cols.drop_last() =~= cols.take(n - 1));
    }
}

impl AuroraDB {
    /// INSERT: checks each value list in order and stores its row (each row
    /// is its own committed change, so rows stored before a failing list
    /// stay).  A missing table fails and changes nothing.
    pub fn execute_insert(&mut self, insert_query: &InsertQuery) -> (r: Result<QueryResult, EngineError>)
        requires
            old(self).wf(),
            insert_runs(*old(self), *insert_query),
        ensures
            insert_effect(*old(self), *final(self), *insert_query, r),
    {
        if !self.catalog.table_exists(insert_query.table.as_str()) {
            return Err(EngineError::TableMissing(insert_query.table.clone()));
        }
        let ghost old_contents = self.contents();
        let ghost table = insert_query.table@;
        let cols = match self.catalog.get_columns(insert_query.table.as_str()) {
            Ok(c) => c,
            Err(e) => return Err(e),
        };
        let target: Vec<String> = if insert_query.columns.len() == 0 {
            let mut t: Vec<String> = Vec::new();
            let mut k: usize = 0;
            while k < cols.len()
                invariant
                    k <= cols@.len(),
                    t@ == cols@.take(k as int).map_values(|c: ColumnMetadata| c.name),
                decreases cols.len() - k,
            {
                t.push(cols[k].name.clone());
                k = k + 1;
                assert(t@ =~= cols@.take(k as int).map_values(|c: ColumnMetadata| c.name));
            }
            assert(cols@.take(k as int) =~= cols@);
            t
        } else {
            crate::text::copy_strings(&insert_query.columns)
        };
        assert(target@ == insert_target(insert_query.columns@, cols@));
        let pos = match self.tables.position(insert_query.table.as_str()) {
            Some(p) => p,
            None => {
                assert(self.tables@.dom().contains(table));
                return Err(EngineError::TableMissing(insert_query.table.clone()));
            },
        };
        let lists = &insert_query.values;
        let mut count: u64 = 0;
        let mut li: usize = 0;
        while li < lists.len()
            invariant
                li <= lists@.len(),
                self.wf(),
                self.catalog@ == old(self).catalog@,
                pos < self.tables.entry_seq().len(),
                self.tables.entry_seq()[pos as int].0@ == table,
                self.tables@.contains_key(table),
                self.tables@[table] == self.tables.entry_seq()[pos as int].1,
                table == insert_query.table@,
                *lists == insert_query.values,
                *cols == old(self).schema()[table].columns,
                target@ == insert_target(insert_query.columns@, cols@),
                old_contents == old(self).contents(),
                old_contents.contains_key(table),
                !(insert_all(lists@, target@, cols@, insert_query.table).1 matches Some(Stop::NotFinite)),
                insert_all(lists@.take(li as int), target@, cols@, insert_query.table).1 is None,
                count == insert_all(lists@.take(li as int), target@, cols@, insert_query.table).0.len(),
                count <= li,
                self.contents() == old_contents.insert(
                    table,
                    old_contents[table] + insert_all(lists@.take(li as int), target@, cols@, insert_query.table).0,
                ),
            decreases lists.len() - li,
        {
            assert(lists@.take(li as int + 1).drop_last() =~= lists@.take(li as int));
            proof {
                if insert_row_outcome(lists@[li as int]@, target@, cols@, insert_query.table) is Err {
                    lemma_insert_all_stop(lists@, target@, cols@, insert_query.table, li as int + 1);
                }
            }
            match build_insert_row(&lists[li], &target, cols, &insert_query.table) {
                Ok(row) => {
                    let ghost before = self.contents();
                    let mut rows = self.tables.swap_value(pos, Vec::new());
                    rows.push(row);
                    let ghost new_rows = row_maps(rows@);
                    self.tables.swap_value(pos, rows);
                    proof {
                        assert(new_rows =~= before[table].push(row@));
                        assert(self.contents() =~= before.insert(table, new_rows));
                        assert(self.tables@.dom() =~= self.catalog@.dom()) by {
                            assert(self.catalog@.dom().contains(table));
                        }
                    }
                    count = count + 1;
                },
                Err(e) => {
                    proof {
                        assert(lists@.take(li as int + 1).last() == lists@[li as int]);
                        assert(insert_all(lists@.take(li as int + 1), target@, cols@, insert_query.table) == (
                            insert_all(lists@.take(li as int), target@, cols@, insert_query.table).0,
                            Some(Stop::Fail(e)),
                        ));
                        lemma_insert_all_stop(lists@, target@, cols@, insert_query.table, li as int + 1);
                    }
                    return Err(e);
                },
            }
            li = li + 1;
        }
        assert(lists@.take(li as int) =~= lists@);
        Ok(change_result(count))
    }
}

/// The primary key column of a table: its first column named `id`, else its
/// first column.
pub open spec fn primary_key_column(cols: Seq<ColumnMetadata>) -> Option<String> {
    match column_index(cols, "id"@) {
        Some(i) => Some(cols[i].name),
        None => if cols.len() > 0 {
            Some(cols[0].name)
        } else {
            None
        },
    }
}

/// A row's primary key: its column and value.  A table without columns, or
/// a row without a value in the key column, fails.
pub open spec fn primary_key_of(row: RowMap, cols: Seq<ColumnMetadata>) -> Result<(Seq<char>, DataValue), Stop> {
    match primary_key_column(cols) {
        None => Err(Stop::Fail(EngineError::NoPrimaryKey)),
        Some(c) => if row.contains_key(c@) {
            Ok((c@, row[c@]))
        } else {
            Err(Stop::Fail(EngineError::MissingPrimaryKey(c)))
        },
    }
}

/// The index of the first stored row whose key column holds a value equal
/// to `v`.
pub open spec fn key_row_index(rows: Seq<RowMap>, col: Seq<char>, v: DataValue) -> Option<int>
    decreases rows.len(),
{
    if rows.len() == 0 {
        None
    } else {
        match key_row_index(rows.drop_last(), col, v) {
            Some(j) => Some(j),
            None => if rows.last().contains_key(col) && value_eq(rows.last()[col], v) {
                Some(rows.len() - 1)
            } else {
                None
            },
        }
    }
}

/// A row with the assignments of an UPDATE made in order; an assigned value
/// must be a literal.
pub open spec fn assigned_row(row: RowMap, assigns: Seq<Assignment>) -> Result<RowMap, Stop>
    decreases assigns.len(),
{
    if assigns.len() == 0 {
        Ok(row)
    } else {
        match assigned_row(row, assigns.drop_last()) {
            Err(s) => Err(s),
            Ok(r) => match dml_value(assigns.last().value) {
                Err(s) => Err(s),
                Ok(v) => Ok(r.insert(assigns.last().column@, v)),
            },
        }
    }
}

/// The stored rows after an UPDATE of the matched rows, in order, and the
/// number of rows changed: each matched row, with the assignments made,
/// replaces the first stored row with its primary key value.
pub open spec fn update_all(store: Seq<RowMap>, targets: Seq<RowMap>, cols: Seq<ColumnMetadata>, assigns: Seq<Assignment>) -> Result<
    (Seq<RowMap>, nat),
    Stop,
>
    decreases targets.len(),
{
    if targets.len() == 0 {
        Ok((store, 0))
    } else {
        match update_all(store, targets.drop_last(), cols, assigns) {
            Err(s) => Err(s),
            Ok((st, n)) => match primary_key_of(targets.last(), cols) {
                Err(s) => Err(s),
                Ok((c, v)) => match assigned_row(targets.last(), assigns) {
                    Err(s) => Err(s),
                    Ok(u) => match key_row_index(st, c, v) {
                        Some(j) => Ok((st.update(j, u), n + 1)),
                        None => Ok((st, n)),
                    },
                },
            },
        }
    }
}

/// The stored rows after a DELETE of the matched rows, in order, and the
/// number of rows removed: each matched row removes the first stored row
/// with its primary key value.
pub open spec fn delete_all(store: Seq<RowMap>, targets: Seq<RowMap>, cols: Seq<ColumnMetadata>) -> Result<
    (Seq<RowMap>, nat),
    Stop,
>
    decreases targets.len(),
{
    if targets.len() == 0 {
        Ok((store, 0))
    } else {
        match delete_all(store, targets.drop_last(), cols) {
            Err(s) => Err(s),
            Ok((st, n)) => match primary_key_of(targets.last(), cols) {
                Err(s) => Err(s),
                Ok((c, v)) => match key_row_index(st, c, v) {
                    Some(j) => Ok((st.remove(j), n + 1)),
                    None => Ok((st, n)),
                },
            },
        }
    }
}

/// The rows a WHERE clause matches, or all rows without one.
pub open spec fn matched_rows(rows: Seq<RowMap>, where_clause: Option<Expression>) -> Seq<RowMap> {
    match where_clause {
        Some(w) => crate::engine::rows::rows_where(rows, w),
        None => rows,
    }
}

fn copy_rows(rows: &Vec<Row>) -> (r: Vec<Row>)
    ensures
        row_maps(r@) == row_maps(rows@),
{
    let mut out: Vec<Row> = Vec::new();
    let mut i: usize = 0;
    while i < rows.len()
        invariant
            i <= rows@.len(),
            row_maps(out@) == row_maps(rows@).take(i as int),
        decreases rows.len() - i,
    {
        let c = copy_row(&rows[i]);
        proof {
            crate::engine::rows::lemma_row_maps_push(out@, c);
        }
        out.push(c);
        i = i + 1;
        assert(row_maps(out@) =~= row_maps(rows@).take(i as int));
    }
    assert(row_maps(rows@).take(i as int) =~= row_maps(rows@));
    out
}

fn primary_key_name(cols: &Vec<ColumnMetadata>) -> (r: Option<String>)
    ensures
        r == primary_key_column(cols@),
{
    let mut i: usize = 0;
    while i < cols.len()
        invariant
            i <= cols@.len(),
            column_index(cols@.take(i as int), "id"@) is None,
        decreases cols.len() - i,
    {
        assert(cols@.take(i as int + 1).drop_last() =~= cols@.take(i as int));
        if str_equal(cols[i].name.as_str(), "id") {
            proof {
                lemma_column_index_take(cols@, "id"@, i as int + 1);
            }
            return Some(cols[i].name.clone());
        }
        i = i + 1;
    }
    assert(cols@.take(i as int) =~= cols@);
    if cols.len() > 0 {
        Some(cols[0].name.clone())
    } else {
        None
    }
}

fn find_key_row(rows: &Vec<Row>, col: &str, v: &DataValue) -> (r: Option<usize>)
    ensures
        match r {
            Some(j) => key_row_index(row_maps(rows@), col@, *v) == Some(j as int),
            None => key_row_index(row_maps(rows@), col@, *v) is None,
        },
{
    let ghost maps = row_maps(rows@);
    let mut j: usize = 0;
    while j < rows.len()
        invariant
            j <= rows@.len(),
            maps == row_maps(rows@),
            key_row_index(maps.take(j as int), col@, *v) is None,
        decreases rows.len() - j,
    {
        assert(maps.take(j as int + 1).drop_last() =~= maps.take(j as int));
        assert(maps.take(j as int + 1).last() == rows@[j as int]@);
        match rows[j].get(col) {
            Some(x) => {
                if crate::engine::values::values_equal(x, v) {
                    proof {
                        lemma_key_row_index_prefix(maps, col@, *v, j as int + 1);
                    }
                    return Some(j);
                }
            },
            None => {},
        }
        j = j + 1;
    }
    assert(maps.take(j as int) =~= maps);
    None
}

proof fn lemma_key_row_index_prefix(rows: Seq<RowMap>, col: Seq<char>, v: DataValue, n: int)
    requires
        0 <= n <= rows.len(),
        key_row_index(rows.take(n), col, v) is Some,
    ensures
        key_row_index(rows, col, v) == key_row_index(rows.take(n), col, v),
    decreases rows.len(),
{
    if n < rows.len() {
        assert(rows.drop_last().take(n) =~= rows.take(n));
        lemma_key_row_index_prefix(rows.drop_last(), col, v, n);
    } else {
        assert(rows.take(n) =~= rows);
    }
}

proof fn lemma_key_row_index_bound(rows: Seq<RowMap>, col: Seq<char>, v: DataValue)
    ensures
        key_row_index(rows, col, v) matches Some(j) ==> 0 <= j < rows.len(),
    decreases rows.len(),
{
    if rows.len() > 0 {
        lemma_key_row_index_bound(rows.drop_last(), col, v);
    }
}

fn row_primary_key(row: &Row, pk: &Option<String>) -> (r: Result<DataValue, EngineError>)
    ensures
        match pk {
            None => r is Err && r->Err_0 == EngineError::NoPrimaryKey,
            Some(c) => if row@.contains_key(c@) {
                r is Ok && r->Ok_0 == row@[c@]
            } else {
                r is Err && r->Err_0 == EngineError::MissingPrimaryKey(*c)
            },
        },
{
    match pk {
        None => Err(EngineError::NoPrimaryKey),
        Some(c) => match row.get(c.as_str()) {
            Some(v) => Ok(v.duplicate()),
            None => Err(EngineError::MissingPrimaryKey(c.clone())),
        },
    }
}

proof fn lemma_assigned_row_stop(row: RowMap, assigns: Seq<Assignment>, n: int)
    requires
        0 <= n <= assigns.len(),
        assigned_row(row, assigns.take(n)) is Err,
    ensures
        assigned_row(row, assigns) == assigned_row(row, assigns.take(n)),
    decreases assigns.len(),
{
    if n < assigns.len() {
        assert(assigns.drop_last().take(n) =~= assigns.take(n));
        lemma_assigned_row_stop(row, assigns.drop_last(), n);
    } else {
        assert(assigns.take(n) =~= assigns);
    }
}

fn apply_assignments(row: &Row, assigns: &Vec<Assignment>) -> (r: Result<Row, EngineError>)
    requires
        !(assigned_row(row@, assigns@) matches Err(Stop::NotFinite)),
    ensures
        match assigned_row(row@, assigns@) {
            Ok(m) => r is Ok && r->Ok_0@ == m,
            Err(Stop::Fail(e)) => r is Err && r->Err_0 == e,
            Err(Stop::NotFinite) => false,
        },
{
    let mut out = copy_row(row);
    let mut i: usize = 0;
    proof {
        assert(assigns@.take(0).len() == 0);
    }
    while i < assigns.len()
        invariant
            i <= assigns@.len(),
            !(assigned_row(row@, assigns@) matches Err(Stop::NotFinite)),
            assigned_row(row@, assigns@.take(i as int)) == Ok::<RowMap, Stop>(out@),
        decreases assigns.len() - i,
    {
        assert(assigns@.take(i as int + 1).drop_last() =~= assigns@.take(i as int));
        assert(assigns@.take(i as int + 1).last() == assigns@[i as int]);
        proof {
            if dml_value(assigns@[i as int].value) is Err {
                lemma_assigned_row_stop(row@, assigns@, i as int + 1);
            }
        }
        let v = match evaluate_expression(&assigns[i].value) {
            Ok(v) => v,
            Err(e) => return Err(e),
        };
        out.insert(assigns[i].column.clone(), v);
        i = i + 1;
    }
    assert(assigns@.take(i as int) =~= assigns@);
    Ok(out)
}

proof fn lemma_update_all_stop(store: Seq<RowMap>, targets: Seq<RowMap>, cols: Seq<ColumnMetadata>, assigns: Seq<Assignment>, n: int)
    requires
        0 <= n <= targets.len(),
        update_all(store, targets.take(n), cols, assigns) is Err,
    ensures
        update_all(store, targets, cols, assigns) == update_all(store, targets.take(n), cols, assigns),
    decreases targets.len(),
{
    if n < targets.len() {
        assert(targets.drop_last().take(n) =~= targets.take(n));
        lemma_update_all_stop(store, targets.drop_last(), cols, assigns, n);
    } else {
        assert(targets.take(n) =~= targets);
    }
}

proof fn lemma_delete_all_stop(store: Seq<RowMap>, targets: Seq<RowMap>, cols: Seq<ColumnMetadata>, n: int)
    requires
        0 <= n <= targets.len(),
        delete_all(store, targets.take(n), cols) is Err,
    ensures
        delete_all(store, targets, cols) == delete_all(store, targets.take(n), cols),
    decreases targets.len(),
{
    if n < targets.len() {
        assert(targets.drop_last().take(n) =~= targets.take(n));
        lemma_delete_all_stop(store, targets.drop_last(), cols, n);
    } else {
        assert(targets.take(n) =~= targets);
    }
}

impl AuroraDB {
    /// UPDATE: for each row the WHERE clause matches (all rows without one),
    /// in order, makes the assignments and replaces the first stored row with
    /// the row's primary key value.  The change is committed at the end: a
    /// failure changes nothing.  A missing table fails.
    pub fn execute_update(&mut self, update_query: &UpdateQuery) -> (r: Result<QueryResult, EngineError>)
        requires
            old(self).wf(),
            update_runs(*old(self), *update_query),
        ensures
            update_effect(*old(self), *final(self), *update_query, r),
    {
        if !self.catalog.table_exists(update_query.table.as_str()) {
            return Err(EngineError::TableMissing(update_query.table.clone()));
        }
        let ghost table = update_query.table@;
        let ghost old_contents = self.contents();
        let cols = match self.catalog.get_columns(update_query.table.as_str()) {
            Ok(c) => c,
            Err(e) => return Err(e),
        };
        let pk = primary_key_name(cols);
        let pos = match self.tables.position(update_query.table.as_str()) {
            Some(p) => p,
            None => return Err(EngineError::TableMissing(update_query.table.clone())),
        };
        let (_, rows) = self.tables.entry_at(pos);
        let ghost store = row_maps(rows@);
        assert(store == old_contents[table]);
        let targets = match &update_query.where_clause {
            Some(w) => crate::engine::rows::apply_where_clause(rows, w),
            None => copy_rows(rows),
        };
        let ghost tmaps = row_maps(targets@);
        assert(tmaps == matched_rows(store, update_query.where_clause));
        let mut work = copy_rows(rows);
        let mut count: u64 = 0;
        let mut i: usize = 0;
        let ghost assigns = update_query.assignments@;
        while i < targets.len()
            invariant
                i <= targets@.len(),
                *self == *old(self),
                old(self).wf(),
                table == update_query.table@,
                old(self).schema().contains_key(table),
                store == old(self).contents()[table],
                *cols == old(self).schema()[table].columns,
                tmaps == matched_rows(store, update_query.where_clause),
                tmaps == row_maps(targets@),
                assigns == update_query.assignments@,
                pk == primary_key_column(cols@),
                !(update_all(store, tmaps, cols@, assigns) matches Err(Stop::NotFinite)),
                update_all(store, tmaps.take(i as int), cols@, assigns) == Ok::<(Seq<RowMap>, nat), Stop>(
                    (row_maps(work@), count as nat),
                ),
                count <= i,
            decreases targets.len() - i,
        {
            assert(tmaps.take(i as int + 1).drop_last() =~= tmaps.take(i as int));
            assert(tmaps.take(i as int + 1).last() == targets@[i as int]@);
            let pkv = match row_primary_key(&targets[i], &pk) {
                Ok(v) => v,
                Err(e) => {
                    proof {
                        lemma_update_all_stop(store, tmaps, cols@, assigns, i as int + 1);
                    }
                    return Err(e);
                },
            };
            proof {
                if assigned_row(targets@[i as int]@, assigns) is Err {
                    lemma_update_all_stop(store, tmaps, cols@, assigns, i as int + 1);
                }
            }
            let u = match apply_assignments(&targets[i], &update_query.assignments) {
                Ok(u) => u,
                Err(e) => return Err(e),
            };
            let pk_name: &String = match &pk {
                Some(c) => c,
                None => return Err(EngineError::NoPrimaryKey),
            };
            match find_key_row(&work, pk_name.as_str(), &pkv) {
                Some(j) => {
                    proof {
                        lemma_key_row_index_bound(row_maps(work@), pk_name@, pkv);
                    }
                    let ghost before = row_maps(work@);
                    let ghost uv = u@;
                    work.remove(j);
                    work.insert(j, u);
                    assert(row_maps(work@) =~= before.update(j as int, uv));
                    count = count + 1;
                },
                None => {},
            }
            i = i + 1;
        }
        assert(tmaps.take(i as int) =~= tmaps);
        let ghost new_store = row_maps(work@);
        self.tables.swap_value(pos, work);
        proof {
            assert(self.contents() =~= old_contents.insert(table, new_store));
            assert(self.tables@.dom() =~= self.catalog@.dom()) by {
                assert(self.catalog@.dom().contains(table));
            }
        }
        Ok(change_result(count))
    }

    /// DELETE: for each row the WHERE clause matches (all rows without one),
    /// in order, removes the first stored row with the row's primary key
    /// value.  The change is committed at the end: a failure changes nothing.
    /// A missing table fails.
    pub fn execute_delete(&mut self, delete_query: &DeleteQuery) -> (r: Result<QueryResult, EngineError>)
        requires
            old(self).wf(),
        ensures
            delete_effect(*old(self), *final(self), *delete_query, r),
    {
        if !self.catalog.table_exists(delete_query.table.as_str()) {
            return Err(EngineError::TableMissing(delete_query.table.clone()));
        }
        let ghost table = delete_query.table@;
        let ghost old_contents = self.contents();
        let cols = match self.catalog.get_columns(delete_query.table.as_str()) {
            Ok(c) => c,
            Err(e) => return Err(e),
        };
        let pk = primary_key_name(cols);
        let pos = match self.tables.position(delete_query.table.as_str()) {
            Some(p) => p,
            None => return Err(EngineError::TableMissing(delete_query.table.clone())),
        };
        let (_, rows) = self.tables.entry_at(pos);
        let ghost store = row_maps(rows@);
        assert(store == old_contents[table]);
        let targets = match &delete_query.where_clause {
            Some(w) => crate::engine::rows::apply_where_clause(rows, w),
            None => copy_rows(rows),
        };
        let ghost tmaps = row_maps(targets@);
        assert(tmaps == matched_rows(store, delete_query.where_clause));
        let mut work = copy_rows(rows);
        let mut count: u64 = 0;
        let mut i: usize = 0;
        while i < targets.len()
            invariant
                i <= targets@.len(),
                *self == *old(self),
                old(self).wf(),
                table == delete_query.table@,
                old(self).schema().contains_key(table),
                store == old(self).contents()[table],
                *cols == old(self).schema()[table].columns,
                tmaps == matched_rows(store, delete_query.where_clause),
                tmaps == row_maps(targets@),
                pk == primary_key_column(cols@),
                delete_all(store, tmaps.take(i as int), cols@) == Ok::<(Seq<RowMap>, nat), Stop>(
                    (row_maps(work@), count as nat),
                ),
                count <= i,
            decreases targets.len() - i,
        {
            assert(tmaps.take(i as int + 1).drop_last() =~= tmaps.take(i as int));
            assert(tmaps.take(i as int + 1).last() == targets@[i as int]@);
            let pkv = match row_primary_key(&targets[i], &pk) {
                Ok(v) => v,
                Err(e) => {
                    proof {
                        lemma_delete_all_stop(store, tmaps, cols@, i as int + 1);
                    }
                    return Err(e);
                },
            };
            let pk_name: &String = match &pk {
                Some(c) => c,
                None => return Err(EngineError::NoPrimaryKey),
            };
            match find_key_row(&work, pk_name.as_str(), &pkv) {
                Some(j) => {
                    proof {
                        lemma_key_row_index_bound(row_maps(work@), pk_name@, pkv);
                    }
                    let ghost before = row_maps(work@);
                    work.remove(j);
                    assert(row_maps(work@) =~= before.remove(j as int));
                    count = count + 1;
                },
                None => {},
            }
            i = i + 1;
        }
        assert(tmaps.take(i as int) =~= tmaps);
        let ghost new_store = row_maps(work@);
        self.tables.swap_value(pos, work);
        proof {
            assert(self.contents() =~= old_contents.insert(table, new_store));
            assert(self.tables@.dom() =~= self.catalog@.dom()) by {
                assert(self.catalog@.dom().contains(table));
            }
        }
        Ok(change_result(count))
    }
}

/// The rows of a SELECT's tables after its joins, in order; a missing
/// joined table or a failing join condition fails.
pub open spec fn joined_rows(contents: Map<Seq<char>, Seq<RowMap>>, base: Seq<RowMap>, joins: Seq<JoinClause>) -> Result<
    Seq<RowMap>,
    EngineError,
>
    decreases joins.len(),
{
    if joins.len() == 0 {
        Ok(base)
    } else {
        match joined_rows(contents, base, joins.drop_last()) {
            Err(e) => Err(e),
            Ok(rows) => {
                let j = joins.last();
                if !contents.contains_key(j.table@) {
                    Err(EngineError::JoinedTableMissing(j.table))
                } else {
                    crate::engine::rows::join_all(
                        rows,
                        contents[j.table@],
                        j.condition,
                        crate::engine::rows::join_prefix(j),
                        j.join_type,
                    )
                }
            },
        }
    }
}

/// The rows a SELECT works on: its table's rows, joined, then filtered by
/// its WHERE clause.  A missing table fails.
pub open spec fn filtered_rows(contents: Map<Seq<char>, Seq<RowMap>>, q: SelectQuery) -> Result<Seq<RowMap>, EngineError> {
    if !contents.contains_key(q.from_clause.table@) {
        Err(EngineError::TableMissing(q.from_clause.table))
    } else {
        match joined_rows(contents, contents[q.from_clause.table@], q.from_clause.joins@) {
            Err(e) => Err(e),
            Ok(rows) => Ok(matched_rows(rows, q.where_clause)),
        }
    }
}

/// Whether an expression calls an aggregate function (directly or inside
/// an operator).
pub open spec fn contains_aggregate(expr: Expression) -> bool
    decreases expr,
{
    match expr {
        Expression::Function(call) => {
            let u = upper_of(call.name@);
            u == "COUNT"@ || u == "SUM"@ || u == "AVG"@ || u == "MIN"@ || u == "MAX"@
        },
        Expression::BinaryOp { left, right, .. } => contains_aggregate(*left) || contains_aggregate(*right),
        _ => false,
    }
}

/// Whether an expression has a window function (directly or inside an
/// operator).
pub open spec fn contains_window(expr: Expression) -> bool
    decreases expr,
{
    match expr {
        Expression::WindowFunction(_) => true,
        Expression::BinaryOp { left, right, .. } => contains_window(*left) || contains_window(*right),
        _ => false,
    }
}

/// Whether a select item is an expression with an aggregate.
pub open spec fn item_aggregates(item: SelectItem) -> bool {
    item matches SelectItem::Expression { expr, .. } && contains_aggregate(expr)
}

/// Whether a select item is an expression with a window function.
pub open spec fn item_windows(item: SelectItem) -> bool {
    item matches SelectItem::Expression { expr, .. } && contains_window(expr)
}

/// Whether a select list has an aggregate.
pub open spec fn has_aggregates(items: Seq<SelectItem>) -> bool {
    exists|i: int| 0 <= i < items.len() && #[trigger] item_aggregates(items[i])
}

/// Whether a select list has a window function.
pub open spec fn has_windows(items: Seq<SelectItem>) -> bool {
    exists|i: int| 0 <= i < items.len() && #[trigger] item_windows(items[i])
}

fn expression_contains_aggregate(expr: &Expression) -> (r: bool)
    ensures
        r == contains_aggregate(*expr),
    decreases expr,
{
    match expr {
        Expression::Function(call) => {
            let u = to_uppercase(call.name.as_str());
            str_equal(u.as_str(), "COUNT") || str_equal(u.as_str(), "SUM") || str_equal(u.as_str(), "AVG")
                || str_equal(u.as_str(), "MIN") || str_equal(u.as_str(), "MAX")
        },
        Expression::BinaryOp { left, right, .. } => expression_contains_aggregate(&**left)
            || expression_contains_aggregate(&**right),
        _ => false,
    }
}

fn expression_contains_window_function(expr: &Expression) -> (r: bool)
    ensures
        r == contains_window(*expr),
    decreases expr,
{
    match expr {
        Expression::WindowFunction(_) => true,
        Expression::BinaryOp { left, right, .. } => expression_contains_window_function(&**left)
            || expression_contains_window_function(&**right),
        _ => false,
    }
}

/// Whether a select list has an aggregate function.
pub fn has_aggregate_functions(select_list: &Vec<SelectItem>) -> (r: bool)
    ensures
        r == has_aggregates(select_list@),
{
    let mut i: usize = 0;
    while i < select_list.len()
        invariant
            i <= select_list@.len(),
            forall|j: int| 0 <= j < i ==> !#[trigger] item_aggregates(select_list@[j]),
        decreases select_list.len() - i,
    {
        if let SelectItem::Expression { expr, .. } = &select_list[i] {
            if expression_contains_aggregate(expr) {
                assert(item_aggregates(select_list@[i as int]));
                return true;
            }
        }
        i = i + 1;
    }
    false
}

/// Whether a select list has a window function.
pub fn has_window_functions(select_list: &Vec<SelectItem>) -> (r: bool)
    ensures
        r == has_windows(select_list@),
{
    let mut i: usize = 0;
    while i < select_list.len()
        invariant
            i <= select_list@.len(),
            forall|j: int| 0 <= j < i ==> !#[trigger] item_windows(select_list@[j]),
        decreases select_list.len() - i,
    {
        if let SelectItem::Expression { expr, .. } = &select_list[i] {
            if expression_contains_window_function(expr) {
                assert(item_windows(select_list@[i as int]));
                return true;
            }
        }
        i = i + 1;
    }
    false
}

/// What a SELECT gives, before any floating-point arithmetic.
pub enum SelectSpec {
    Rows(Seq<RowMap>),
    Grouped(Seq<Map<Seq<char>, AggregateSpec>>),
    Windowed(Seq<Map<Seq<char>, AggregateSpec>>),
}

/// What a SELECT gives.
#[derive(Debug)]
pub enum SelectOutcome {
    /// The rows of a plain SELECT, with its columns and LIMIT applied.
    Rows(Vec<Row>),
    /// The rows of an aggregation, before HAVING.
    Grouped(Vec<StringMap<AggregateValue>>),
    /// The rows of a window query, before ORDER BY and LIMIT.
    Windowed(Vec<StringMap<AggregateValue>>),
}

impl View for SelectOutcome {
    type V = SelectSpec;

    open spec fn view(&self) -> SelectSpec {
        match self {
            SelectOutcome::Rows(r) => SelectSpec::Rows(row_maps(r@)),
            SelectOutcome::Grouped(r) => SelectSpec::Grouped(aggregate_row_views(r@)),
            SelectOutcome::Windowed(r) => SelectSpec::Windowed(aggregate_row_views(r@)),
        }
    }
}

/// What a SELECT gives: an aggregation when its select list has an aggregate
/// or it has GROUP BY, else a window query when its select list has a window
/// function, else its rows cut to the selected columns and its LIMIT.
pub open spec fn select_outcome(contents: Map<Seq<char>, Seq<RowMap>>, q: SelectQuery) -> Result<SelectSpec, EngineError> {
    match filtered_rows(contents, q) {
        Err(e) => Err(e),
        Ok(rows) => if has_aggregates(q.select_list@) || q.group_by is Some {
            match query_groups(rows, q.group_by) {
                Err(e) => Err(e),
                Ok(gs) => match aggregate_rows(q.select_list@, gs) {
                    Err(e) => Err(e),
                    Ok(out) => Ok(SelectSpec::Grouped(out)),
                },
            }
        } else if has_windows(q.select_list@) {
            match window_rows(q.select_list@, rows, rows.len() as int) {
                Err(e) => Err(e),
                Ok(out) => Ok(SelectSpec::Windowed(out)),
            }
        } else {
            Ok(SelectSpec::Rows(crate::engine::rows::selected_rows(rows, q.select_list@, q.limit)))
        },
    }
}

/// Whether a SELECT reads no row that is not there: an aggregation without
/// GROUP BY over no rows reads no column outside an aggregate, and a window
/// function that reads its argument has one.
pub open spec fn select_reads_present(contents: Map<Seq<char>, Seq<RowMap>>, q: SelectQuery) -> bool {
    match filtered_rows(contents, q) {
        Err(_) => true,
        Ok(rows) => if has_aggregates(q.select_list@) || q.group_by is Some {
            q.group_by is Some || rows.len() > 0 || !reads_first_row(q.select_list@)
        } else if has_windows(q.select_list@) {
            window_arguments_present(q.select_list@, rows)
        } else {
            true
        },
    }
}

proof fn lemma_joined_rows_error(contents: Map<Seq<char>, Seq<RowMap>>, base: Seq<RowMap>, joins: Seq<JoinClause>, n: int, e: EngineError)
    requires
        0 <= n <= joins.len(),
        joined_rows(contents, base, joins.take(n)) == Err::<Seq<RowMap>, EngineError>(e),
    ensures
        joined_rows(contents, base, joins) == Err::<Seq<RowMap>, EngineError>(e),
    decreases joins.len(),
{
    if n < joins.len() {
        assert(joins.drop_last().take(n) =~= joins.take(n));
        lemma_joined_rows_error(contents, base, joins.drop_last(), n, e);
    } else {
        assert(joins.take(n) =~= joins);
    }
}

impl AuroraDB {
    /// SELECT (see `select_outcome`): reads the table's rows, joins the
    /// joined tables in order, filters by WHERE, then aggregates, computes
    /// window functions, or selects columns.  Changes nothing.
    pub fn execute_select(&self, select_query: &SelectQuery) -> (r: Result<SelectOutcome, EngineError>)
        requires
            self.wf(),
            select_reads_present(self.contents(), *select_query),
        ensures
            match select_outcome(self.contents(), *select_query) {
                Ok(out) => r is Ok && r->Ok_0@ == out,
                Err(e) => r is Err && r->Err_0 == e,
            },
    {
        let ghost contents = self.contents();
        let table = &select_query.from_clause.table;
        let base = match self.tables.get(table.as_str()) {
            Some(rows) => rows,
            None => return Err(EngineError::TableMissing(table.clone())),
        };
        let mut rows = copy_rows(base);
        let joins = &select_query.from_clause.joins;
        let mut k: usize = 0;
        while k < joins.len()
            invariant
                k <= joins@.len(),
                contents == self.contents(),
                *joins == select_query.from_clause.joins,
                contents.contains_key(select_query.from_clause.table@),
                joined_rows(contents, contents[select_query.from_clause.table@], joins@.take(k as int)) == Ok::<
                    Seq<RowMap>,
                    EngineError,
                >(row_maps(rows@)),
            decreases joins.len() - k,
        {
            assert(joins@.take(k as int + 1).drop_last() =~= joins@.take(k as int));
            assert(joins@.take(k as int + 1).last() == joins@[k as int]);
            let j = &joins[k];
            let right = match self.tables.get(j.table.as_str()) {
                Some(r) => r,
                None => {
                    proof {
                        lemma_joined_rows_error(
                            contents,
                            contents[select_query.from_clause.table@],
                            joins@,
                            k as int + 1,
                            EngineError::JoinedTableMissing(j.table),
                        );
                    }
                    return Err(EngineError::JoinedTableMissing(j.table.clone()));
                },
            };
            rows = match crate::engine::rows::perform_join(&rows, right, j) {
                Ok(r) => r,
                Err(e) => {
                    proof {
                        lemma_joined_rows_error(
                            contents,
                            contents[select_query.from_clause.table@],
                            joins@,
                            k as int + 1,
                            e,
                        );
                    }
                    return Err(e);
                },
            };
            k = k + 1;
        }
        assert(joins@.take(k as int) =~= joins@);
        let filtered = match &select_query.where_clause {
            Some(w) => crate::engine::rows::apply_where_clause(&rows, w),
            None => rows,
        };
        let items = &select_query.select_list;
        if has_aggregate_functions(items) || select_query.group_by.is_some() {
            match execute_aggregation(items, &select_query.group_by, filtered) {
                Ok(out) => Ok(SelectOutcome::Grouped(out)),
                Err(e) => Err(e),
            }
        } else if has_window_functions(items) {
            match execute_window_rows(items, &filtered) {
                Ok(out) => Ok(SelectOutcome::Windowed(out)),
                Err(e) => Err(e),
            }
        } else {
            Ok(SelectOutcome::Rows(crate::engine::rows::select_rows(&filtered, items, select_query.limit)))
        }
    }
}

/// What CREATE TABLE does (see `AuroraDB::execute_create_table`).
pub open spec fn create_effect(before: AuroraDB, after: AuroraDB, q: CreateTableQuery, r: Result<QueryResult, EngineError>) -> bool {
    &&& (after.wf())
    &&& (before.schema().contains_key(q.name@) ==> r is Err && r->Err_0 == EngineError::TableExists(
                q.name,
            ) && after.schema() == before.schema() && after.contents() == before.contents())
    &&& (!before.schema().contains_key(q.name@) ==> {
                &&& r is Ok && is_change_result(r->Ok_0, 0)
                &&& after.schema().dom() == before.schema().dom().insert(q.name@)
                &&& forall|k: Seq<char>| k != q.name@ && before.schema().contains_key(k) ==> after.schema()[k]
                    == before.schema()[k]
                &&& after.contents() == before.contents().insert(q.name@, Seq::empty())
                &&& crate::engine::catalog::columns_from(
                    after.schema()[q.name@].columns@,
                    q.columns@,
                )
            })
}

/// What DROP TABLE does (see `AuroraDB::execute_drop_table`).
pub open spec fn drop_effect(before: AuroraDB, after: AuroraDB, q: DropTableQuery, r: Result<QueryResult, EngineError>) -> bool {
    &&& (after.wf())
    &&& (before.schema().contains_key(q.name@) ==> r is Ok && is_change_result(r->Ok_0, 0)
                && after.schema() == before.schema().remove(q.name@) && after.contents()
                == before.contents().remove(q.name@))
    &&& (!before.schema().contains_key(q.name@) ==> after.schema() == before.schema()
                && after.contents() == before.contents() && (if q.if_exists {
                r is Ok && is_change_result(r->Ok_0, 0)
            } else {
                r is Err && r->Err_0 == EngineError::TableMissing(q.name)
            }))
}

/// What INSERT does (see `AuroraDB::execute_insert`).
pub open spec fn insert_effect(before: AuroraDB, after: AuroraDB, q: InsertQuery, r: Result<QueryResult, EngineError>) -> bool {
    &&& (after.wf())
    &&& (after.schema() == before.schema())
    &&& (!before.schema().contains_key(q.table@) ==> r is Err && r->Err_0 == EngineError::TableMissing(
                q.table,
            ) && after.contents() == before.contents())
    &&& (before.schema().contains_key(q.table@) ==> {
                let cols = before.schema()[q.table@].columns@;
                let (added, stop) = insert_all(
                    q.values@,
                    insert_target(q.columns@, cols),
                    cols,
                    q.table,
                );
                &&& after.contents() == before.contents().insert(
                    q.table@,
                    before.contents()[q.table@] + added,
                )
                &&& match stop {
                    None => r is Ok && is_change_result(r->Ok_0, added.len()),
                    Some(Stop::Fail(e)) => r is Err && r->Err_0 == e,
                    Some(Stop::NotFinite) => false,
                }
            })
}

/// What UPDATE does (see `AuroraDB::execute_update`).
pub open spec fn update_effect(before: AuroraDB, after: AuroraDB, q: UpdateQuery, r: Result<QueryResult, EngineError>) -> bool {
    &&& (after.wf())
    &&& (after.schema() == before.schema())
    &&& (!before.schema().contains_key(q.table@) ==> r is Err && r->Err_0 == EngineError::TableMissing(
                q.table,
            ) && after.contents() == before.contents())
    &&& (before.schema().contains_key(q.table@) ==> match update_all(
                before.contents()[q.table@],
                matched_rows(before.contents()[q.table@], q.where_clause),
                before.schema()[q.table@].columns@,
                q.assignments@,
            ) {
                Ok((st, n)) => r is Ok && is_change_result(r->Ok_0, n) && after.contents() == before.contents().insert(q.table@, st),
                Err(Stop::Fail(e)) => r is Err && r->Err_0 == e && after.contents() == before.contents(),
                Err(Stop::NotFinite) => false,
            })
}

/// What DELETE does (see `AuroraDB::execute_delete`).
pub open spec fn delete_effect(before: AuroraDB, after: AuroraDB, q: DeleteQuery, r: Result<QueryResult, EngineError>) -> bool {
    &&& (after.wf())
    &&& (after.schema() == before.schema())
    &&& (!before.schema().contains_key(q.table@) ==> r is Err && r->Err_0 == EngineError::TableMissing(
                q.table,
            ) && after.contents() == before.contents())
    &&& (before.schema().contains_key(q.table@) ==> match delete_all(
                before.contents()[q.table@],
                matched_rows(before.contents()[q.table@], q.where_clause),
                before.schema()[q.table@].columns@,
            ) {
                Ok((st, n)) => r is Ok && is_change_result(r->Ok_0, n) && after.contents() == before.contents().insert(q.table@, st),
                Err(Stop::Fail(e)) => r is Err && r->Err_0 == e && after.contents() == before.contents(),
                Err(Stop::NotFinite) => false,
            })
}

/// Whether an INSERT reaches no floating-point literal that is not finite.
pub open spec fn insert_runs(db: AuroraDB, q: InsertQuery) -> bool {
    db.schema().contains_key(q.table@) ==> !(insert_all(
        q.values@,
        insert_target(q.columns@, db.schema()[q.table@].columns@),
        db.schema()[q.table@].columns@,
        q.table,
    ).1 matches Some(Stop::NotFinite))
}

/// Whether an UPDATE reaches no floating-point literal that is not finite.
pub open spec fn update_runs(db: AuroraDB, q: UpdateQuery) -> bool {
    db.schema().contains_key(q.table@) ==> !(update_all(
        db.contents()[q.table@],
        matched_rows(db.contents()[q.table@], q.where_clause),
        db.schema()[q.table@].columns@,
        q.assignments@,
    ) matches Err(Stop::NotFinite))
}

/// What a statement gives: a statement's result, or a SELECT's rows.
#[derive(Debug)]
pub enum QueryOutput {
    Done(QueryResult),
    Selected(SelectOutcome),
}

/// A statement's result, when the output is one.
pub open spec fn done_result(r: Result<QueryOutput, EngineError>) -> Option<Result<QueryResult, EngineError>> {
    match r {
        Ok(QueryOutput::Done(x)) => Some(Ok(x)),
        Ok(QueryOutput::Selected(_)) => None,
        Err(e) => Some(Err(e)),
    }
}

/// Whether a statement reads nothing that is not there (see
/// `insert_runs`, `update_runs` and `select_reads_present`).
pub open spec fn statement_runs(db: AuroraDB, query: Query) -> bool {
    match query {
        Query::Insert(q) => insert_runs(db, q),
        Query::Update(q) => update_runs(db, q),
        Query::Select(q) => select_reads_present(db.contents(), q),
        _ => true,
    }
}

impl AuroraDB {
    /// Runs a parsed statement: CREATE TABLE, DROP TABLE, INSERT, UPDATE,
    /// DELETE and SELECT as their own functions do; any other statement
    /// fails and changes nothing.
    pub fn execute_query(&mut self, query: Query, user_context: &UserContext) -> (r: Result<QueryOutput, EngineError>)
        requires
            old(self).wf(),
            statement_runs(*old(self), query),
        ensures
            final(self).wf(),
            match query {
                Query::CreateTable(q) => done_result(r) matches Some(x) && create_effect(*old(self), *final(self), q, x),
                Query::DropTable(q) => done_result(r) matches Some(x) && drop_effect(*old(self), *final(self), q, x),
                Query::Insert(q) => done_result(r) matches Some(x) && insert_effect(*old(self), *final(self), q, x),
                Query::Update(q) => done_result(r) matches Some(x) && update_effect(*old(self), *final(self), q, x),
                Query::Delete(q) => done_result(r) matches Some(x) && delete_effect(*old(self), *final(self), q, x),
                Query::Select(q) => *final(self) == *old(self) && match select_outcome(old(self).contents(), q) {
                    Ok(out) => r matches Ok(QueryOutput::Selected(o)) && o@ == out,
                    Err(e) => r is Err && r->Err_0 == e,
                },
                Query::Other(_) => *final(self) == *old(self) && r is Err && r->Err_0 == EngineError::UnsupportedStatement,
            },
    {
        match query {
            Query::CreateTable(q) => match self.execute_create_table(q) {
                Ok(x) => Ok(QueryOutput::Done(x)),
                Err(e) => Err(e),
            },
            Query::DropTable(q) => match self.execute_drop_table(&q) {
                Ok(x) => Ok(QueryOutput::Done(x)),
                Err(e) => Err(e),
            },
            Query::Insert(q) => match self.execute_insert(&q) {
                Ok(x) => Ok(QueryOutput::Done(x)),
                Err(e) => Err(e),
            },
            Query::Update(q) => match self.execute_update(&q) {
                Ok(x) => Ok(QueryOutput::Done(x)),
                Err(e) => Err(e),
            },
            Query::Delete(q) => match self.execute_delete(&q) {
                Ok(x) => Ok(QueryOutput::Done(x)),
                Err(e) => Err(e),
            },
            Query::Select(q) => match self.execute_select(&q) {
                Ok(o) => Ok(QueryOutput::Selected(o)),
                Err(e) => Err(e),
            },
            Query::Other(_) => Err(EngineError::UnsupportedStatement),
        }
    }

    /// The database's counters: queries run, their mean time in microseconds
    /// (0 before any query) and open transactions.
    pub fn get_metrics(&self) -> (r: DatabaseMetrics)
        ensures
            r.total_queries == self.queries_run(),
            r.average_query_time_micros == if self.queries_run() > 0 {
                self.query_time() / self.queries_run()
            } else {
                0
            },
            r.active_transactions == self.open_transactions(),
    {
        let avg = if self.query_count > 0 {
            self.total_query_time / self.query_count
        } else {
            0
        };
        DatabaseMetrics {
            total_queries: self.query_count,
            average_query_time_micros: avg,
            active_transactions: self.active_transactions,
        }
    }

    /// The number of queries run.
    pub closed spec fn queries_run(&self) -> u64 {
        self.query_count
    }

    /// The total time of the queries run, in microseconds.
    pub closed spec fn query_time(&self) -> u64 {
        self.total_query_time
    }

    /// The number of open transactions.
    pub closed spec fn open_transactions(&self) -> usize {
        self.active_transactions
    }
}

/// Whether every cell of a result row is known exactly.
pub open spec fn all_exact(row: Map<Seq<char>, AggregateSpec>) -> bool {
    forall|k: Seq<char>| #[trigger] row.contains_key(k) ==> row[k] is Value
}

/// The values of a row whose cells are all known exactly.
pub open spec fn exact_values(row: Map<Seq<char>, AggregateSpec>) -> RowMap {
    row.map_values(|a: AggregateSpec| a->Value_0)
}

fn settle_row(row: &StringMap<AggregateValue>) -> (r: Option<Row>)
    ensures
        all_exact(aggregate_row_view(row@)) ==> r is Some && r->Some_0@ == exact_values(aggregate_row_view(row@)),
        !all_exact(aggregate_row_view(row@)) ==> r is None,
{
    let entries = row.entry_list();
    proof {
        row.lemma_view();
    }
    let mut out: Row = StringMap::new();
    let mut j: usize = 0;
    proof {
        assert(crate::text::entries_map(entries@.take(0)) =~= Map::<Seq<char>, AggregateValue>::empty());
    }
    while j < entries.len()
        invariant
            j <= entries@.len(),
            crate::text::keys_unique(entries@),
            row@ == crate::text::entries_map(entries@),
            all_exact(aggregate_row_view(crate::text::entries_map(entries@.take(j as int)))),
            out@ == exact_values(aggregate_row_view(crate::text::entries_map(entries@.take(j as int)))),
        decreases entries.len() - j,
    {
        proof {
            crate::text::lemma_entries_map_take(entries@, j as int);
        }
        let ghost before = crate::text::entries_map(entries@.take(j as int));
        let ghost k = entries@[j as int].0@;
        match &entries[j].1 {
            AggregateValue::Value(v) => {
                out.insert(entries[j].0.clone(), v.duplicate());
                proof {
                    let after = crate::text::entries_map(entries@.take(j as int + 1));
                    assert(aggregate_row_view(after) =~= aggregate_row_view(before).insert(k, entries@[j as int].1@));
                    assert(out@ =~= exact_values(aggregate_row_view(after)));
                }
            },
            _ => {
                proof {
                    lemma_entries_prefix_cell(entries@, j as int);
                }
                return None;
            },
        }
        j = j + 1;
    }
    assert(entries@.take(j as int) =~= entries@);
    Some(out)
}

proof fn lemma_entries_prefix_cell(entries: Seq<(String, AggregateValue)>, j: int)
    requires
        crate::text::keys_unique(entries),
        0 <= j < entries.len(),
        !(entries[j].1 is Value),
    ensures
        !all_exact(aggregate_row_view(crate::text::entries_map(entries))),
{
    crate::text::lemma_key_index_unique(entries, j);
    let k = entries[j].0@;
    assert(aggregate_row_view(crate::text::entries_map(entries)).contains_key(k));
}

/// What a list of result rows whose cells are all exact holds.
pub open spec fn settled_rows(rows: Seq<Map<Seq<char>, AggregateSpec>>) -> Seq<RowMap> {
    rows.map_values(|r: Map<Seq<char>, AggregateSpec>| exact_values(r))
}

/// The rows of an aggregation or window query as plain values, when no cell
/// waits for floating-point arithmetic (no SUM or AVG); else nothing.
pub fn settle_exact(rows: &Vec<StringMap<AggregateValue>>) -> (r: Option<Vec<Row>>)
    ensures
        (forall|i: int| 0 <= i < rows@.len() ==> #[trigger] all_exact(aggregate_row_view(rows@[i]@))) ==> r is Some
            && row_maps(r->Some_0@) == settled_rows(aggregate_row_views(rows@)),
        !(forall|i: int| 0 <= i < rows@.len() ==> #[trigger] all_exact(aggregate_row_view(rows@[i]@))) ==> r is None,
{
    let mut out: Vec<Row> = Vec::new();
    let mut i: usize = 0;
    while i < rows.len()
        invariant
            i <= rows@.len(),
            forall|k: int| 0 <= k < i ==> #[trigger] all_exact(aggregate_row_view(rows@[k]@)),
            row_maps(out@) =~= settled_rows(aggregate_row_views(rows@)).take(i as int),
        decreases rows.len() - i,
    {
        match settle_row(&rows[i]) {
            Some(r) => {
                proof {
                    crate::engine::rows::lemma_row_maps_push(out@, r);
                }
                out.push(r);
            },
            None => return None,
        }
        i = i + 1;
        assert(row_maps(out@) =~= settled_rows(aggregate_row_views(rows@)).take(i as int));
    }
    assert(settled_rows(aggregate_row_views(rows@)).take(i as int) =~= settled_rows(aggregate_row_views(rows@)));
    Some(out)
}

/// The result of an aggregation from its rows with every cell a value: the
/// rows HAVING holds for (all without HAVING).
pub fn finish_grouped(rows: Vec<Row>, having: &Option<Expression>) -> (r: QueryResult)
    ensures
        r.rows is Some,
        row_maps(r.rows->Some_0@) == match having {
            Some(h) => crate::engine::aggregate::rows_having(row_maps(rows@), *h),
            None => row_maps(rows@),
        },
        r.rows_affected is None,
        r.execution_time_ms == 0,
        r.query_plan is None,
{
    let out = match having {
        Some(h) => crate::engine::aggregate::apply_having(rows, h),
        None => rows,
    };
    QueryResult { rows: Some(out), rows_affected: None, execution_time_ms: 0, query_plan: None }
}

/// The first `limit` rows (all without a limit).
pub open spec fn limited(rows: Seq<RowMap>, limit: Option<u64>) -> Seq<RowMap> {
    match limit {
        Some(n) => if n < rows.len() {
            rows.take(n as int)
        } else {
            rows
        },
        None => rows,
    }
}

/// The result of a window query from its rows with every cell a value:
/// ordered by ORDER BY (stably), then cut to LIMIT.
pub fn finish_windowed(rows: Vec<Row>, order_by: &Option<Vec<OrderByItem>>, limit: Option<u64>) -> (r: QueryResult)
    ensures
        r.rows is Some,
        row_maps(r.rows->Some_0@) == limited(
            match order_by {
                Some(keys) => crate::engine::window::ordered_rows(row_maps(rows@), keys@),
                None => row_maps(rows@),
            },
            limit,
        ),
        r.rows_affected is None,
        r.execution_time_ms == 0,
        r.query_plan is None,
{
    let ordered = match order_by {
        Some(keys) => crate::engine::window::order_rows(rows, keys),
        None => rows,
    };
    let ghost all = row_maps(ordered@);
    let n: usize = match limit {
        Some(l) => if l < ordered.len() as u64 {
            l as usize
        } else {
            ordered.len()
        },
        None => ordered.len(),
    };
    let mut ordered = ordered;
    ordered.truncate(n);
    proof {
        assert(row_maps(ordered@) =~= limited(all, limit));
    }
    QueryResult { rows: Some(ordered), rows_affected: None, execution_time_ms: 0, query_plan: None }
}

/// The literal that stands for a value.
pub open spec fn literal_of(v: DataValue) -> Literal {
    match v {
        DataValue::Null => Literal::Null,
        DataValue::Integer(i) => Literal::Integer(i),
        DataValue::Real(f) => Literal::Float(f),
        DataValue::Text(t) => Literal::String(t),
        DataValue::Boolean(b) => Literal::Boolean(b),
    }
}

fn literal_from_value(v: DataValue) -> (r: Literal)
    ensures
        r == literal_of(v),
{
    match v {
        DataValue::Null => Literal::Null,
        DataValue::Integer(i) => Literal::Integer(i),
        DataValue::Real(f) => Literal::Float(f),
        DataValue::Text(t) => Literal::String(t),
        DataValue::Boolean(b) => Literal::Boolean(b),
    }
}

/// The CREATE TABLE column a schema column stands for.
pub open spec fn column_definition_of(c: ColumnDefinition) -> crate::engine::ast::ColumnDefinition {
    crate::engine::ast::ColumnDefinition {
        name: c.name,
        data_type: c.data_type,
        nullable: c.nullable,
        default: match c.default_value {
            Some(v) => Some(Expression::Literal(literal_of(v))),
            None => None,
        },
    }
}

/// The text starts with the prefix.
pub open spec fn starts_with(s: Seq<char>, prefix: Seq<char>) -> bool {
    prefix.len() <= s.len() && s.take(prefix.len() as int) == prefix
}

/// Whether a query's text is worth caching: after trimming and capitalising
/// it starts with SELECT, it has no `?` placeholder, and it is shorter than
/// 1000 bytes.
pub open spec fn cacheable(sql: &str) -> bool {
    &&& starts_with(upper_of(crate::config::trim(sql@)), "SELECT"@)
    &&& !sql@.contains('?')
    &&& sql.len() < 1000
}

/// Whether a query's text is worth caching (see `cacheable`).
pub fn should_cache_query(sql: &str) -> (r: bool)
    ensures
        r == cacheable(sql),
{
    let t = crate::config::trim_text(sql);
    let u = to_uppercase(t.as_str());
    let cs = crate::text::chars_of(u.as_str());
    let select = crate::text::chars_of("SELECT");
    let mut starts = select.len() <= cs.len();
    let mut i: usize = 0;
    while starts && i < select.len()
        invariant
            i <= select@.len(),
            starts ==> select@.len() <= cs@.len() && cs@.take(i as int) == select@.take(i as int),
            !starts ==> !starts_with(cs@, select@),
        decreases select.len() - i,
    {
        if cs[i] != select[i] {
            starts = false;
            assert(cs@.take(select@.len() as int)[i as int] != select@[i as int]);
        } else {
            assert(cs@.take(i as int + 1) =~= cs@.take(i as int).push(cs@[i as int]));
            assert(select@.take(i as int + 1) =~= select@.take(i as int).push(select@[i as int]));
        }
        i = i + 1;
    }
    proof {
        if starts {
            assert(select@.take(select@.len() as int) =~= select@);
        }
    }
    let raw = crate::text::chars_of(sql);
    let mut has_mark = false;
    let mut k: usize = 0;
    while k < raw.len()
        invariant
            k <= raw@.len(),
            has_mark <==> exists|j: int| 0 <= j < k && raw@[j] == '?',
        decreases raw.len() - k,
    {
        if raw[k] == '?' {
            has_mark = true;
        }
        k = k + 1;
    }
    proof {
        if has_mark {
            let j = choose|j: int| 0 <= j < raw@.len() && raw@[j] == '?';
            assert(sql@.contains('?'));
        }
    }
    assert(starts == starts_with(upper_of(crate::config::trim(sql@)), "SELECT"@));
    assert(has_mark == sql@.contains('?'));
    starts && !has_mark && sql.len() < 1000
}

impl AuroraDB {
    /// Creates a table from a schema: the schema must have a column and no
    /// column name twice; the table takes the schema's columns in order, a
    /// column's default value as a literal, and the primary key as a
    /// constraint.  Fails, changing nothing, on a bad schema or an existing
    /// table.
    pub fn create_table(&mut self, table_name: &str, schema: TableSchema, user_context: &UserContext) -> (r: Result<
        (),
        EngineError,
    >)
        requires
            old(self).wf(),
        ensures
            final(self).wf(),
            match schema_failure(schema.columns@) {
                Some(e) => r is Err && r->Err_0 == e && *final(self) == *old(self),
                None => if old(self).schema().contains_key(table_name@) {
                    (r matches Err(EngineError::TableExists(n)) && n@ == table_name@) && final(self).schema()
                        == old(self).schema() && final(self).contents() == old(self).contents()
                } else {
                    &&& r is Ok
                    &&& final(self).schema().dom() == old(self).schema().dom().insert(table_name@)
                    &&& final(self).contents() == old(self).contents().insert(table_name@, Seq::empty())
                    &&& final(self).schema()[table_name@].columns@.len() == schema.columns@.len()
                    &&& forall|i: int|
                        0 <= i < schema.columns@.len() ==> #[trigger] crate::engine::catalog::column_from(
                            final(self).schema()[table_name@].columns@[i],
                            column_definition_of(schema.columns@[i]),
                            i,
                        )
                },
            },
    {
        match validate_table_schema(&schema) {
            Ok(()) => {},
            Err(e) => return Err(e),
        }
        let TableSchema { columns: defs, primary_key, indexes: _ } = schema;
        let ghost orig = defs@;
        let total: usize = defs.len();
        let mut defs = defs;
        let mut columns: Vec<crate::engine::ast::ColumnDefinition> = Vec::new();
        let mut k: usize = 0;
        while defs.len() > 0
            invariant
                k + defs@.len() == orig.len(),
                orig.len() == total,
                defs@ == orig.skip(k as int),
                columns@.len() == k,
                forall|j: int| 0 <= j < k ==> #[trigger] columns@[j] == column_definition_of(orig[j]),
            decreases defs.len(),
        {
            let d = defs.remove(0);
            assert(d == orig[k as int]);
            let default = match d.default_value {
                Some(v) => Some(Expression::Literal(literal_from_value(v))),
                None => None,
            };
            columns.push(crate::engine::ast::ColumnDefinition {
                name: d.name,
                data_type: d.data_type,
                nullable: d.nullable,
                default,
            });
            k = k + 1;
            assert(defs@ =~= orig.skip(k as int));
        }
        let mut constraints: Vec<crate::engine::ast::TableConstraint> = Vec::new();
        if let Some(pk) = primary_key {
            constraints.push(crate::engine::ast::TableConstraint::PrimaryKey(pk));
        }
        assert(orig == schema.columns@);
        let q = CreateTableQuery { name: crate::text::owned(table_name), columns, constraints };
        assert(q.columns@.len() == schema.columns@.len());
        let ghost qc = q;
        match self.execute_create_table(q) {
            Ok(_) => {
                assert(crate::engine::catalog::columns_from(self.schema()[table_name@].columns@, qc.columns@));
                assert(forall|i: int|
                    0 <= i < schema.columns@.len() ==> #[trigger] crate::engine::catalog::column_from(
                        self.schema()[table_name@].columns@[i],
                        column_definition_of(schema.columns@[i]),
                        i,
                    )) by {
                    assert forall|i: int| 0 <= i < schema.columns@.len() implies #[trigger] crate::engine::catalog::column_from(
                        self.schema()[table_name@].columns@[i],
                        column_definition_of(schema.columns@[i]),
                        i,
                    ) by {
                        assert(crate::engine::catalog::column_from(self.schema()[table_name@].columns@[i], qc.columns@[i], i));
                        assert(qc.columns@[i] == column_definition_of(orig[i]));
                    }
                }
                Ok(())
            },
            Err(e) => Err(e),
        }
    }

    /// Drops a table and its rows; a missing table fails and changes
    /// nothing.
    pub fn drop_table(&mut self, table_name: &str, user_context: &UserContext) -> (r: Result<(), EngineError>)
        requires
            old(self).wf(),
        ensures
            final(self).wf(),
            old(self).schema().contains_key(table_name@) ==> r is Ok && final(self).schema() == old(self).schema().remove(
                table_name@,
            ) && final(self).contents() == old(self).contents().remove(table_name@),
            !old(self).schema().contains_key(table_name@) ==> (r matches Err(EngineError::TableMissing(n)) && n@
                == table_name@) && final(self).schema() == old(self).schema() && final(self).contents() == old(
                self,
            ).contents(),
    {
        let q = DropTableQuery { name: crate::text::owned(table_name), if_exists: false };
        match self.execute_drop_table(&q) {
            Ok(_) => Ok(()),
            Err(e) => Err(e),
        }
    }
}

/// Whether a SELECT is `SELECT * FROM table` with nothing else: one `*`,
/// no joins, no WHERE, no GROUP BY and no LIMIT.
pub open spec fn is_select_star(q: SelectQuery) -> bool {
    &&& q.select_list@.len() == 1
    &&& q.select_list@[0] is Wildcard
    &&& q.from_clause.joins@.len() == 0
    &&& q.where_clause is None
    &&& q.group_by is None
    &&& q.limit is None
}

/// `SELECT * FROM t` gives the rows of `t`, in the order they were stored.
pub proof fn law_select_star_reads_table(contents: Map<Seq<char>, Seq<RowMap>>, q: SelectQuery)
    requires
        is_select_star(q),
        contents.contains_key(q.from_clause.table@),
    ensures
        select_outcome(contents, q) == Ok::<SelectSpec, EngineError>(SelectSpec::Rows(contents[q.from_clause.table@])),
{
    let rows = contents[q.from_clause.table@];
    assert(joined_rows(contents, rows, q.from_clause.joins@) == Ok::<Seq<RowMap>, EngineError>(rows));
    assert(!has_aggregates(q.select_list@)) by {
        if has_aggregates(q.select_list@) {
            let i = choose|i: int| 0 <= i < q.select_list@.len() && #[trigger] item_aggregates(q.select_list@[i]);
            assert(i == 0);
        }
    }
    assert(!has_windows(q.select_list@)) by {
        if has_windows(q.select_list@) {
            let i = choose|i: int| 0 <= i < q.select_list@.len() && #[trigger] item_windows(q.select_list@[i]);
            assert(i == 0);
        }
    }
    assert(crate::engine::rows::has_wildcard(q.select_list@)) by {
        assert(q.select_list@[0] is Wildcard);
    }
    assert(rows.map_values(|r: RowMap| crate::engine::rows::projected(r, q.select_list@)) =~= rows);
}

/// After an INSERT that succeeds, `SELECT * FROM` its table gives the rows
/// that were there, then the inserted rows in the order of the statement's
/// value lists (as many as it reports).
pub proof fn law_insert_then_select_star(before: AuroraDB, after: AuroraDB, ins: InsertQuery, res: QueryResult, q: SelectQuery)
    requires
        insert_effect(before, after, ins, Ok(res)),
        before.schema().contains_key(ins.table@),
        is_select_star(q),
        q.from_clause.table@ == ins.table@,
    ensures
        ({
            let cols = before.schema()[ins.table@].columns@;
            let added = insert_all(ins.values@, insert_target(ins.columns@, cols), cols, ins.table).0;
            &&& select_outcome(after.contents(), q) == Ok::<SelectSpec, EngineError>(
                SelectSpec::Rows(before.contents()[ins.table@] + added),
            )
            &&& res.rows_affected == Some(added.len() as u64)
        }),
{
    law_select_star_reads_table(after.contents(), q);
}

/// Dropping a table just created gives back the catalog and the tables as
/// they were.
pub proof fn law_drop_undoes_create(
    db0: AuroraDB,
    db1: AuroraDB,
    db2: AuroraDB,
    create: CreateTableQuery,
    created: QueryResult,
    drop: DropTableQuery,
    dropped: Result<QueryResult, EngineError>,
)
    requires
        db0.wf(),
        create_effect(db0, db1, create, Ok(created)),
        drop_effect(db1, db2, drop, dropped),
        drop.name@ == create.name@,
    ensures
        db2.schema() == db0.schema(),
        db2.contents() == db0.contents(),
        dropped is Ok,
{
    assert(!db0.schema().contains_key(create.name@));
    assert(db0.contents().dom() =~= db0.schema().dom());
    assert(db2.schema() =~= db0.schema());
    assert(db2.contents() =~= db0.contents());
}

} // verus!
