//! The table catalog: the metadata (columns, constraints, times) of every
//! table, by name.

use vstd::prelude::*;
use crate::ambient::utc_now_seconds;
use crate::engine::ast::{ColumnDefinition, CreateTableQuery, DropTableQuery, Expression, TableConstraint};
use crate::engine::failure::{EngineError, is_missing_table};
use crate::engine::values::{DataType, DataValue, type_accepts, type_accepts_value};
use crate::text::{contains_text, str_equal, StringMap};

verus! {

/// The metadata of one column.
#[derive(Debug)]
pub struct ColumnMetadata {
    pub name: String,
    pub data_type: DataType,
    pub nullable: bool,
    /// The default value's expression, when the column has one.
    pub default_value: Option<Expression>,
    /// The column's place in the table, from 0.
    pub ordinal_position: usize,
}

/// The metadata of one table.
#[derive(Debug)]
pub struct TableMetadata {
    pub name: String,
    pub columns: Vec<ColumnMetadata>,
    pub constraints: Vec<TableConstraint>,
    /// When the table was created, in seconds since the Unix epoch (UTC).
    pub created_at: i64,
    /// When the table was last changed, in seconds since the Unix epoch (UTC).
    pub modified_at: i64,
}

/// Catalog statistics.
#[derive(Debug, Clone, Copy, PartialEq, Eq, Structural)]
pub struct CatalogStats {
    pub total_tables: usize,
    pub total_columns: usize,
    pub catalog_size_bytes: usize,
}

/// Whether the metadata of a column is the one a column definition gives at
/// place `i`.
pub open spec fn column_from(c: ColumnMetadata, d: ColumnDefinition, i: int) -> bool {
    &&& c.name == d.name
    &&& c.data_type == d.data_type
    &&& c.nullable == d.nullable
    &&& c.default_value == d.default
    &&& c.ordinal_position == i
}

/// Whether the columns are those the definitions give, in order.
pub open spec fn columns_from(cs: Seq<ColumnMetadata>, ds: Seq<ColumnDefinition>) -> bool {
    &&& cs.len() == ds.len()
    &&& forall|i: int| 0 <= i < cs.len() ==> #[trigger] column_from(cs[i], ds[i], i)
}

/// The number of columns of the tables of a list.
pub open spec fn column_total(tables: Seq<(String, TableMetadata)>) -> nat
    decreases tables.len(),
{
    if tables.len() == 0 {
        0
    } else {
        column_total(tables.drop_last()) + tables.last().1.columns@.len()
    }
}

/// The index of the first column named `name`, if any.
pub open spec fn column_index(cols: Seq<ColumnMetadata>, name: Seq<char>) -> Option<int>
    decreases cols.len(),
{
    if cols.len() == 0 {
        None
    } else {
        match column_index(cols.drop_last(), name) {
            Some(i) => Some(i),
            None => if cols.last().name@ == name {
                Some(cols.len() - 1)
            } else {
                None
            },
        }
    }
}

/// Whether a row's values meet a table's columns: every value fits its
/// column's type, and every column that takes no nulls and has no default
/// has a value.
pub open spec fn row_meets(cols: Seq<ColumnMetadata>, data: Map<Seq<char>, DataValue>) -> bool {
    forall|i: int| 0 <= i < cols.len() ==> #[trigger] column_met(cols[i], data)
}

/// Whether a row's value for one column meets it (see `row_meets`).
pub open spec fn column_met(c: ColumnMetadata, data: Map<Seq<char>, DataValue>) -> bool {
    if data.contains_key(c.name@) {
        type_accepts(c.data_type, data[c.name@]) && (c.nullable || !(data[c.name@] is Null))
    } else {
        c.nullable || c.default_value is Some
    }
}

/// The failure that validating a row against columns gives: that of the
/// first column (in order) the row does not meet.
pub open spec fn validation_failure(cols: Seq<ColumnMetadata>, data: Map<Seq<char>, DataValue>) -> Option<EngineError>
    decreases cols.len(),
{
    if cols.len() == 0 {
        None
    } else {
        match validation_failure(cols.drop_last(), data) {
            Some(e) => Some(e),
            None => {
                let c = cols.last();
                if data.contains_key(c.name@) {
                    if !type_accepts(c.data_type, data[c.name@]) {
                        Some(EngineError::TypeMismatch)
                    } else if !c.nullable && data[c.name@] is Null {
                        Some(EngineError::NotNull(c.name))
                    } else {
                        None
                    }
                } else if !c.nullable && c.default_value is None {
                    Some(EngineError::RequiredColumn(c.name))
                } else {
                    None
                }
            },
        }
    }
}

proof fn lemma_validation_failure(cols: Seq<ColumnMetadata>, data: Map<Seq<char>, DataValue>)
    ensures
        validation_failure(cols, data) is None <==> row_meets(cols, data),
    decreases cols.len(),
{
    if cols.len() > 0 {
        lemma_validation_failure(cols.drop_last(), data);
        if row_meets(cols, data) {
            assert forall|i: int| 0 <= i < cols.drop_last().len() implies #[trigger] column_met(
                cols.drop_last()[i],
                data,
            ) by {
                assert(column_met(cols[i], data));
            }
            assert(column_met(cols[cols.len() - 1], data));
        }
        if validation_failure(cols, data) is None {
            assert forall|i: int| 0 <= i < cols.len() implies #[trigger] column_met(cols[i], data) by {
                if i < cols.len() - 1 {
                    assert(column_met(cols.drop_last()[i], data));
                }
            }
        }
    }
}

/// The table catalog: each table's metadata under its name.
pub struct TableCatalog {
    tables: StringMap<TableMetadata>,
    storage_path: String,
}

impl View for TableCatalog {
    type V = Map<Seq<char>, TableMetadata>;

    closed spec fn view(&self) -> Map<Seq<char>, TableMetadata> {
        self.tables@
    }
}

impl TableCatalog {
    /// The directory the catalog is kept in.
    pub closed spec fn path(&self) -> Seq<char> {
        self.storage_path@
    }

    /// The tables, in the order they were created.
    pub closed spec fn table_seq(&self) -> Seq<(String, TableMetadata)> {
        self.tables.entry_seq()
    }

    /// An empty catalog kept under `storage_path`.
    pub fn new(storage_path: String) -> (r: Self)
        ensures
            r@ == Map::<Seq<char>, TableMetadata>::empty(),
            r.path() == storage_path@,
            r.table_seq().len() == 0,
    {
        TableCatalog { tables: StringMap::new(), storage_path }
    }

    /// The directory the catalog is kept in.
    pub fn storage_path(&self) -> (r: &str)
        ensures
            r@ == self.path(),
    {
        self.storage_path.as_str()
    }

    /// Adds a table from a CREATE TABLE statement: its columns in order,
    /// numbered from 0, and its constraints, stamped with the current time.
    /// Fails when a table of that name exists, and leaves the catalog as it
    /// was.
    pub fn create_table(&mut self, create_query: CreateTableQuery) -> (r: Result<(), EngineError>)
        ensures
            old(self)@.contains_key(create_query.name@) ==> r == Err::<(), EngineError>(
                EngineError::TableExists(create_query.name),
            ) && final(self)@ == old(self)@,
            !old(self)@.contains_key(create_query.name@) ==> {
                &&& r is Ok
                &&& final(self)@.dom() == old(self)@.dom().insert(create_query.name@)
                &&& forall|k: Seq<char>| k != create_query.name@ && old(self)@.contains_key(k) ==> final(self)@[k]
                    == old(self)@[k]
                &&& final(self)@[create_query.name@].name == create_query.name
                &&& columns_from(final(self)@[create_query.name@].columns@, create_query.columns@)
                &&& final(self)@[create_query.name@].constraints == create_query.constraints
            },
            final(self).path() == old(self).path(),
    {
        if self.tables.contains_key(create_query.name.as_str()) {
            return Err(EngineError::TableExists(create_query.name));
        }
        let CreateTableQuery { name, columns: defs, constraints } = create_query;
        let ghost orig = defs@;
        let total: usize = defs.len();
        let mut defs = defs;
        let mut columns: Vec<ColumnMetadata> = Vec::new();
        let mut i: usize = 0;
        while defs.len() > 0
            invariant
                i + defs@.len() == orig.len(),
                orig.len() == total,
                defs@ == orig.skip(i as int),
                columns@.len() == i,
                forall|j: int| 0 <= j < i ==> #[trigger] column_from(columns@[j], orig[j], j),
            decreases defs.len(),
        {
            let d = defs.remove(0);
            assert(d == orig[i as int]);
            columns.push(ColumnMetadata {
                name: d.name,
                data_type: d.data_type,
                nullable: d.nullable,
                default_value: d.default,
                ordinal_position: i,
            });
            i = i + 1;
            assert(defs@ =~= orig.skip(i as int));
        }
        let created_at = utc_now_seconds();
        let modified_at = utc_now_seconds();
        let key = name.clone();
        let metadata = TableMetadata { name, columns, constraints, created_at, modified_at };
        self.tables.insert(key, metadata);
        Ok(())
    }

    /// Removes a table.  With `if_exists`, a missing table is no failure and
    /// changes nothing; without it, a missing table fails.
    pub fn drop_table(&mut self, drop_query: &DropTableQuery) -> (r: Result<(), EngineError>)
        ensures
            old(self)@.contains_key(drop_query.name@) ==> r is Ok && final(self)@ == old(self)@.remove(
                drop_query.name@,
            ),
            !old(self)@.contains_key(drop_query.name@) && drop_query.if_exists ==> r is Ok && final(self)@
                == old(self)@,
            !old(self)@.contains_key(drop_query.name@) && !drop_query.if_exists ==> r == Err::<(), EngineError>(
                EngineError::TableMissing(drop_query.name),
            ) && final(self)@ == old(self)@,
            final(self).path() == old(self).path(),
    {
        if !self.tables.contains_key(drop_query.name.as_str()) {
            if drop_query.if_exists {
                return Ok(());
            }
            return Err(EngineError::TableMissing(drop_query.name.clone()));
        }
        self.tables.remove(drop_query.name.as_str());
        Ok(())
    }

    /// The metadata of a table, if the catalog has it.
    pub fn get_table(&self, table_name: &str) -> (r: Option<&TableMetadata>)
        ensures
            match r {
                Some(t) => self@.contains_key(table_name@) && *t == self@[table_name@],
                None => !self@.contains_key(table_name@),
            },
    {
        self.tables.get(table_name)
    }

    /// The names of all tables, each once.
    pub fn list_tables(&self) -> (r: Vec<String>)
        ensures
            r@.len() == self@.len(),
            forall|k: Seq<char>| self@.contains_key(k) <==> contains_text(r@, k),
    {
        self.tables.key_list()
    }

    /// Whether the catalog has a table of that name.
    pub fn table_exists(&self, table_name: &str) -> (r: bool)
        ensures
            r == self@.contains_key(table_name@),
    {
        self.tables.contains_key(table_name)
    }

    /// The columns of a table; fails when the catalog does not have it.
    pub fn get_columns(&self, table_name: &str) -> (r: Result<&Vec<ColumnMetadata>, EngineError>)
        ensures
            match r {
                Ok(cols) => self@.contains_key(table_name@) && *cols == self@[table_name@].columns,
                Err(e) => !self@.contains_key(table_name@) && is_missing_table(e, table_name@),
            },
    {
        match self.tables.get(table_name) {
            Some(t) => Ok(&t.columns),
            None => Err(EngineError::TableMissing(crate::text::owned(table_name))),
        }
    }

    /// The first column of a table with the given name, if any; fails when
    /// the catalog does not have the table.
    pub fn get_column(&self, table_name: &str, column_name: &str) -> (r: Result<Option<&ColumnMetadata>, EngineError>)
        ensures
            match r {
                Ok(c) => self@.contains_key(table_name@) && match column_index(
                    self@[table_name@].columns@,
                    column_name@,
                ) {
                    Some(i) => c == Some(&self@[table_name@].columns@[i]),
                    None => c is None,
                },
                Err(e) => !self@.contains_key(table_name@) && is_missing_table(e, table_name@),
            },
    {
        let cols = match self.get_columns(table_name) {
            Ok(cols) => cols,
            Err(e) => return Err(e),
        };
        let mut i: usize = 0;
        while i < cols.len()
            invariant
                i <= cols@.len(),
                self@.contains_key(table_name@),
                *cols == self@[table_name@].columns,
                column_index(cols@.take(i as int), column_name@) is None,
            decreases cols.len() - i,
        {
            assert(cols@.take(i as int + 1).drop_last() =~= cols@.take(i as int));
            if str_equal(cols[i].name.as_str(), column_name) {
                proof {
                    lemma_column_index_prefix(cols@, column_name@, i as int + 1);
                }
                return Ok(Some(&cols[i]));
            }
            i = i + 1;
        }
        assert(cols@.take(i as int) =~= cols@);
        Ok(None)
    }

    /// Checks a row's values against a table's columns, column by column in
    /// order: a value must fit the column's type and may be null only where
    /// the column takes nulls; a column without a value must take nulls or
    /// have a default.  Fails with the first column that is not met, or when
    /// the catalog does not have the table.
    pub fn validate_data(&self, table_name: &str, data: &StringMap<DataValue>) -> (r: Result<(), EngineError>)
        ensures
            !self@.contains_key(table_name@) ==> r is Err && is_missing_table(r->Err_0, table_name@),
            self@.contains_key(table_name@) ==> match validation_failure(self@[table_name@].columns@, data@) {
                Some(e) => r == Err::<(), EngineError>(e),
                None => r is Ok,
            },
            self@.contains_key(table_name@) ==> (r is Ok <==> row_meets(self@[table_name@].columns@, data@)),
    {
        let cols = match self.get_columns(table_name) {
            Ok(cols) => cols,
            Err(e) => return Err(e),
        };
        proof {
            lemma_validation_failure(cols@, data@);
        }
        let mut i: usize = 0;
        while i < cols.len()
            invariant
                i <= cols@.len(),
                self@.contains_key(table_name@),
                *cols == self@[table_name@].columns,
                validation_failure(cols@.take(i as int), data@) is None,
                validation_failure(cols@, data@) is None <==> row_meets(cols@, data@),
            decreases cols.len() - i,
        {
            assert(cols@.take(i as int + 1).drop_last() =~= cols@.take(i as int));
            let c = &cols[i];
            match data.get(c.name.as_str()) {
                Some(v) => {
                    if !type_accepts_value(&c.data_type, v) {
                        proof {
                            lemma_validation_failure_prefix(cols@, data@, i as int + 1);
                        }
                        return Err(EngineError::TypeMismatch);
                    }
                    if !c.nullable && v.is_null() {
                        proof {
                            lemma_validation_failure_prefix(cols@, data@, i as int + 1);
                        }
                        return Err(EngineError::NotNull(c.name.clone()));
                    }
                },
                None => {
                    if !c.nullable && c.default_value.is_none() {
                        proof {
                            lemma_validation_failure_prefix(cols@, data@, i as int + 1);
                        }
                        return Err(EngineError::RequiredColumn(c.name.clone()));
                    }
                },
            }
            i = i + 1;
        }
        assert(cols@.take(i as int) =~= cols@);
        Ok(())
    }

    /// The number of tables and of their columns, with the size of the
    /// catalog's file as given.
    pub fn stats(&self, catalog_size_bytes: usize) -> (r: CatalogStats)
        requires
            column_total(self.table_seq()) <= usize::MAX,
        ensures
            r.total_tables == self@.len(),
            r.total_columns == column_total(self.table_seq()),
            r.catalog_size_bytes == catalog_size_bytes,
    {
        let n = self.tables.len();
        let entries = self.tables.entry_list();
        let mut total: usize = 0;
        let mut i: usize = 0;
        while i < entries.len()
            invariant
                i <= entries@.len(),
                entries@ == self.table_seq(),
                total == column_total(entries@.take(i as int)),
                column_total(entries@) <= usize::MAX,
            decreases entries.len() - i,
        {
            assert(entries@.take(i as int + 1).drop_last() =~= entries@.take(i as int));
            proof {
                lemma_column_total_prefix(entries@, i as int + 1);
            }
            total = total + entries[i].1.columns.len();
            i = i + 1;
        }
        assert(entries@.take(i as int) =~= entries@);
        CatalogStats { total_tables: n, total_columns: total, catalog_size_bytes }
    }
}

proof fn lemma_column_total_prefix(tables: Seq<(String, TableMetadata)>, n: int)
    requires
        0 <= n <= tables.len(),
    ensures
        column_total(tables.take(n)) <= column_total(tables),
    decreases tables.len(),
{
    if n < tables.len() {
        assert(tables.drop_last().take(n) =~= tables.take(n));
        lemma_column_total_prefix(tables.drop_last(), n);
    } else {
        assert(tables.take(n) =~= tables);
    }
}

proof fn lemma_column_index_prefix(cols: Seq<ColumnMetadata>, name: Seq<char>, n: int)
    requires
        0 <= n <= cols.len(),
        column_index(cols.take(n), name) is Some,
    ensures
        column_index(cols, name) == column_index(cols.take(n), name),
    decreases cols.len(),
{
    if n < cols.len() {
        assert(cols.drop_last().take(n) =~= cols.take(n));
        lemma_column_index_prefix(cols.drop_last(), name, n);
    } else {
        assert(cols.take(n) =~= cols);
    }
}

proof fn lemma_validation_failure_prefix(cols: Seq<ColumnMetadata>, data: Map<Seq<char>, DataValue>, n: int)
    requires
        0 <= n <= cols.len(),
        validation_failure(cols.take(n), data) is Some,
    ensures
        validation_failure(cols, data) == validation_failure(cols.take(n), data),
    decreases cols.len(),
{
    if n < cols.len() {
        assert(cols.drop_last().take(n) =~= cols.take(n));
        lemma_validation_failure_prefix(cols.drop_last(), data, n);
    } else {
        assert(cols.take(n) =~= cols);
    }
}

} // verus!
