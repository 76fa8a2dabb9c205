//! Storage-level data: column types, rows of raw column bytes, and query
//! execution statistics.

use vstd::prelude::*;

verus! {

/// The identifier of a stored row.
pub type RowId = u64;

/// The column types the storage layer knows.
#[derive(Debug)]
pub enum DataType {
    Boolean,
    Integer8,
    Integer16,
    Integer32,
    Integer64,
    Float32,
    Float64,
    /// Precision and scale.
    Decimal(u8, u8),
    /// At most this many characters.
    Varchar(u32),
    Text,
    /// At most this many bytes.
    Binary(u32),
    Date,
    Time,
    Timestamp,
    TimestampTz,
    Json,
    /// A vector embedding of this dimension.
    Vector(u32),
    Array(Box<DataType>),
}

impl DataType {
    /// A copy of the type.
    pub fn duplicate(&self) -> (r: DataType)
        ensures
            r == *self,
        decreases self,
    {
        match self {
            DataType::Boolean => DataType::Boolean,
            DataType::Integer8 => DataType::Integer8,
            DataType::Integer16 => DataType::Integer16,
            DataType::Integer32 => DataType::Integer32,
            DataType::Integer64 => DataType::Integer64,
            DataType::Float32 => DataType::Float32,
            DataType::Float64 => DataType::Float64,
            DataType::Decimal(p, s) => DataType::Decimal(*p, *s),
            DataType::Varchar(n) => DataType::Varchar(*n),
            DataType::Text => DataType::Text,
            DataType::Binary(n) => DataType::Binary(*n),
            DataType::Date => DataType::Date,
            DataType::Time => DataType::Time,
            DataType::Timestamp => DataType::Timestamp,
            DataType::TimestampTz => DataType::TimestampTz,
            DataType::Json => DataType::Json,
            DataType::Vector(n) => DataType::Vector(*n),
            DataType::Array(inner) => DataType::Array(Box::new((&**inner).duplicate())),
        }
    }
}

/// A stored row: its identifier and each column's bytes, `None` for NULL.
#[derive(Debug, Clone)]
pub struct Row {
    pub id: RowId,
    pub data: Vec<Option<Vec<u8>>>,
}

/// Statistics of one query execution.
#[derive(Debug, Clone, Copy, PartialEq, Eq, Structural)]
pub struct QueryStats {
    pub execution_time_ms: u64,
    pub rows_processed: u64,
    pub pages_accessed: u64,
    pub network_bytes: u64,
    pub cache_hits: u64,
    pub cache_misses: u64,
}

/// `n / d` in thousandths, rounded down; 0 when `d` is 0.
pub open spec fn thousandths(n: int, d: int) -> int {
    if d == 0 {
        0
    } else {
        n * 1000 / d
    }
}

impl QueryStats {
    /// The share of cache lookups that hit, in thousandths (rounded down);
    /// 0 when there was no lookup.
    pub fn cache_hit_ratio(&self) -> (r: u64)
        ensures
            r == thousandths(self.cache_hits as int, self.cache_hits + self.cache_misses),
    {
        let hits = self.cache_hits as u128;
        let total = hits + self.cache_misses as u128;
        if total == 0 {
            0
        } else {
            assert((hits * 1000) as int / total as int <= 1000) by (nonlinear_arith)
                requires
                    hits <= total,
                    total > 0,
            ;
            (hits * 1000 / total) as u64
        }
    }

    /// The network bytes per processed row, in thousandths of a byte
    /// (rounded down); 0 when no row was processed.
    pub fn avg_bytes_per_row(&self) -> (r: u128)
        ensures
            r == thousandths(self.network_bytes as int, self.rows_processed as int),
    {
        if self.rows_processed == 0 {
            0
        } else {
            self.network_bytes as u128 * 1000 / self.rows_processed as u128
        }
    }
}

} // verus!
