//! Figures of the SQL pipeline that carry no measurement in floating point.

use vstd::prelude::*;

verus! {

/// Counters of the SQL parser.
#[derive(Debug, Clone, Copy, PartialEq, Eq, Structural)]
pub struct ParserMetrics {
    pub total_parses: u64,
    pub average_parse_time_micros: u64,
    pub parse_errors: u64,
}

/// What the parser found in a statement.
#[derive(Debug, Clone)]
pub struct ParsedQuery {
    pub query_type: String,
    pub tables: Vec<String>,
    pub columns: Vec<String>,
}

} // verus!
