//! The REST API's values: server settings, response envelopes, and the
//! demonstration database behind the SQL endpoint.

use vstd::prelude::*;
use crate::ambient::{lowercase_text, to_lowercase, utc_now_seconds};
use crate::config::{trim, trim_text};
use crate::text::{StringMap, owned, str_equal};

verus! {

/// REST server settings.
#[derive(Debug)]
pub struct ServerConfig {
    pub host: String,
    pub port: u16,
    pub enable_cors: bool,
    pub enable_metrics: bool,
    pub max_request_size: usize,
    pub rate_limit_requests_per_minute: u32,
}

impl Default for ServerConfig {
    /// Local host, port 8080, CORS and metrics on, 10 MB requests, 1000
    /// requests a minute.
    fn default() -> (r: Self)
        ensures
            r.host@ == "127.0.0.1"@,
            r.port == 8080,
            r.enable_cors,
            r.enable_metrics,
            r.max_request_size == 10 * 1024 * 1024,
            r.rate_limit_requests_per_minute == 1000,
    {
        ServerConfig {
            host: owned("127.0.0.1"),
            port: 8080,
            enable_cors: true,
            enable_metrics: true,
            max_request_size: 10 * 1024 * 1024,
            rate_limit_requests_per_minute: 1000,
        }
    }
}

/// The envelope of every API response.
#[derive(Debug)]
pub struct ApiResponse<T> {
    pub success: bool,
    pub data: Option<T>,
    pub error: Option<String>,
    /// When the response was made, in seconds since the Unix epoch (UTC).
    pub timestamp: i64,
}

impl<T> ApiResponse<T> {
    /// A successful response carrying `data`.
    pub fn success(data: T) -> (r: Self)
        ensures
            r.success,
            r.data == Some(data),
            r.error is None,
    {
        ApiResponse { success: true, data: Some(data), error: None, timestamp: utc_now_seconds() }
    }

    /// A failed response carrying `message`.
    pub fn error(message: String) -> (r: Self)
        ensures
            !r.success,
            r.data is None,
            r.error == Some(message),
    {
        ApiResponse { success: false, data: None, error: Some(message), timestamp: utc_now_seconds() }
    }
}

/// The health endpoint's answer.
#[derive(Debug)]
pub struct HealthResponse {
    pub status: String,
    pub version: String,
    pub timestamp: i64,
}

/// The result of a SQL query: column names, rows of cell texts, and the
/// number of rows.
#[derive(Debug)]
pub struct QueryResult {
    pub columns: Vec<String>,
    pub rows: Vec<Vec<String>>,
    pub row_count: usize,
}

/// Why an API request failed.
#[derive(Debug, PartialEq, Eq)]
pub enum ApiError {
    InvalidArgument(String),
}

/// The only query the demonstration database answers.
pub open spec fn health_query(q: Seq<char>) -> bool {
    trim(lowercase_text(q)) == "select * from health"@
}

/// The demonstration database behind the SQL endpoint.
#[derive(Debug)]
pub struct AuroraDatabase {
    pub tables: StringMap<Vec<StringMap<String>>>,
}

impl AuroraDatabase {
    /// A database without tables.
    pub fn new() -> (r: Self)
        ensures
            r.tables@ == Map::<Seq<char>, Vec<StringMap<String>>>::empty(),
    {
        AuroraDatabase { tables: StringMap::new() }
    }

    /// Answers `select * from health` (in any case, with surrounding white
    /// space) with one row, `healthy`, in column `status`; refuses any other
    /// query.
    pub fn execute_sql(&mut self, query: &str) -> (r: Result<QueryResult, ApiError>)
        ensures
            health_query(query@) ==> (r matches Ok(res) && res.columns@.len() == 1 && res.columns@[0]@
                == "status"@ && res.rows@.len() == 1 && res.rows@[0]@.len() == 1 && res.rows@[0]@[0]@
                == "healthy"@ && res.row_count == 1),
            !health_query(query@) ==> (r matches Err(ApiError::InvalidArgument(m)) && m@
                == "Query not supported in demo"@),
    {
        let lower = to_lowercase(query);
        let q = trim_text(lower.as_str());
        if str_equal(q.as_str(), "select * from health") {
            let columns = vec![owned("status")];
            let row = vec![owned("healthy")];
            let rows = vec![row];
            Ok(QueryResult { columns, rows, row_count: 1 })
        } else {
            Err(ApiError::InvalidArgument(owned("Query not supported in demo")))
        }
    }
}

} // verus!
