//! Enterprise security: row-level security, attribute-based access control,
//! audit logging, data encryption, data masking and compliance reports.

use vstd::prelude::*;
use crate::text::StringMap;

pub mod encryption;
pub mod rls;
pub mod abac;
pub mod audit;
pub mod masking;
pub mod compliance;
pub mod manager;

verus! {

/// Actions a query can perform.
#[derive(Debug, Clone, Copy, PartialEq, Eq, Hash, Structural)]
pub enum SecurityAction {
    Select,
    Insert,
    Update,
    Delete,
    Admin,
}

/// Query types for row-level security.
#[derive(Debug, Clone, Copy, PartialEq, Eq, Structural)]
pub enum QueryType {
    Read,
    Write,
    Admin,
}

/// Who asks to do what to which resource, and when.
#[derive(Debug)]
pub struct SecurityQuery {
    pub user_id: String,
    pub user_attributes: StringMap<String>,
    pub action: SecurityAction,
    pub resource: String,
    pub resource_attributes: StringMap<String>,
    pub query_type: QueryType,
    /// When the query was made, in seconds since the Unix epoch (UTC).
    pub timestamp: i64,
}

/// Row-level security filters: a WHERE condition and its parameters.
#[derive(Debug)]
pub struct RLSFilters {
    pub where_clause: String,
    pub parameters: StringMap<String>,
}

impl RLSFilters {
    /// A copy of the filters.
    pub fn duplicate(&self) -> (r: Self)
        ensures
            r.where_clause == self.where_clause,
            r.parameters@ == self.parameters@,
            r.parameters.entry_seq() == self.parameters.entry_seq(),
    {
        RLSFilters { where_clause: self.where_clause.clone(), parameters: self.parameters.duplicate() }
    }
}

/// The outcome of a security check.
#[derive(Debug)]
pub struct SecurityDecision {
    pub allowed: bool,
    pub filters: Option<RLSFilters>,
    pub masked_fields: Option<Vec<String>>,
    pub reason: String,
}

/// Why a security operation failed.
#[derive(Debug, PartialEq, Eq)]
pub enum SecurityError {
    /// Encrypted data without the expected header and length.
    InvalidEncryptedData,
    /// A compliance framework that has no report.
    UnsupportedFramework,
}

} // verus!
