//! Structured errors: codes, categories, severities, context and chaining,
//! user-facing messages, and error counters.

use vstd::prelude::*;
use vstd::string::*;
use crate::text::{StringMap, text_map, push_text, push_char, join, views, owned, decimal_string};
use crate::ambient::utc_now_millis;

pub mod errors;

verus! {

broadcast use vstd::string::group_string_axioms;

/// Error severity levels, from least to most severe.
#[derive(Debug, Clone, Copy, PartialEq, Eq, PartialOrd, Ord, Structural)]
pub enum ErrorSeverity {
    Low,
    Medium,
    High,
    Critical,
}

/// The numeric level of a severity (1 = low … 4 = critical).
pub open spec fn severity_level(s: ErrorSeverity) -> u8 {
    match s {
        ErrorSeverity::Low => 1,
        ErrorSeverity::Medium => 2,
        ErrorSeverity::High => 3,
        ErrorSeverity::Critical => 4,
    }
}

impl ErrorSeverity {
    /// The numeric level of this severity (1 = low … 4 = critical).
    pub fn level(&self) -> (r: u8)
        ensures
            r == severity_level(*self),
    {
        match self {
            ErrorSeverity::Low => 1,
            ErrorSeverity::Medium => 2,
            ErrorSeverity::High => 3,
            ErrorSeverity::Critical => 4,
        }
    }
}

/// Error categories for classification.
#[derive(Debug, Clone, Copy, PartialEq, Eq, Hash, Structural)]
pub enum ErrorCategory {
    System,
    Configuration,
    Resource,
    Connection,
    Authentication,
    Authorization,
    Query,
    Transaction,
    Storage,
    Network,
    Protocol,
    Security,
    Audit,
    Compliance,
    Validation,
    BusinessLogic,
    DataIntegrity,
    ExternalService,
    ThirdParty,
}

/// Structured error codes.
#[derive(Debug, Clone, Copy, PartialEq, Eq, Hash, Structural)]
pub enum ErrorCode {
    SystemOutOfMemory,
    SystemDiskFull,
    SystemNetworkUnreachable,
    SystemClockSkew,
    ConfigInvalidFormat,
    ConfigMissingRequired,
    ConfigInvalidValue,
    ConfigFileNotFound,
    ConnectionTimeout,
    ConnectionRefused,
    ConnectionLost,
    ConnectionPoolExhausted,
    AuthInvalidCredentials,
    AuthTokenExpired,
    AuthInsufficientPermissions,
    AuthAccountLocked,
    QuerySyntaxError,
    QueryTimeout,
    QueryCancelled,
    QueryInvalidParameters,
    TransactionDeadlock,
    TransactionRollback,
    TransactionTimeout,
    TransactionConflict,
    StorageDiskFull,
    StorageCorruption,
    StorageInconsistent,
    StorageUnavailable,
    SecurityEncryptionFailed,
    SecurityDecryptionFailed,
    SecurityCertificateInvalid,
    SecurityTamperingDetected,
    ValidationRequiredField,
    ValidationInvalidFormat,
    ValidationConstraintViolation,
    ValidationTypeMismatch,
}

/// The category that an error code belongs to.
pub open spec fn category_of(code: ErrorCode) -> ErrorCategory {
    match code {
        ErrorCode::SystemOutOfMemory | ErrorCode::SystemDiskFull | ErrorCode::SystemNetworkUnreachable
        | ErrorCode::SystemClockSkew => ErrorCategory::System,
        ErrorCode::ConfigInvalidFormat | ErrorCode::ConfigMissingRequired | ErrorCode::ConfigInvalidValue
        | ErrorCode::ConfigFileNotFound => ErrorCategory::Configuration,
        ErrorCode::ConnectionTimeout | ErrorCode::ConnectionRefused | ErrorCode::ConnectionLost
        | ErrorCode::ConnectionPoolExhausted => ErrorCategory::Connection,
        ErrorCode::AuthInvalidCredentials | ErrorCode::AuthTokenExpired
        | ErrorCode::AuthInsufficientPermissions | ErrorCode::AuthAccountLocked => ErrorCategory::Authentication,
        ErrorCode::QuerySyntaxError | ErrorCode::QueryTimeout | ErrorCode::QueryCancelled
        | ErrorCode::QueryInvalidParameters => ErrorCategory::Query,
        ErrorCode::TransactionDeadlock | ErrorCode::TransactionRollback | ErrorCode::TransactionTimeout
        | ErrorCode::TransactionConflict => ErrorCategory::Transaction,
        ErrorCode::StorageDiskFull | ErrorCode::StorageCorruption | ErrorCode::StorageInconsistent
        | ErrorCode::StorageUnavailable => ErrorCategory::Storage,
        ErrorCode::SecurityEncryptionFailed | ErrorCode::SecurityDecryptionFailed
        | ErrorCode::SecurityCertificateInvalid | ErrorCode::SecurityTamperingDetected => ErrorCategory::Security,
        ErrorCode::ValidationRequiredField | ErrorCode::ValidationInvalidFormat
        | ErrorCode::ValidationConstraintViolation | ErrorCode::ValidationTypeMismatch => ErrorCategory::Validation,
    }
}

/// The severity that an error code carries.
pub open spec fn severity_of(code: ErrorCode) -> ErrorSeverity {
    match category_of(code) {
        ErrorCategory::System => ErrorSeverity::Critical,
        ErrorCategory::Configuration => ErrorSeverity::High,
        ErrorCategory::Connection => ErrorSeverity::Medium,
        ErrorCategory::Authentication => ErrorSeverity::Medium,
        ErrorCategory::Query => ErrorSeverity::Medium,
        ErrorCategory::Transaction => ErrorSeverity::High,
        ErrorCategory::Storage => ErrorSeverity::Critical,
        ErrorCategory::Security => ErrorSeverity::Critical,
        _ => ErrorSeverity::Low,
    }
}

/// The numeric code: the thousand gives the family (1xxx system … 9xxx
/// validation), the last digit the member within it.
pub open spec fn code_number(code: ErrorCode) -> u32 {
    match code {
        ErrorCode::SystemOutOfMemory => 1001,
        ErrorCode::SystemDiskFull => 1002,
        ErrorCode::SystemNetworkUnreachable => 1003,
        ErrorCode::SystemClockSkew => 1004,
        ErrorCode::ConfigInvalidFormat => 2001,
        ErrorCode::ConfigMissingRequired => 2002,
        ErrorCode::ConfigInvalidValue => 2003,
        ErrorCode::ConfigFileNotFound => 2004,
        ErrorCode::ConnectionTimeout => 3001,
        ErrorCode::ConnectionRefused => 3002,
        ErrorCode::ConnectionLost => 3003,
        ErrorCode::ConnectionPoolExhausted => 3004,
        ErrorCode::AuthInvalidCredentials => 4001,
        ErrorCode::AuthTokenExpired => 4002,
        ErrorCode::AuthInsufficientPermissions => 4003,
        ErrorCode::AuthAccountLocked => 4004,
        ErrorCode::QuerySyntaxError => 5001,
        ErrorCode::QueryTimeout => 5002,
        ErrorCode::QueryCancelled => 5003,
        ErrorCode::QueryInvalidParameters => 5004,
        ErrorCode::TransactionDeadlock => 6001,
        ErrorCode::TransactionRollback => 6002,
        ErrorCode::TransactionTimeout => 6003,
        ErrorCode::TransactionConflict => 6004,
        ErrorCode::StorageDiskFull => 7001,
        ErrorCode::StorageCorruption => 7002,
        ErrorCode::StorageInconsistent => 7003,
        ErrorCode::StorageUnavailable => 7004,
        ErrorCode::SecurityEncryptionFailed => 8001,
        ErrorCode::SecurityDecryptionFailed => 8002,
        ErrorCode::SecurityCertificateInvalid => 8003,
        ErrorCode::SecurityTamperingDetected => 8004,
        ErrorCode::ValidationRequiredField => 9001,
        ErrorCode::ValidationInvalidFormat => 9002,
        ErrorCode::ValidationConstraintViolation => 9003,
        ErrorCode::ValidationTypeMismatch => 9004,
    }
}

impl ErrorCode {
    /// The numeric code (for example 5001 for a query syntax error).
    pub fn number(&self) -> (r: u32)
        ensures
            r == code_number(*self),
    {
        match self {
            ErrorCode::SystemOutOfMemory => 1001,
            ErrorCode::SystemDiskFull => 1002,
            ErrorCode::SystemNetworkUnreachable => 1003,
            ErrorCode::SystemClockSkew => 1004,
            ErrorCode::ConfigInvalidFormat => 2001,
            ErrorCode::ConfigMissingRequired => 2002,
            ErrorCode::ConfigInvalidValue => 2003,
            ErrorCode::ConfigFileNotFound => 2004,
            ErrorCode::ConnectionTimeout => 3001,
            ErrorCode::ConnectionRefused => 3002,
            ErrorCode::ConnectionLost => 3003,
            ErrorCode::ConnectionPoolExhausted => 3004,
            ErrorCode::AuthInvalidCredentials => 4001,
            ErrorCode::AuthTokenExpired => 4002,
            ErrorCode::AuthInsufficientPermissions => 4003,
            ErrorCode::AuthAccountLocked => 4004,
            ErrorCode::QuerySyntaxError => 5001,
            ErrorCode::QueryTimeout => 5002,
            ErrorCode::QueryCancelled => 5003,
            ErrorCode::QueryInvalidParameters => 5004,
            ErrorCode::TransactionDeadlock => 6001,
            ErrorCode::TransactionRollback => 6002,
            ErrorCode::TransactionTimeout => 6003,
            ErrorCode::TransactionConflict => 6004,
            ErrorCode::StorageDiskFull => 7001,
            ErrorCode::StorageCorruption => 7002,
            ErrorCode::StorageInconsistent => 7003,
            ErrorCode::StorageUnavailable => 7004,
            ErrorCode::SecurityEncryptionFailed => 8001,
            ErrorCode::SecurityDecryptionFailed => 8002,
            ErrorCode::SecurityCertificateInvalid => 8003,
            ErrorCode::SecurityTamperingDetected => 8004,
            ErrorCode::ValidationRequiredField => 9001,
            ErrorCode::ValidationInvalidFormat => 9002,
            ErrorCode::ValidationConstraintViolation => 9003,
            ErrorCode::ValidationTypeMismatch => 9004,
        }
    }

    /// The code's variant name, as `{:?}` prints it.
    pub fn name(&self) -> (r: &'static str)
        ensures
            r@ == code_name(*self),
    {
        match self {
            ErrorCode::SystemOutOfMemory => "SystemOutOfMemory",
            ErrorCode::SystemDiskFull => "SystemDiskFull",
            ErrorCode::SystemNetworkUnreachable => "SystemNetworkUnreachable",
            ErrorCode::SystemClockSkew => "SystemClockSkew",
            ErrorCode::ConfigInvalidFormat => "ConfigInvalidFormat",
            ErrorCode::ConfigMissingRequired => "ConfigMissingRequired",
            ErrorCode::ConfigInvalidValue => "ConfigInvalidValue",
            ErrorCode::ConfigFileNotFound => "ConfigFileNotFound",
            ErrorCode::ConnectionTimeout => "ConnectionTimeout",
            ErrorCode::ConnectionRefused => "ConnectionRefused",
            ErrorCode::ConnectionLost => "ConnectionLost",
            ErrorCode::ConnectionPoolExhausted => "ConnectionPoolExhausted",
            ErrorCode::AuthInvalidCredentials => "AuthInvalidCredentials",
            ErrorCode::AuthTokenExpired => "AuthTokenExpired",
            ErrorCode::AuthInsufficientPermissions => "AuthInsufficientPermissions",
            ErrorCode::AuthAccountLocked => "AuthAccountLocked",
            ErrorCode::QuerySyntaxError => "QuerySyntaxError",
            ErrorCode::QueryTimeout => "QueryTimeout",
            ErrorCode::QueryCancelled => "QueryCancelled",
            ErrorCode::QueryInvalidParameters => "QueryInvalidParameters",
            ErrorCode::TransactionDeadlock => "TransactionDeadlock",
            ErrorCode::TransactionRollback => "TransactionRollback",
            ErrorCode::TransactionTimeout => "TransactionTimeout",
            ErrorCode::TransactionConflict => "TransactionConflict",
            ErrorCode::StorageDiskFull => "StorageDiskFull",
            ErrorCode::StorageCorruption => "StorageCorruption",
            ErrorCode::StorageInconsistent => "StorageInconsistent",
            ErrorCode::StorageUnavailable => "StorageUnavailable",
            ErrorCode::SecurityEncryptionFailed => "SecurityEncryptionFailed",
            ErrorCode::SecurityDecryptionFailed => "SecurityDecryptionFailed",
            ErrorCode::SecurityCertificateInvalid => "SecurityCertificateInvalid",
            ErrorCode::SecurityTamperingDetected => "SecurityTamperingDetected",
            ErrorCode::ValidationRequiredField => "ValidationRequiredField",
            ErrorCode::ValidationInvalidFormat => "ValidationInvalidFormat",
            ErrorCode::ValidationConstraintViolation => "ValidationConstraintViolation",
            ErrorCode::ValidationTypeMismatch => "ValidationTypeMismatch",
        }
    }
}

/// The variant name of an error code.
pub open spec fn code_name(code: ErrorCode) -> Seq<char> {
    match code {
        ErrorCode::SystemOutOfMemory => "SystemOutOfMemory"@,
        ErrorCode::SystemDiskFull => "SystemDiskFull"@,
        ErrorCode::SystemNetworkUnreachable => "SystemNetworkUnreachable"@,
        ErrorCode::SystemClockSkew => "SystemClockSkew"@,
        ErrorCode::ConfigInvalidFormat => "ConfigInvalidFormat"@,
        ErrorCode::ConfigMissingRequired => "ConfigMissingRequired"@,
        ErrorCode::ConfigInvalidValue => "ConfigInvalidValue"@,
        ErrorCode::ConfigFileNotFound => "ConfigFileNotFound"@,
        ErrorCode::ConnectionTimeout => "ConnectionTimeout"@,
        ErrorCode::ConnectionRefused => "ConnectionRefused"@,
        ErrorCode::ConnectionLost => "ConnectionLost"@,
        ErrorCode::ConnectionPoolExhausted => "ConnectionPoolExhausted"@,
        ErrorCode::AuthInvalidCredentials => "AuthInvalidCredentials"@,
        ErrorCode::AuthTokenExpired => "AuthTokenExpired"@,
        ErrorCode::AuthInsufficientPermissions => "AuthInsufficientPermissions"@,
        ErrorCode::AuthAccountLocked => "AuthAccountLocked"@,
        ErrorCode::QuerySyntaxError => "QuerySyntaxError"@,
        ErrorCode::QueryTimeout => "QueryTimeout"@,
        ErrorCode::QueryCancelled => "QueryCancelled"@,
        ErrorCode::QueryInvalidParameters => "QueryInvalidParameters"@,
        ErrorCode::TransactionDeadlock => "TransactionDeadlock"@,
        ErrorCode::TransactionRollback => "TransactionRollback"@,
        ErrorCode::TransactionTimeout => "TransactionTimeout"@,
        ErrorCode::TransactionConflict => "TransactionConflict"@,
        ErrorCode::StorageDiskFull => "StorageDiskFull"@,
        ErrorCode::StorageCorruption => "StorageCorruption"@,
        ErrorCode::StorageInconsistent => "StorageInconsistent"@,
        ErrorCode::StorageUnavailable => "StorageUnavailable"@,
        ErrorCode::SecurityEncryptionFailed => "SecurityEncryptionFailed"@,
        ErrorCode::SecurityDecryptionFailed => "SecurityDecryptionFailed"@,
        ErrorCode::SecurityCertificateInvalid => "SecurityCertificateInvalid"@,
        ErrorCode::SecurityTamperingDetected => "SecurityTamperingDetected"@,
        ErrorCode::ValidationRequiredField => "ValidationRequiredField"@,
        ErrorCode::ValidationInvalidFormat => "ValidationInvalidFormat"@,
        ErrorCode::ValidationConstraintViolation => "ValidationConstraintViolation"@,
        ErrorCode::ValidationTypeMismatch => "ValidationTypeMismatch"@,
    }
}

/// The variant name of an error category.
pub open spec fn category_name(c: ErrorCategory) -> Seq<char> {
    match c {
        ErrorCategory::System => "System"@,
        ErrorCategory::Configuration => "Configuration"@,
        ErrorCategory::Resource => "Resource"@,
        ErrorCategory::Connection => "Connection"@,
        ErrorCategory::Authentication => "Authentication"@,
        ErrorCategory::Authorization => "Authorization"@,
        ErrorCategory::Query => "Query"@,
        ErrorCategory::Transaction => "Transaction"@,
        ErrorCategory::Storage => "Storage"@,
        ErrorCategory::Network => "Network"@,
        ErrorCategory::Protocol => "Protocol"@,
        ErrorCategory::Security => "Security"@,
        ErrorCategory::Audit => "Audit"@,
        ErrorCategory::Compliance => "Compliance"@,
        ErrorCategory::Validation => "Validation"@,
        ErrorCategory::BusinessLogic => "BusinessLogic"@,
        ErrorCategory::DataIntegrity => "DataIntegrity"@,
        ErrorCategory::ExternalService => "ExternalService"@,
        ErrorCategory::ThirdParty => "ThirdParty"@,
    }
}

impl ErrorCategory {
    /// The category's variant name, as `{:?}` prints it.
    pub fn name(&self) -> (r: &'static str)
        ensures
            r@ == category_name(*self),
    {
        match self {
            ErrorCategory::System => "System",
            ErrorCategory::Configuration => "Configuration",
            ErrorCategory::Resource => "Resource",
            ErrorCategory::Connection => "Connection",
            ErrorCategory::Authentication => "Authentication",
            ErrorCategory::Authorization => "Authorization",
            ErrorCategory::Query => "Query",
            ErrorCategory::Transaction => "Transaction",
            ErrorCategory::Storage => "Storage",
            ErrorCategory::Network => "Network",
            ErrorCategory::Protocol => "Protocol",
            ErrorCategory::Security => "Security",
            ErrorCategory::Audit => "Audit",
            ErrorCategory::Compliance => "Compliance",
            ErrorCategory::Validation => "Validation",
            ErrorCategory::BusinessLogic => "BusinessLogic",
            ErrorCategory::DataIntegrity => "DataIntegrity",
            ErrorCategory::ExternalService => "ExternalService",
            ErrorCategory::ThirdParty => "ThirdParty",
        }
    }
}

/// The category and severity that go with an error code.
pub fn category_and_severity(code: ErrorCode) -> (r: (ErrorCategory, ErrorSeverity))
    ensures
        r.0 == category_of(code),
        r.1 == severity_of(code),
{
    match code {
        ErrorCode::SystemOutOfMemory | ErrorCode::SystemDiskFull | ErrorCode::SystemNetworkUnreachable
        | ErrorCode::SystemClockSkew => (ErrorCategory::System, ErrorSeverity::Critical),
        ErrorCode::ConfigInvalidFormat | ErrorCode::ConfigMissingRequired | ErrorCode::ConfigInvalidValue
        | ErrorCode::ConfigFileNotFound => (ErrorCategory::Configuration, ErrorSeverity::High),
        ErrorCode::ConnectionTimeout | ErrorCode::ConnectionRefused | ErrorCode::ConnectionLost
        | ErrorCode::ConnectionPoolExhausted => (ErrorCategory::Connection, ErrorSeverity::Medium),
        ErrorCode::AuthInvalidCredentials | ErrorCode::AuthTokenExpired
        | ErrorCode::AuthInsufficientPermissions | ErrorCode::AuthAccountLocked => (
            ErrorCategory::Authentication,
            ErrorSeverity::Medium,
        ),
        ErrorCode::QuerySyntaxError | ErrorCode::QueryTimeout | ErrorCode::QueryCancelled
        | ErrorCode::QueryInvalidParameters => (ErrorCategory::Query, ErrorSeverity::Medium),
        ErrorCode::TransactionDeadlock | ErrorCode::TransactionRollback | ErrorCode::TransactionTimeout
        | ErrorCode::TransactionConflict => (ErrorCategory::Transaction, ErrorSeverity::High),
        ErrorCode::StorageDiskFull | ErrorCode::StorageCorruption | ErrorCode::StorageInconsistent
        | ErrorCode::StorageUnavailable => (ErrorCategory::Storage, ErrorSeverity::Critical),
        ErrorCode::SecurityEncryptionFailed | ErrorCode::SecurityDecryptionFailed
        | ErrorCode::SecurityCertificateInvalid | ErrorCode::SecurityTamperingDetected => (
            ErrorCategory::Security,
            ErrorSeverity::Critical,
        ),
        ErrorCode::ValidationRequiredField | ErrorCode::ValidationInvalidFormat
        | ErrorCode::ValidationConstraintViolation | ErrorCode::ValidationTypeMismatch => (
            ErrorCategory::Validation,
            ErrorSeverity::Low,
        ),
    }
}

/// Whether an error with this code may succeed when retried.
pub open spec fn code_is_retryable(code: ErrorCode) -> bool {
    code == ErrorCode::ConnectionTimeout || code == ErrorCode::ConnectionLost || code
        == ErrorCode::TransactionDeadlock || code == ErrorCode::SystemNetworkUnreachable
}

/// Whether errors of this category are the client's fault (4xx-like).
pub open spec fn category_is_client(c: ErrorCategory) -> bool {
    c == ErrorCategory::Authentication || c == ErrorCategory::Authorization || c
        == ErrorCategory::Validation
}

/// Whether errors of this category are the server's fault (5xx-like).
pub open spec fn category_is_server(c: ErrorCategory) -> bool {
    c == ErrorCategory::System || c == ErrorCategory::Storage || c == ErrorCategory::Transaction
}

/// A database error with its classification, context and cause.
#[derive(Debug)]
pub struct AuroraError {
    /// Unique error code.
    pub code: ErrorCode,
    /// Error category.
    pub category: ErrorCategory,
    /// Error severity.
    pub severity: ErrorSeverity,
    /// Human-readable message.
    pub message: String,
    /// Technical details for debugging.
    pub details: Option<String>,
    /// Component that produced the error.
    pub component: String,
    /// Operation being performed.
    pub operation: Option<String>,
    /// Additional context, by key.
    pub context: StringMap<String>,
    /// The error that caused this one.
    pub source: Option<Box<AuroraError>>,
    /// When the error was created, in milliseconds since the Unix epoch (UTC).
    pub timestamp: i64,
    /// Request id for correlation.
    pub request_id: Option<String>,
    /// Recovery suggestions, in the order they were added.
    pub recovery_suggestions: Vec<String>,
}

/// The message shown to a user for an error.
pub open spec fn user_message_of(e: AuroraError) -> Seq<char> {
    match e.code {
        ErrorCode::ConnectionTimeout => "Connection timed out. Please check your network connection and try again."@,
        ErrorCode::AuthInvalidCredentials => "Invalid username or password. Please check your credentials and try again."@,
        ErrorCode::QuerySyntaxError => "Invalid query syntax. Please check your SQL syntax and try again."@,
        ErrorCode::TransactionDeadlock => "Transaction deadlock detected. The transaction has been rolled back. Please retry your operation."@,
        ErrorCode::StorageDiskFull => "Database storage is full. Please free up disk space or contact your administrator."@,
        _ => "An error occurred: "@ + e.message@ + ". "@ + join(views(e.recovery_suggestions@), " "@),
    }
}

/// The one-line text of an error: `[code] category: message`, then
/// ` (during operation)` when an operation is set, then ` [context: n]` when
/// there is context.
pub open spec fn display_of(e: AuroraError) -> Seq<char> {
    let head = "["@ + code_name(e.code) + "] "@ + category_name(e.category) + ": "@ + e.message@;
    let with_op = match e.operation {
        Some(op) => head + " (during "@ + op@ + ")"@,
        None => head,
    };
    if e.context@.len() == 0 {
        with_op
    } else {
        with_op + " [context: "@ + crate::text::decimal(e.context@.len()) + "]"@
    }
}

impl AuroraError {
    /// A new error with the category and severity of `code`, component
    /// "unknown", no context, no cause and no suggestions, stamped with the
    /// current time.
    pub fn new(code: ErrorCode, message: &str) -> (r: Self)
        ensures
            r.code == code,
            r.category == category_of(code),
            r.severity == severity_of(code),
            r.message@ == message@,
            r.details is None,
            r.component@ == "unknown"@,
            r.operation is None,
            r.context@ == Map::<Seq<char>, String>::empty(),
            r.source is None,
            r.request_id is None,
            r.recovery_suggestions@.len() == 0,
    {
        let (category, severity) = category_and_severity(code);
        AuroraError {
            code,
            category,
            severity,
            message: owned(message),
            details: None,
            component: owned("unknown"),
            operation: None,
            context: StringMap::new(),
            source: None,
            timestamp: utc_now_millis(),
            request_id: None,
            recovery_suggestions: Vec::new(),
        }
    }

    /// The error with `key` set to `value` in its context.
    pub fn with_context(self, key: &str, value: &str) -> (r: Self)
        ensures
            text_map(r.context@) == text_map(self.context@).insert(key@, value@),
            r.code == self.code && r.category == self.category && r.severity == self.severity,
            r.message == self.message && r.details == self.details && r.component == self.component,
            r.operation == self.operation && r.source == self.source && r.timestamp == self.timestamp,
            r.request_id == self.request_id && r.recovery_suggestions == self.recovery_suggestions,
    {
        let mut e = self;
        let ghost before = e.context@;
        e.context.insert(owned(key), owned(value));
        assert(text_map(e.context@) =~= text_map(before).insert(key@, value@));
        e
    }

    /// The error with its operation set.
    pub fn with_operation(self, operation: &str) -> (r: Self)
        ensures
            r == (AuroraError { operation: r.operation, ..self }),
            r.operation matches Some(op) && op@ == operation@,
    {
        let mut e = self;
        e.operation = Some(owned(operation));
        e
    }

    /// The error with its component set.
    pub fn with_component(self, component: &str) -> (r: Self)
        ensures
            r == (AuroraError { component: r.component, ..self }),
            r.component@ == component@,
    {
        let mut e = self;
        e.component = owned(component);
        e
    }

    /// The error with its request id set.
    pub fn with_request_id(self, request_id: &str) -> (r: Self)
        ensures
            r == (AuroraError { request_id: r.request_id, ..self }),
            r.request_id matches Some(id) && id@ == request_id@,
    {
        let mut e = self;
        e.request_id = Some(owned(request_id));
        e
    }

    /// The error with one more recovery suggestion, after the others.
    pub fn with_recovery_suggestion(self, suggestion: &str) -> (r: Self)
        ensures
            r == (AuroraError { recovery_suggestions: r.recovery_suggestions, ..self }),
            r.recovery_suggestions@.len() == self.recovery_suggestions@.len() + 1,
            r.recovery_suggestions@.drop_last() == self.recovery_suggestions@,
            r.recovery_suggestions@.last()@ == suggestion@,
    {
        let mut e = self;
        e.recovery_suggestions.push(owned(suggestion));
        assert(e.recovery_suggestions@.drop_last() =~= self.recovery_suggestions@);
        e
    }

    /// The error with `source` recorded as its cause.
    pub fn caused_by(self, source: AuroraError) -> (r: Self)
        ensures
            r == (AuroraError { source: Some(Box::new(source)), ..self }),
    {
        let mut e = self;
        e.source = Some(Box::new(source));
        e
    }

    /// The message to show a user.
    pub fn user_message(&self) -> (r: String)
        ensures
            r@ == user_message_of(*self),
    {
        match self.code {
            ErrorCode::ConnectionTimeout => owned(
                "Connection timed out. Please check your network connection and try again.",
            ),
            ErrorCode::AuthInvalidCredentials => owned(
                "Invalid username or password. Please check your credentials and try again.",
            ),
            ErrorCode::QuerySyntaxError => owned(
                "Invalid query syntax. Please check your SQL syntax and try again.",
            ),
            ErrorCode::TransactionDeadlock => owned(
                "Transaction deadlock detected. The transaction has been rolled back. Please retry your operation.",
            ),
            ErrorCode::StorageDiskFull => owned(
                "Database storage is full. Please free up disk space or contact your administrator.",
            ),
            _ => {
                let mut s = owned("An error occurred: ");
                push_text(&mut s, self.message.as_str());
                push_text(&mut s, ". ");
                let joined = crate::text::join_strings(&self.recovery_suggestions, " ");
                push_text(&mut s, joined.as_str());
                s
            },
        }
    }

    /// Whether the error may go away on a retry.
    pub fn is_retryable(&self) -> (r: bool)
        ensures
            r == code_is_retryable(self.code),
    {
        match self.code {
            ErrorCode::ConnectionTimeout | ErrorCode::ConnectionLost | ErrorCode::TransactionDeadlock
            | ErrorCode::SystemNetworkUnreachable => true,
            _ => false,
        }
    }

    /// Whether the error is the client's fault (4xx-like).
    pub fn is_client_error(&self) -> (r: bool)
        ensures
            r == category_is_client(self.category),
    {
        match self.category {
            ErrorCategory::Authentication | ErrorCategory::Authorization | ErrorCategory::Validation => true,
            _ => false,
        }
    }

    /// Whether the error is the server's fault (5xx-like).
    pub fn is_server_error(&self) -> (r: bool)
        ensures
            r == category_is_server(self.category),
    {
        match self.category {
            ErrorCategory::System | ErrorCategory::Storage | ErrorCategory::Transaction => true,
            _ => false,
        }
    }

    /// The one-line text of the error (what `Display` prints).
    pub fn display_text(&self) -> (r: String)
        ensures
            r@ == display_of(*self),
    {
        let mut s = owned("[");
        push_text(&mut s, self.code.name());
        push_text(&mut s, "] ");
        push_text(&mut s, self.category.name());
        push_text(&mut s, ": ");
        push_text(&mut s, self.message.as_str());
        match &self.operation {
            Some(op) => {
                push_text(&mut s, " (during ");
                push_text(&mut s, op.as_str());
                push_text(&mut s, ")");
            },
            None => {},
        }
        let n = self.context.len();
        if n != 0 {
            push_text(&mut s, " [context: ");
            crate::text::push_decimal(&mut s, n as u64);
            push_text(&mut s, "]");
        }
        s
    }
}

/// The kinds of I/O failure that map to their own error codes; every other
/// kind is `Other`.
#[derive(Debug, Clone, Copy, PartialEq, Eq, Structural)]
pub enum IoErrorKind {
    NotFound,
    PermissionDenied,
    ConnectionRefused,
    ConnectionAborted,
    TimedOut,
    Other,
}

/// The error code that an I/O failure of a given kind maps to.
pub open spec fn io_code_of(kind: IoErrorKind) -> ErrorCode {
    match kind {
        IoErrorKind::NotFound => ErrorCode::ConfigFileNotFound,
        IoErrorKind::PermissionDenied => ErrorCode::AuthInsufficientPermissions,
        IoErrorKind::ConnectionRefused => ErrorCode::ConnectionRefused,
        IoErrorKind::ConnectionAborted => ErrorCode::ConnectionLost,
        IoErrorKind::TimedOut => ErrorCode::ConnectionTimeout,
        IoErrorKind::Other => ErrorCode::SystemDiskFull,
    }
}

/// The error code for an I/O failure of kind `kind`.
pub fn io_error_code(kind: IoErrorKind) -> (r: ErrorCode)
    ensures
        r == io_code_of(kind),
{
    match kind {
        IoErrorKind::NotFound => ErrorCode::ConfigFileNotFound,
        IoErrorKind::PermissionDenied => ErrorCode::AuthInsufficientPermissions,
        IoErrorKind::ConnectionRefused => ErrorCode::ConnectionRefused,
        IoErrorKind::ConnectionAborted => ErrorCode::ConnectionLost,
        IoErrorKind::TimedOut => ErrorCode::ConnectionTimeout,
        IoErrorKind::Other => ErrorCode::SystemDiskFull,
    }
}

impl AuroraError {
    /// The error for a failed I/O operation: the code of its kind, its text as
    /// message, component "io", and the kind's name under "error_kind".
    pub fn from_io(kind: IoErrorKind, message: &str, kind_name: &str) -> (r: Self)
        ensures
            r.code == io_code_of(kind),
            r.category == category_of(io_code_of(kind)),
            r.severity == severity_of(io_code_of(kind)),
            r.message@ == message@,
            r.component@ == "io"@,
            text_map(r.context@) == map!["error_kind"@ => kind_name@],
            r.operation is None && r.source is None && r.recovery_suggestions@.len() == 0,
    {
        let e = AuroraError::new(io_error_code(kind), message).with_component("io").with_context(
            "error_kind",
            kind_name,
        );
        assert(text_map(Map::<Seq<char>, String>::empty()) =~= Map::<Seq<char>, Seq<char>>::empty());
        e
    }

    /// The error for data that could not be (de)serialized: code
    /// `ValidationInvalidFormat`, component "serialization", "error_type" set
    /// to "json".
    pub fn from_serialization(message: &str) -> (r: Self)
        ensures
            r.code == ErrorCode::ValidationInvalidFormat,
            r.category == ErrorCategory::Validation,
            r.severity == ErrorSeverity::Low,
            r.message@ == message@,
            r.component@ == "serialization"@,
            text_map(r.context@) == map!["error_type"@ => "json"@],
            r.operation is None && r.source is None && r.recovery_suggestions@.len() == 0,
    {
        let e = AuroraError::new(ErrorCode::ValidationInvalidFormat, message).with_component(
            "serialization",
        ).with_context("error_type", "json");
        assert(text_map(Map::<Seq<char>, String>::empty()) =~= Map::<Seq<char>, Seq<char>>::empty());
        e
    }

    /// The error for an operation that ran out of time: code
    /// `ConnectionTimeout`, message "Operation timed out", component "timeout".
    pub fn timed_out() -> (r: Self)
        ensures
            r.code == ErrorCode::ConnectionTimeout,
            r.category == ErrorCategory::Connection,
            r.severity == ErrorSeverity::Medium,
            r.message@ == "Operation timed out"@,
            r.component@ == "timeout"@,
            r.context@ == Map::<Seq<char>, String>::empty(),
            r.operation is None && r.source is None && r.recovery_suggestions@.len() == 0,
    {
        AuroraError::new(ErrorCode::ConnectionTimeout, "Operation timed out").with_component("timeout")
    }
}

/// `x + 1`, wrapping to 0 past `u64::MAX` (what an atomic `fetch_add(1)` does).
pub open spec fn bump(x: u64) -> u64 {
    if x == u64::MAX {
        0
    } else {
        (x + 1) as u64
    }
}

/// Counters of recorded errors, in total, by category and by severity.
/// Counters wrap around past `u64::MAX`.
#[derive(Debug, Clone, Copy)]
pub struct ErrorMetrics {
    pub total_errors: u64,
    pub system_errors: u64,
    pub connection_errors: u64,
    pub query_errors: u64,
    pub auth_errors: u64,
    pub storage_errors: u64,
    pub security_errors: u64,
    pub critical_errors: u64,
    pub high_errors: u64,
    pub medium_errors: u64,
    pub low_errors: u64,
}

impl ErrorMetrics {
    /// Every error is counted under exactly one severity: the severity
    /// counters add up to the total (modulo 2^64, as the counters wrap).
    pub open spec fn severity_balanced(&self) -> bool {
        (self.critical_errors + self.high_errors + self.medium_errors + self.low_errors)
            % 0x1_0000_0000_0000_0000int == self.total_errors as int
    }

    /// All counters at zero.
    pub fn new() -> (r: Self)
        ensures
            r.total_errors == 0 && r.system_errors == 0 && r.connection_errors == 0,
            r.query_errors == 0 && r.auth_errors == 0 && r.storage_errors == 0,
            r.security_errors == 0 && r.critical_errors == 0 && r.high_errors == 0,
            r.medium_errors == 0 && r.low_errors == 0,
            r.severity_balanced(),
    {
        ErrorMetrics {
            total_errors: 0,
            system_errors: 0,
            connection_errors: 0,
            query_errors: 0,
            auth_errors: 0,
            storage_errors: 0,
            security_errors: 0,
            critical_errors: 0,
            high_errors: 0,
            medium_errors: 0,
            low_errors: 0,
        }
    }

    /// Counts one error: the total, the counter of its category when that
    /// category is tracked (system, connection, query, authentication,
    /// storage, security), and the counter of its severity.
    pub fn record_error(&mut self, category: ErrorCategory, severity: ErrorSeverity)
        ensures
            final(self).total_errors == bump(old(self).total_errors),
            final(self).system_errors == if category == ErrorCategory::System {
                bump(old(self).system_errors)
            } else {
                old(self).system_errors
            },
            final(self).connection_errors == if category == ErrorCategory::Connection {
                bump(old(self).connection_errors)
            } else {
                old(self).connection_errors
            },
            final(self).query_errors == if category == ErrorCategory::Query {
                bump(old(self).query_errors)
            } else {
                old(self).query_errors
            },
            final(self).auth_errors == if category == ErrorCategory::Authentication {
                bump(old(self).auth_errors)
            } else {
                old(self).auth_errors
            },
            final(self).storage_errors == if category == ErrorCategory::Storage {
                bump(old(self).storage_errors)
            } else {
                old(self).storage_errors
            },
            final(self).security_errors == if category == ErrorCategory::Security {
                bump(old(self).security_errors)
            } else {
                old(self).security_errors
            },
            final(self).critical_errors == if severity == ErrorSeverity::Critical {
                bump(old(self).critical_errors)
            } else {
                old(self).critical_errors
            },
            final(self).high_errors == if severity == ErrorSeverity::High {
                bump(old(self).high_errors)
            } else {
                old(self).high_errors
            },
            final(self).medium_errors == if severity == ErrorSeverity::Medium {
                bump(old(self).medium_errors)
            } else {
                old(self).medium_errors
            },
            final(self).low_errors == if severity == ErrorSeverity::Low {
                bump(old(self).low_errors)
            } else {
                old(self).low_errors
            },
            old(self).severity_balanced() ==> final(self).severity_balanced(),
    {
        self.total_errors = self.total_errors.wrapping_add(1);
        match category {
            ErrorCategory::System => {
                self.system_errors = self.system_errors.wrapping_add(1);
            },
            ErrorCategory::Connection => {
                self.connection_errors = self.connection_errors.wrapping_add(1);
            },
            ErrorCategory::Query => {
                self.query_errors = self.query_errors.wrapping_add(1);
            },
            ErrorCategory::Authentication => {
                self.auth_errors = self.auth_errors.wrapping_add(1);
            },
            ErrorCategory::Storage => {
                self.storage_errors = self.storage_errors.wrapping_add(1);
            },
            ErrorCategory::Security => {
                self.security_errors = self.security_errors.wrapping_add(1);
            },
            _ => {},
        }
        match severity {
            ErrorSeverity::Critical => {
                self.critical_errors = self.critical_errors.wrapping_add(1);
            },
            ErrorSeverity::High => {
                self.high_errors = self.high_errors.wrapping_add(1);
            },
            ErrorSeverity::Medium => {
                self.medium_errors = self.medium_errors.wrapping_add(1);
            },
            ErrorSeverity::Low => {
                self.low_errors = self.low_errors.wrapping_add(1);
            },
        }
        proof {
            lemma_bump_mod(old(self).critical_errors + old(self).high_errors + old(self).medium_errors
                + old(self).low_errors, old(self).total_errors);
        }
    }

    /// The counters by name: "total_errors", "system_errors",
    /// "connection_errors", "query_errors", "auth_errors", "storage_errors",
    /// "security_errors", "critical_errors", "high_errors", "medium_errors",
    /// "low_errors".
    pub fn get_metrics(&self) -> (r: StringMap<u64>)
        ensures
            r@ == map![
                "total_errors"@ => self.total_errors,
                "system_errors"@ => self.system_errors,
                "connection_errors"@ => self.connection_errors,
                "query_errors"@ => self.query_errors,
                "auth_errors"@ => self.auth_errors,
                "storage_errors"@ => self.storage_errors,
                "security_errors"@ => self.security_errors,
                "critical_errors"@ => self.critical_errors,
                "high_errors"@ => self.high_errors,
                "medium_errors"@ => self.medium_errors,
                "low_errors"@ => self.low_errors
            ],
    {
        let mut m = StringMap::new();
        m.insert(owned("total_errors"), self.total_errors);
        m.insert(owned("system_errors"), self.system_errors);
        m.insert(owned("connection_errors"), self.connection_errors);
        m.insert(owned("query_errors"), self.query_errors);
        m.insert(owned("auth_errors"), self.auth_errors);
        m.insert(owned("storage_errors"), self.storage_errors);
        m.insert(owned("security_errors"), self.security_errors);
        m.insert(owned("critical_errors"), self.critical_errors);
        m.insert(owned("high_errors"), self.high_errors);
        m.insert(owned("medium_errors"), self.medium_errors);
        m.insert(owned("low_errors"), self.low_errors);
        m
    }
}

/// Adding one to a sum and to a total that agree modulo 2^64 keeps them in
/// agreement, however the total wraps.
proof fn lemma_bump_mod(sum: int, total: u64)
    requires
        sum >= 0,
    ensures
        sum % 0x1_0000_0000_0000_0000int == total as int ==> (sum + 1) % 0x1_0000_0000_0000_0000int
            == bump(total) as int,
{
    if sum % 0x1_0000_0000_0000_0000int == total as int {
        vstd::arithmetic::div_mod::lemma_fundamental_div_mod(sum, 0x1_0000_0000_0000_0000int);
        let q = sum / 0x1_0000_0000_0000_0000int;
        if total == u64::MAX {
            vstd::arithmetic::div_mod::lemma_fundamental_div_mod_converse(
                sum + 1,
                0x1_0000_0000_0000_0000int,
                q + 1,
                0,
            );
        } else {
            vstd::arithmetic::div_mod::lemma_fundamental_div_mod_converse(
                sum + 1,
                0x1_0000_0000_0000_0000int,
                q,
                total + 1,
            );
        }
    }
}

} // verus!
