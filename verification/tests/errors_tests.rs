use auroradb::errors::{AuroraError, ErrorCategory, ErrorCode, ErrorMetrics, ErrorSeverity};
use auroradb::errors::errors as helpers;

#[test]
fn test_error_creation() {
    let error = AuroraError::new(ErrorCode::QuerySyntaxError, "Invalid syntax");
    assert_eq!(error.code, ErrorCode::QuerySyntaxError);
    assert_eq!(error.category, ErrorCategory::Query);
    assert_eq!(error.severity, ErrorSeverity::Medium);
}

#[test]
fn test_error_with_context() {
    let error = AuroraError::new(ErrorCode::ConnectionTimeout, "Connection failed")
        .with_context("host", "localhost")
        .with_operation("connect")
        .with_component("network");

    assert_eq!(error.context.get("host"), Some(&"localhost".to_string()));
    assert_eq!(error.operation, Some("connect".to_string()));
    assert_eq!(error.component, "network");
}

#[test]
fn test_error_chaining() {
    let root_error = AuroraError::new(ErrorCode::StorageCorruption, "Data corruption detected");
    let chained_error = AuroraError::new(ErrorCode::QueryTimeout, "Query failed due to storage issue")
        .caused_by(root_error);

    assert!(chained_error.source.is_some());
    assert_eq!(chained_error.source.as_ref().unwrap().code, ErrorCode::StorageCorruption);
}

#[test]
fn test_error_user_message() {
    let error = AuroraError::new(ErrorCode::ConnectionTimeout, "Connection timed out");
    let user_msg = error.user_message();
    assert!(user_msg.contains("Connection timed out"));
    assert!(user_msg.contains("network connection"));
}

#[test]
fn test_error_is_retryable() {
    let timeout_error = AuroraError::new(ErrorCode::ConnectionTimeout, "Timeout");
    let syntax_error = AuroraError::new(ErrorCode::QuerySyntaxError, "Syntax error");

    assert!(timeout_error.is_retryable());
    assert!(!syntax_error.is_retryable());
}

#[test]
fn test_convenience_error_functions() {
    let error = helpers::connection_timeout("database_connect");
    assert_eq!(error.code, ErrorCode::ConnectionTimeout);
    assert_eq!(error.operation, Some("database_connect".to_string()));
    assert!(!error.recovery_suggestions.is_empty());
}

#[test]
fn test_error_metrics() {
    let mut metrics = ErrorMetrics::new();
    metrics.record_error(ErrorCategory::Query, ErrorSeverity::High);

    let metric_data = metrics.get_metrics();
    assert_eq!(metric_data.get("total_errors"), Some(&1));
    assert_eq!(metric_data.get("query_errors"), Some(&1));
    assert_eq!(metric_data.get("high_errors"), Some(&1));
}

#[test]
fn error_metrics_balance_severities_and_categories() {
    let mut metrics = ErrorMetrics::new();
    metrics.record_error(ErrorCategory::Storage, ErrorSeverity::Critical);
    metrics.record_error(ErrorCategory::Network, ErrorSeverity::Low);
    metrics.record_error(ErrorCategory::Storage, ErrorSeverity::Medium);
    let m = metrics.get_metrics();
    assert_eq!(m.get("total_errors"), Some(&3));
    assert_eq!(m.get("storage_errors"), Some(&2));
    assert_eq!(m.get("network_errors"), None);
    let severities = m.get("low_errors").unwrap() + m.get("medium_errors").unwrap()
        + m.get("high_errors").unwrap() + m.get("critical_errors").unwrap();
    assert_eq!(severities, 3);
}

#[test]
fn error_display_text_names_code_category_and_operation() {
    let error = AuroraError::new(ErrorCode::QueryTimeout, "too slow")
        .with_operation("select")
        .with_context("table", "users");
    let text = error.display_text();
    assert!(text.starts_with("["));
    assert!(text.contains("too slow"));
    assert!(text.contains(" (during select)"));
    assert!(text.ends_with(" [context: 1]"));
}

#[test]
fn error_user_message_for_other_codes_lists_suggestions() {
    let error = AuroraError::new(ErrorCode::QueryTimeout, "slow query")
        .with_recovery_suggestion("Add an index")
        .with_recovery_suggestion("Retry later");
    assert_eq!(error.user_message(), "An error occurred: slow query. Add an index Retry later");
}

#[test]
fn error_client_and_server_classification() {
    let auth = AuroraError::new(ErrorCode::AuthInvalidCredentials, "x");
    assert!(auth.is_client_error());
    assert!(!auth.is_server_error());
    let syntax = AuroraError::new(ErrorCode::QuerySyntaxError, "x");
    assert!(!syntax.is_client_error());
    assert!(!syntax.is_server_error());
    let storage = AuroraError::new(ErrorCode::StorageCorruption, "x");
    assert!(storage.is_server_error());
    assert!(!storage.is_client_error());
}

#[test]
fn convenience_errors_carry_their_codes() {
    assert_eq!(helpers::authentication_failed("bob").code, ErrorCode::AuthInvalidCredentials);
    assert_eq!(helpers::query_syntax_error("SELEC", 3).code, ErrorCode::QuerySyntaxError);
    assert_eq!(helpers::storage_full("/data").code, ErrorCode::StorageDiskFull);
    assert_eq!(helpers::transaction_deadlock("tx1").code, ErrorCode::TransactionDeadlock);
}
