//! Ready-made errors for common failures, each with its operation,
//! component, context and recovery suggestions.

use vstd::prelude::*;
use crate::errors::{AuroraError, ErrorCode};
use crate::text::{text_map, views, owned, push_text, push_decimal, decimal};

verus! {

broadcast use vstd::string::group_string_axioms;

/// A connection that timed out during `operation`.
pub fn connection_timeout(operation: &str) -> (r: AuroraError)
    ensures
        r.code == ErrorCode::ConnectionTimeout,
        r.message@ == "Connection timed out"@,
        r.operation matches Some(op) && op@ == operation@,
        r.component@ == "connection"@,
        r.context@ == Map::<Seq<char>, String>::empty(),
        views(r.recovery_suggestions@) == seq![
            "Check network connectivity and retry"@,
            "Increase connection timeout settings"@,
        ],
{
    let r = AuroraError::new(ErrorCode::ConnectionTimeout, "Connection timed out")
        .with_operation(operation)
        .with_component("connection")
        .with_recovery_suggestion("Check network connectivity and retry")
        .with_recovery_suggestion("Increase connection timeout settings");
    assert(views(r.recovery_suggestions@) =~= seq![
        "Check network connectivity and retry"@,
        "Increase connection timeout settings"@,
    ]) by {
        assert(r.recovery_suggestions@.drop_last().drop_last().len() == 0);
        assert(r.recovery_suggestions@.len() == 2);
        assert(r.recovery_suggestions@[0] == r.recovery_suggestions@.drop_last().last());
    }
    r
}

/// Failed authentication of `username`.
pub fn authentication_failed(username: &str) -> (r: AuroraError)
    ensures
        r.code == ErrorCode::AuthInvalidCredentials,
        r.message@ == "Authentication failed"@,
        r.operation matches Some(op) && op@ == "authentication"@,
        r.component@ == "security"@,
        text_map(r.context@) == map!["username"@ => username@],
        views(r.recovery_suggestions@) == seq![
            "Verify username and password"@,
            "Check account status"@,
        ],
{
    let r = AuroraError::new(ErrorCode::AuthInvalidCredentials, "Authentication failed")
        .with_operation("authentication")
        .with_component("security")
        .with_context("username", username)
        .with_recovery_suggestion("Verify username and password")
        .with_recovery_suggestion("Check account status");
    assert(text_map(Map::<Seq<char>, String>::empty()) =~= Map::<Seq<char>, Seq<char>>::empty());
    assert(views(r.recovery_suggestions@) =~= seq![
        "Verify username and password"@,
        "Check account status"@,
    ]) by {
        assert(r.recovery_suggestions@.len() == 2);
        assert(r.recovery_suggestions@[0] == r.recovery_suggestions@.drop_last().last());
    }
    r
}

/// Invalid SQL in `query`, found at `position`.
pub fn query_syntax_error(query: &str, position: usize) -> (r: AuroraError)
    ensures
        r.code == ErrorCode::QuerySyntaxError,
        r.message@ == "Invalid SQL syntax"@,
        r.operation matches Some(op) && op@ == "query_parsing"@,
        r.component@ == "query"@,
        text_map(r.context@) == map!["query"@ => query@, "position"@ => decimal(position as nat)],
        views(r.recovery_suggestions@) == seq![
            "Check SQL syntax near position "@ + decimal(position as nat),
        ],
{
    let pos = crate::text::decimal_string(position as u64);
    let mut hint = owned("Check SQL syntax near position ");
    push_decimal(&mut hint, position as u64);
    let r = AuroraError::new(ErrorCode::QuerySyntaxError, "Invalid SQL syntax")
        .with_operation("query_parsing")
        .with_component("query")
        .with_context("query", query)
        .with_context("position", pos.as_str())
        .with_recovery_suggestion(hint.as_str());
    assert(text_map(Map::<Seq<char>, String>::empty()) =~= Map::<Seq<char>, Seq<char>>::empty());
    assert(views(r.recovery_suggestions@) =~= seq![
        "Check SQL syntax near position "@ + decimal(position as nat),
    ]);
    r
}

/// The storage at `path` is full.
pub fn storage_full(path: &str) -> (r: AuroraError)
    ensures
        r.code == ErrorCode::StorageDiskFull,
        r.message@ == "Storage device is full"@,
        r.operation matches Some(op) && op@ == "storage_operation"@,
        r.component@ == "storage"@,
        text_map(r.context@) == map!["path"@ => path@],
        views(r.recovery_suggestions@) == seq![
            "Free up disk space"@,
            "Add additional storage capacity"@,
        ],
{
    let r = AuroraError::new(ErrorCode::StorageDiskFull, "Storage device is full")
        .with_operation("storage_operation")
        .with_component("storage")
        .with_context("path", path)
        .with_recovery_suggestion("Free up disk space")
        .with_recovery_suggestion("Add additional storage capacity");
    assert(text_map(Map::<Seq<char>, String>::empty()) =~= Map::<Seq<char>, Seq<char>>::empty());
    assert(views(r.recovery_suggestions@) =~= seq![
        "Free up disk space"@,
        "Add additional storage capacity"@,
    ]) by {
        assert(r.recovery_suggestions@.len() == 2);
        assert(r.recovery_suggestions@[0] == r.recovery_suggestions@.drop_last().last());
    }
    r
}

/// Transaction `tx_id` was rolled back after a deadlock.
pub fn transaction_deadlock(tx_id: &str) -> (r: AuroraError)
    ensures
        r.code == ErrorCode::TransactionDeadlock,
        r.message@ == "Transaction deadlock detected"@,
        r.operation matches Some(op) && op@ == "transaction_execution"@,
        r.component@ == "transaction"@,
        text_map(r.context@) == map!["transaction_id"@ => tx_id@],
        views(r.recovery_suggestions@) == seq![
            "Transaction has been rolled back"@,
            "Retry the operation"@,
            "Consider breaking the transaction into smaller operations"@,
        ],
{
    let r = AuroraError::new(ErrorCode::TransactionDeadlock, "Transaction deadlock detected")
        .with_operation("transaction_execution")
        .with_component("transaction")
        .with_context("transaction_id", tx_id)
        .with_recovery_suggestion("Transaction has been rolled back")
        .with_recovery_suggestion("Retry the operation")
        .with_recovery_suggestion("Consider breaking the transaction into smaller operations");
    assert(text_map(Map::<Seq<char>, String>::empty()) =~= Map::<Seq<char>, Seq<char>>::empty());
    assert(views(r.recovery_suggestions@) =~= seq![
        "Transaction has been rolled back"@,
        "Retry the operation"@,
        "Consider breaking the transaction into smaller operations"@,
    ]) by {
        let s = r.recovery_suggestions@;
        assert(s.len() == 3);
        assert(s[1] == s.drop_last().last());
        assert(s[0] == s.drop_last().drop_last().last());
    }
    r
}

/// The required configuration field `field` of `section` is missing.
pub fn config_missing_field(field: &str, section: &str) -> (r: AuroraError)
    ensures
        r.code == ErrorCode::ConfigMissingRequired,
        r.message@ == "Missing required configuration field: "@ + field@,
        r.operation matches Some(op) && op@ == "configuration_loading"@,
        r.component@ == "config"@,
        text_map(r.context@) == map!["field"@ => field@, "section"@ => section@],
        views(r.recovery_suggestions@) == seq![
            "Add '"@ + field@ + "' field to '"@ + section@ + "' section in configuration"@,
        ],
{
    let mut message = owned("Missing required configuration field: ");
    push_text(&mut message, field);
    let mut hint = owned("Add '");
    push_text(&mut hint, field);
    push_text(&mut hint, "' field to '");
    push_text(&mut hint, section);
    push_text(&mut hint, "' section in configuration");
    let r = AuroraError::new(ErrorCode::ConfigMissingRequired, message.as_str())
        .with_operation("configuration_loading")
        .with_component("config")
        .with_context("field", field)
        .with_context("section", section)
        .with_recovery_suggestion(hint.as_str());
    assert(text_map(Map::<Seq<char>, String>::empty()) =~= Map::<Seq<char>, Seq<char>>::empty());
    assert(views(r.recovery_suggestions@) =~= seq![
        "Add '"@ + field@ + "' field to '"@ + section@ + "' section in configuration"@,
    ]);
    r
}

/// The system resource `resource` is exhausted.
pub fn system_resource_exhausted(resource: &str) -> (r: AuroraError)
    ensures
        r.code == ErrorCode::SystemOutOfMemory,
        r.message@ == "System "@ + resource@ + " exhausted"@,
        r.operation matches Some(op) && op@ == "resource_allocation"@,
        r.component@ == "system"@,
        text_map(r.context@) == map!["resource"@ => resource@],
        views(r.recovery_suggestions@) == seq![
            "Increase system resources"@,
            "Reduce concurrent load"@,
            "Optimize application memory usage"@,
        ],
{
    let mut message = owned("System ");
    push_text(&mut message, resource);
    push_text(&mut message, " exhausted");
    let r = AuroraError::new(ErrorCode::SystemOutOfMemory, message.as_str())
        .with_operation("resource_allocation")
        .with_component("system")
        .with_context("resource", resource)
        .with_recovery_suggestion("Increase system resources")
        .with_recovery_suggestion("Reduce concurrent load")
        .with_recovery_suggestion("Optimize application memory usage");
    assert(text_map(Map::<Seq<char>, String>::empty()) =~= Map::<Seq<char>, Seq<char>>::empty());
    assert(views(r.recovery_suggestions@) =~= seq![
        "Increase system resources"@,
        "Reduce concurrent load"@,
        "Optimize application memory usage"@,
    ]) by {
        let s = r.recovery_suggestions@;
        assert(s.len() == 3);
        assert(s[1] == s.drop_last().last());
        assert(s[0] == s.drop_last().drop_last().last());
    }
    r
}

} // verus!
