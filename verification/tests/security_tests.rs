use auroradb::security::{QueryType, RLSFilters, SecurityAction, SecurityError, SecurityQuery};
use auroradb::security::abac::{ABACPolicy, AttributeBasedAccessControl, AttributeRequirement, EnvironmentConditions, TimeWindow};
use auroradb::security::audit::{AuditEventType, AuditLogger, AuditQuery};
use auroradb::security::compliance::{ComplianceFramework, ComplianceMonitor};
use auroradb::security::encryption::{DataEncryptionEngine, EncryptionContext, EncryptionType};
use auroradb::security::manager::EnterpriseSecurityManager;
use auroradb::security::masking::{DataMaskingEngine, FieldValue, MaskableData, MaskingPolicy, MaskingType, partial_mask};
use auroradb::security::rls::{RLSCondition, RLSPolicy, RowLevelSecurityEngine};
use auroradb::text::StringMap;
use std::hash::{Hash, Hasher};

fn attrs(pairs: &[(&str, &str)]) -> StringMap<String> {
    let mut m = StringMap::new();
    for (k, v) in pairs {
        m.insert(k.to_string(), v.to_string());
    }
    m
}

fn query(user: &str, user_attributes: StringMap<String>, action: SecurityAction, resource: &str, query_type: QueryType) -> SecurityQuery {
    SecurityQuery {
        user_id: user.to_string(),
        user_attributes,
        action,
        resource: resource.to_string(),
        resource_attributes: StringMap::new(),
        query_type,
        timestamp: 1_700_000_000,
    }
}

fn context() -> EncryptionContext {
    EncryptionContext {
        user_id: "test_user".to_string(),
        table_name: "test_table".to_string(),
        column_name: "sensitive_data".to_string(),
        encryption_type: EncryptionType::AES256,
    }
}

#[test]
fn test_rls_policy_creation() {
    let mut engine = RowLevelSecurityEngine::new();

    let policy = RLSPolicy {
        name: "user_data_policy".to_string(),
        condition: RLSCondition::UserAttribute {
            attribute: "department".to_string(),
            value: "sales".to_string(),
        },
        filter_expression: "department = ?".to_string(),
    };

    engine.add_policy("users", policy).unwrap();

    assert!(engine.has_table("users"));
    assert_eq!(engine.policy_count("users"), 1);
}

#[test]
fn test_abac_policy_evaluation() {
    let mut abac = AttributeBasedAccessControl::new();

    let mut subject = StringMap::new();
    subject.insert("role".to_string(), AttributeRequirement::Equals("admin".to_string()));
    let policy = ABACPolicy {
        name: "admin_policy".to_string(),
        subject_requirements: Some(subject),
        resource_requirements: None,
        allowed_actions: vec![SecurityAction::Admin],
        environment_conditions: None,
        masked_fields: None,
    };

    abac.add_policy(policy).unwrap();

    let q = query("user1", attrs(&[("role", "admin")]), SecurityAction::Admin, "users", QueryType::Admin);

    let decision = abac.evaluate_access(&q).unwrap();

    assert!(decision.allowed);
}

#[test]
fn test_data_encryption() {
    let engine = DataEncryptionEngine::new();

    let test_data = b"Hello, AuroraDB!";
    let ctx = context();

    let encrypted = engine.encrypt(test_data, &ctx).unwrap();
    assert_ne!(encrypted, test_data.to_vec());

    let decrypted = engine.decrypt(&encrypted, &ctx).unwrap();
    assert_eq!(decrypted, test_data.to_vec());
}

#[test]
fn test_data_masking() {
    let masking = DataMaskingEngine::new();

    let policy = MaskingPolicy {
        name: "ssn_mask".to_string(),
        fields_to_mask: vec!["ssn".to_string()],
        masking_type: MaskingType::PartialMask,
        roles_exempt: vec!["admin".to_string()],
    };

    let mut record = StringMap::new();
    record.insert("name".to_string(), FieldValue::Text("John Doe".to_string()));
    record.insert("ssn".to_string(), FieldValue::Text("123-45-6789".to_string()));
    record.insert("email".to_string(), FieldValue::Text("john@example.com".to_string()));
    let data = MaskableData::Record(record);

    let masked = masking.apply_masking(&data, &policy).unwrap();

    match masked {
        MaskableData::Record(m) => {
            assert!(matches!(m.get("name"), Some(FieldValue::Text(s)) if s == "John Doe"));
            assert!(matches!(m.get("ssn"), Some(FieldValue::Text(s)) if s == "XXX-XX-6789"));
            assert!(matches!(m.get("email"), Some(FieldValue::Text(s)) if s == "john@example.com"));
        }
        MaskableData::Value(_) => panic!("a record stays a record"),
    }
}

#[test]
fn test_audit_logging() {
    let mut logger = AuditLogger::new().unwrap();

    let q = query("test_user", StringMap::new(), SecurityAction::Select, "users", QueryType::Read);

    let filters = RLSFilters {
        where_clause: "department = 'sales'".to_string(),
        parameters: StringMap::new(),
    };

    logger.log_access_granted(&q, &filters).unwrap();

    let audit_query = AuditQuery {
        user_id: Some("test_user".to_string()),
        action: None,
        resource: None,
        start_time: None,
        end_time: None,
        limit: None,
    };

    let logs = logger.query_logs(&audit_query).unwrap();
    assert_eq!(logs.len(), 1);
    assert_eq!(logs[0].user_id, "test_user");
}

#[test]
fn test_compliance_reporting() {
    let monitor = ComplianceMonitor::new();

    let report = monitor.generate_report(ComplianceFramework::GDPR).unwrap();

    assert_eq!(report.framework, ComplianceFramework::GDPR);
    assert!(report.compliance_score <= 1000);
    assert!(!report.recommendations.is_empty());
}

#[test]
fn test_enterprise_security_manager() {
    let mut security = EnterpriseSecurityManager::new().unwrap();

    let q = query(
        "test_user",
        attrs(&[("role", "user"), ("department", "sales")]),
        SecurityAction::Select,
        "customers",
        QueryType::Read,
    );

    let decision = security.enforce_security(&q).unwrap();

    // Should allow access (no policies configured yet)
    assert!(decision.allowed);
}

#[test]
fn rls_conditions_render_as_sql() {
    let cases = vec![
        (RLSCondition::UserAttribute { attribute: "dept".to_string(), value: "sales".to_string() }, "dept = sales"),
        (RLSCondition::UserRole { role: "manager".to_string() }, "user_role = 'manager'"),
        (RLSCondition::TimeBased { start_time: -5, end_time: 120 }, "created_at BETWEEN -5 AND 120"),
        (RLSCondition::Custom { function_name: "owns_row".to_string() }, "owns_row(rls_param_0)"),
    ];
    for (condition, expected) in cases {
        let p = RLSPolicy { name: "p".to_string(), condition, filter_expression: String::new() };
        assert_eq!(p.generate_condition("rls_param_0"), expected);
    }
}

#[test]
fn rls_filters_join_applicable_conditions_and_name_parameters() {
    let mut engine = RowLevelSecurityEngine::new();
    engine.add_policy("orders", RLSPolicy {
        name: "dept".to_string(),
        condition: RLSCondition::UserAttribute { attribute: "department".to_string(), value: "sales".to_string() },
        filter_expression: String::new(),
    }).unwrap();
    engine.add_policy("orders", RLSPolicy {
        name: "role".to_string(),
        condition: RLSCondition::UserRole { role: "admin".to_string() },
        filter_expression: String::new(),
    }).unwrap();
    engine.add_policy("orders", RLSPolicy {
        name: "custom".to_string(),
        condition: RLSCondition::Custom { function_name: "always_true".to_string() },
        filter_expression: String::new(),
    }).unwrap();
    let q = query("u", attrs(&[("department", "sales")]), SecurityAction::Select, "orders", QueryType::Read);
    let filters = engine.generate_filters(&q).unwrap();
    assert_eq!(filters.where_clause, "department = sales AND always_true(rls_param_2)");
    assert_eq!(filters.parameters.get("rls_param_0_department"), Some(&"sales".to_string()));
    assert_eq!(filters.parameters.get("rls_param_2_department"), Some(&"sales".to_string()));
    assert_eq!(filters.parameters.len(), 2);
}

#[test]
fn rls_without_applicable_policy_allows_all_rows() {
    let engine = RowLevelSecurityEngine::new();
    let q = query("u", StringMap::new(), SecurityAction::Select, "orders", QueryType::Read);
    let filters = engine.generate_filters(&q).unwrap();
    assert_eq!(filters.where_clause, "1=1");
    assert_eq!(filters.parameters.len(), 0);
}

#[test]
fn rls_time_based_policy_applies_inside_window_only() {
    let mut engine = RowLevelSecurityEngine::new();
    engine.add_policy("t", RLSPolicy {
        name: "w".to_string(),
        condition: RLSCondition::TimeBased { start_time: 10, end_time: 20 },
        filter_expression: String::new(),
    }).unwrap();
    let mut q = query("u", StringMap::new(), SecurityAction::Select, "t", QueryType::Read);
    q.timestamp = 15;
    assert_eq!(engine.generate_filters(&q).unwrap().where_clause, "created_at BETWEEN 10 AND 20");
    q.timestamp = 21;
    assert_eq!(engine.generate_filters(&q).unwrap().where_clause, "1=1");
}

fn simple_policy(name: &str, actions: Vec<SecurityAction>) -> ABACPolicy {
    ABACPolicy {
        name: name.to_string(),
        subject_requirements: None,
        resource_requirements: None,
        allowed_actions: actions,
        environment_conditions: None,
        masked_fields: None,
    }
}

#[test]
fn abac_reasons_follow_the_order_of_checks() {
    let abac = AttributeBasedAccessControl::new();
    let mut subject = StringMap::new();
    subject.insert("role".to_string(), AttributeRequirement::In(vec!["admin".to_string(), "dba".to_string()]));
    let mut p = simple_policy("p", vec![SecurityAction::Select]);
    p.subject_requirements = Some(subject);
    let q = query("u", attrs(&[("role", "guest")]), SecurityAction::Select, "r", QueryType::Read);
    assert_eq!(abac.evaluate_policy(&p, &q).reason, "Subject requirements not met");

    let q2 = query("u", attrs(&[("role", "dba")]), SecurityAction::Delete, "r", QueryType::Write);
    assert_eq!(abac.evaluate_policy(&p, &q2).reason, "Action not allowed");

    let mut p3 = simple_policy("night", vec![SecurityAction::Select]);
    p3.environment_conditions = Some(EnvironmentConditions {
        time_window: Some(TimeWindow { start_time: 0, end_time: 10 }),
        ip_whitelist: None,
        device_trust: None,
    });
    let q3 = query("u", StringMap::new(), SecurityAction::Select, "r", QueryType::Read);
    assert_eq!(abac.evaluate_policy(&p3, &q3).reason, "Environment conditions not met");

    let p4 = simple_policy("open", vec![SecurityAction::Select]);
    let d = abac.evaluate_policy(&p4, &q3);
    assert!(d.allowed);
    assert_eq!(d.reason, "ABAC policy 'open' allows access");
}

#[test]
fn abac_denies_when_no_policy_allows_and_allows_without_policies() {
    let mut abac = AttributeBasedAccessControl::new();
    let q = query("u", StringMap::new(), SecurityAction::Delete, "r", QueryType::Write);
    let d = abac.evaluate_access(&q).unwrap();
    assert!(d.allowed);
    abac.add_policy(simple_policy("reader", vec![SecurityAction::Select])).unwrap();
    let d = abac.evaluate_access(&q).unwrap();
    assert!(!d.allowed);
    assert_eq!(d.reason, "No ABAC policy allows this access");
}

#[test]
fn abac_regex_requirements_and_invalid_patterns() {
    let mut abac = AttributeBasedAccessControl::new();
    let mut subject = StringMap::new();
    subject.insert("email".to_string(), AttributeRequirement::Regex("@corp\\.com$".to_string()));
    let mut p = simple_policy("corp", vec![SecurityAction::Select]);
    p.subject_requirements = Some(subject);
    abac.add_policy(p).unwrap();
    let ok = query("u", attrs(&[("email", "a@corp.com")]), SecurityAction::Select, "r", QueryType::Read);
    assert!(abac.try_evaluate_access(&ok).unwrap().allowed);
    let other = query("u", attrs(&[("email", "a@else.com")]), SecurityAction::Select, "r", QueryType::Read);
    assert!(!abac.try_evaluate_access(&other).unwrap().allowed);

    let mut bad = AttributeBasedAccessControl::new();
    let mut subject = StringMap::new();
    subject.insert("email".to_string(), AttributeRequirement::Regex("(".to_string()));
    let mut p = simple_policy("broken", vec![SecurityAction::Select]);
    p.subject_requirements = Some(subject);
    bad.add_policy(p).unwrap();
    assert!(bad.try_evaluate_access(&ok).is_none());
}

#[test]
fn encryption_refuses_data_without_header() {
    let engine = DataEncryptionEngine::new();
    let ctx = context();
    assert_eq!(engine.decrypt(b"not encrypted at all, no header", &ctx), Err(SecurityError::InvalidEncryptedData));
    assert_eq!(engine.decrypt(b"short", &ctx), Err(SecurityError::InvalidEncryptedData));
}

#[test]
fn encryption_frames_with_header_and_length() {
    let engine = DataEncryptionEngine::new();
    let encrypted = engine.encrypt(b"abc", &context()).unwrap();
    assert_eq!(&encrypted[..19], b"AURORA_ENCRYPTED_V1");
    assert_eq!(&encrypted[19..27], &3u64.to_le_bytes());
    assert_eq!(encrypted.len(), 30);
}

#[test]
fn masking_kinds() {
    assert_eq!(partial_mask("1234"), "****");
    assert_eq!(partial_mask("ab"), "**");
    assert_eq!(partial_mask("4111-1111-1111-1234"), "XXXX-XXXX-XXXX-1234");
    let masking = DataMaskingEngine::new();
    let mut record = StringMap::new();
    record.insert("card".to_string(), FieldValue::Text("4111".to_string()));
    record.insert("age".to_string(), FieldValue::Other("42".to_string()));
    let data = MaskableData::Record(record);
    for (kind, check) in [
        (MaskingType::FullMask, "*MASKED*"),
        (MaskingType::Nullify, ""),
    ] {
        let policy = MaskingPolicy {
            name: "p".to_string(),
            fields_to_mask: vec!["card".to_string(), "age".to_string()],
            masking_type: kind,
            roles_exempt: vec![],
        };
        match masking.apply_masking(&data, &policy).unwrap() {
            MaskableData::Record(m) => {
                if kind == MaskingType::Nullify {
                    assert!(matches!(m.get("card"), Some(FieldValue::Null)));
                    assert!(matches!(m.get("age"), Some(FieldValue::Null)));
                } else {
                    assert!(matches!(m.get("card"), Some(FieldValue::Text(s)) if s == check));
                }
            }
            MaskableData::Value(_) => panic!("a record stays a record"),
        }
    }
}

#[test]
fn hash_masking_hashes_the_json_text() {
    let masking = DataMaskingEngine::new();
    let policy = MaskingPolicy {
        name: "h".to_string(),
        fields_to_mask: vec!["email".to_string()],
        masking_type: MaskingType::HashMask,
        roles_exempt: vec![],
    };
    let mut record = StringMap::new();
    record.insert("email".to_string(), FieldValue::Text("a@b.c".to_string()));
    let mut h = std::collections::hash_map::DefaultHasher::new();
    "\"a@b.c\"".hash(&mut h);
    let expected = format!("{:x}", h.finish());
    match masking.apply_masking(&MaskableData::Record(record), &policy).unwrap() {
        MaskableData::Record(m) => assert!(matches!(m.get("email"), Some(FieldValue::Text(s)) if *s == expected)),
        MaskableData::Value(_) => panic!("a record stays a record"),
    }
}

#[test]
fn audit_log_filters_and_denials() {
    let mut logger = AuditLogger::new().unwrap();
    let q1 = query("alice", StringMap::new(), SecurityAction::Select, "sales_orders", QueryType::Read);
    let q2 = query("bob", StringMap::new(), SecurityAction::Delete, "users", QueryType::Write);
    let filters = RLSFilters { where_clause: "1=1".to_string(), parameters: StringMap::new() };
    logger.log_access_granted(&q1, &filters).unwrap();
    logger.log_access_denied(&q2, "nope").unwrap();
    let by_resource = AuditQuery { user_id: None, action: None, resource: Some("orders".to_string()), start_time: None, end_time: None, limit: None };
    let found = logger.query_logs(&by_resource).unwrap();
    assert_eq!(found.len(), 1);
    assert_eq!(found[0].user_id, "alice");
    let by_action = AuditQuery { user_id: None, action: Some(SecurityAction::Delete), resource: None, start_time: None, end_time: None, limit: None };
    let found = logger.query_logs(&by_action).unwrap();
    assert_eq!(found.len(), 1);
    assert_eq!(found[0].event_type, AuditEventType::AccessDenied);
    assert_eq!(found[0].details.denial_reason, Some("nope".to_string()));
    assert_eq!(found[0].id.len(), 36);
}

#[test]
fn compliance_reports_per_framework() {
    let monitor = ComplianceMonitor::new();
    assert_eq!(monitor.audit_retention_days(), 2555);
    let hipaa = monitor.generate_report(ComplianceFramework::HIPAA).unwrap();
    assert_eq!(hipaa.compliance_score, 850);
    assert_eq!(hipaa.recommendations, vec!["Implement PHI data encryption".to_string(), "Add HIPAA access controls".to_string()]);
    let sox = monitor.generate_report(ComplianceFramework::SOX).unwrap();
    assert_eq!(sox.compliance_score, 900);
    assert_eq!(monitor.generate_report(ComplianceFramework::GDPR).unwrap().recommendations.len(), 3);
    assert!(matches!(monitor.generate_report(ComplianceFramework::PCI), Err(SecurityError::UnsupportedFramework)));
}

#[test]
fn security_manager_denies_and_logs() {
    let mut security = EnterpriseSecurityManager::new().unwrap();
    security.add_abac_policy(simple_policy("readers", vec![SecurityAction::Select])).unwrap();
    let q = query("mallory", StringMap::new(), SecurityAction::Delete, "accounts", QueryType::Write);
    let d = security.try_enforce_security(&q).unwrap().unwrap();
    assert!(!d.allowed);
    let all = AuditQuery { user_id: Some("mallory".to_string()), action: None, resource: None, start_time: None, end_time: None, limit: None };
    let logs = security.get_audit_logs(&all).unwrap();
    assert_eq!(logs.len(), 1);
    assert_eq!(logs[0].event_type, AuditEventType::AccessDenied);

    let ok = query("mallory", StringMap::new(), SecurityAction::Select, "accounts", QueryType::Read);
    let d = security.enforce_security(&ok).unwrap();
    assert!(d.allowed);
    assert_eq!(d.reason, "Access granted with RLS filters");
    assert_eq!(d.filters.unwrap().where_clause, "1=1");
}
