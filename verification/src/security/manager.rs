//! The enterprise security manager: access control, row-level filters and
//! auditing of each query, plus encryption, masking and compliance reports.

use vstd::prelude::*;
use crate::text::{owned, text_map};
use crate::security::{SecurityDecision, SecurityError, SecurityQuery};
use crate::security::rls::{RowLevelSecurityEngine, RLSPolicy, param_map, where_text};
use crate::security::abac::{
    ABACPolicy, AttributeBasedAccessControl, access_checkable, access_decision, first_allowing,
    policy_decision, plain_decision,
};
use crate::security::audit::{
    AuditEvent, AuditEventType, AuditLogger, AuditQuery, event_for_query, event_matches, logged, same_event,
};
use crate::security::encryption::{
    DataEncryptionEngine, EncryptionContext, PREFIX_LEN, announced_len, decrypted_form, encrypted_form, framed,
};
use crate::security::masking::{DataMaskingEngine, MaskableData, MaskingPolicy, masking_result};
use crate::security::compliance::{ComplianceFramework, ComplianceMonitor, ComplianceReport, has_report, report_of};

verus! {

/// Whether the policies let a query through: there are none, or one of them
/// allows it.
pub open spec fn access_allowed(ps: Seq<ABACPolicy>, q: SecurityQuery) -> bool {
    ps.len() == 0 || exists|i: int| first_allowing(ps, q, i)
}

/// An access decision allows exactly when the policies let the query
/// through.
pub proof fn lemma_decision_allowed(d: SecurityDecision, ps: Seq<ABACPolicy>, q: SecurityQuery)
    requires
        access_decision(d, ps, q),
    ensures
        d.allowed == access_allowed(ps, q),
{
    if ps.len() > 0 && exists|i: int| first_allowing(ps, q, i) {
        let i = choose|i: int| #[trigger] first_allowing(ps, q, i) && policy_decision(d, ps[i], q);
        assert(policy_decision(d, ps[i], q));
    }
}

/// The reason given when a query is let through.
pub open spec fn granted_reason() -> Seq<char> {
    "Access granted with RLS filters"@
}

/// The decision for a query let through: allowed, with the row-level
/// filters of the policies `ps` of its resource.
pub open spec fn granted_decision(d: SecurityDecision, ps: Seq<RLSPolicy>, q: SecurityQuery) -> bool {
    &&& d.allowed
    &&& d.masked_fields is None
    &&& d.reason@ == granted_reason()
    &&& d.filters matches Some(f) && f.where_clause@ == where_text(ps, q) && text_map(f.parameters@)
        == param_map(ps, q)
}

/// The event records the WHERE clause of the decision's filters.
pub open spec fn logged_filters(e: AuditEvent, d: SecurityDecision) -> bool {
    d.filters matches Some(f) && e.details.filters_applied == Some(f.where_clause)
}

/// The event records the reason of the decision.
pub open spec fn logged_reason(e: AuditEvent, d: SecurityDecision) -> bool {
    e.details.denial_reason matches Some(x) && x@ == d.reason@
}

/// Central security orchestration.
pub struct EnterpriseSecurityManager {
    rls_engine: RowLevelSecurityEngine,
    abac_engine: AttributeBasedAccessControl,
    audit_logger: AuditLogger,
    encryption_engine: DataEncryptionEngine,
    data_masking: DataMaskingEngine,
    compliance_monitor: ComplianceMonitor,
}

impl EnterpriseSecurityManager {
    /// The row-level security policies of a table.
    pub closed spec fn rls_policies(&self, table: Seq<char>) -> Seq<RLSPolicy> {
        self.rls_engine.policies_for(table)
    }

    /// The access control policies.
    pub closed spec fn abac_policies(&self) -> Seq<ABACPolicy> {
        self.abac_engine.policies()
    }

    /// The audit log, oldest first.
    pub closed spec fn audit_events(&self) -> Seq<AuditEvent> {
        self.audit_logger.events()
    }

    /// The encryption key.
    pub closed spec fn key(&self) -> Seq<u8> {
        self.encryption_engine.key()
    }

    /// The parts are in working order.
    pub closed spec fn wf(&self) -> bool {
        self.audit_logger.wf() && self.encryption_engine.wf()
    }

    /// A manager without policies, with an empty audit log and a fresh key.
    pub fn new() -> (r: Result<Self, SecurityError>)
        ensures
            r matches Ok(m) && m.wf() && m.abac_policies() == Seq::<ABACPolicy>::empty() && m.audit_events()
                == Seq::<AuditEvent>::empty() && forall|t: Seq<char>| #[trigger] m.rls_policies(t) == Seq::<
                RLSPolicy,
            >::empty(),
    {
        let audit_logger = match AuditLogger::new() {
            Ok(l) => l,
            Err(e) => return Err(e),
        };
        let rls_engine = RowLevelSecurityEngine::new();
        Ok(
            EnterpriseSecurityManager {
                rls_engine,
                abac_engine: AttributeBasedAccessControl::new(),
                audit_logger,
                encryption_engine: DataEncryptionEngine::new(),
                data_masking: DataMaskingEngine::new(),
                compliance_monitor: ComplianceMonitor::new(),
            },
        )
    }

    /// Adds a row-level security policy after the others of `table`.
    pub fn add_rls_policy(&mut self, table: &str, policy: RLSPolicy) -> (r: Result<(), SecurityError>)
        requires
            old(self).wf(),
        ensures
            r is Ok,
            final(self).wf(),
            final(self).rls_policies(table@) == old(self).rls_policies(table@).push(policy),
            forall|t: Seq<char>| t != table@ ==> #[trigger] final(self).rls_policies(t) == old(self).rls_policies(t),
            final(self).abac_policies() == old(self).abac_policies(),
            final(self).audit_events() == old(self).audit_events(),
            final(self).key() == old(self).key(),
    {
        self.rls_engine.add_policy(table, policy)
    }

    /// Adds an access control policy after the others.
    pub fn add_abac_policy(&mut self, policy: ABACPolicy) -> (r: Result<(), SecurityError>)
        requires
            old(self).wf(),
        ensures
            r is Ok,
            final(self).wf(),
            final(self).abac_policies() == old(self).abac_policies().push(policy),
            forall|t: Seq<char>| #[trigger] final(self).rls_policies(t) == old(self).rls_policies(t),
            final(self).audit_events() == old(self).audit_events(),
            final(self).key() == old(self).key(),
    {
        self.abac_engine.add_policy(policy)
    }

    /// Decides a query and logs the decision.  When the access control
    /// policies refuse it, their decision is returned and the refusal
    /// logged; otherwise the row-level filters of its resource are returned
    /// and the grant logged with them.
    pub fn enforce_security(&mut self, query: &SecurityQuery) -> (r: Result<SecurityDecision, SecurityError>)
        requires
            old(self).wf(),
            access_checkable(old(self).abac_policies(), *query),
        ensures
            final(self).wf(),
            final(self).abac_policies() == old(self).abac_policies(),
            forall|t: Seq<char>| #[trigger] final(self).rls_policies(t) == old(self).rls_policies(t),
            final(self).key() == old(self).key(),
            final(self).audit_events().len() >= 1,
            final(self).audit_events() == logged(old(self).audit_events(), final(self).audit_events().last()),
            !access_allowed(old(self).abac_policies(), *query) ==> (r matches Ok(d) && access_decision(
                d,
                old(self).abac_policies(),
                *query,
            ) && event_for_query(final(self).audit_events().last(), *query, AuditEventType::AccessDenied)
                && logged_reason(final(self).audit_events().last(), d)),
            access_allowed(old(self).abac_policies(), *query) ==> (r matches Ok(d) && granted_decision(
                d,
                old(self).rls_policies(query.resource@),
                *query,
            ) && event_for_query(final(self).audit_events().last(), *query, AuditEventType::AccessGranted)
                && logged_filters(final(self).audit_events().last(), d)),
    {
        let abac_decision = match self.abac_engine.evaluate_access(query) {
            Ok(d) => d,
            Err(e) => return Err(e),
        };
        proof {
            lemma_decision_allowed(abac_decision, self.abac_engine.policies(), *query);
        }
        if !abac_decision.allowed {
            let _ = self.audit_logger.log_access_denied(query, abac_decision.reason.as_str());
            return Ok(abac_decision);
        }
        let rls_filters = match self.rls_engine.generate_filters(query) {
            Ok(f) => f,
            Err(e) => return Err(e),
        };
        let _ = self.audit_logger.log_access_granted(query, &rls_filters);
        Ok(
            SecurityDecision {
                allowed: true,
                filters: Some(rls_filters.duplicate()),
                masked_fields: None,
                reason: owned("Access granted with RLS filters"),
            },
        )
    }

    /// `enforce_security`, or `None` (with nothing logged) when evaluating
    /// the access control policies would run an invalid pattern.
    pub fn try_enforce_security(&mut self, query: &SecurityQuery) -> (r: Option<Result<SecurityDecision, SecurityError>>)
        requires
            old(self).wf(),
        ensures
            final(self).wf(),
            r is None <==> !access_checkable(old(self).abac_policies(), *query),
            r is None ==> final(self).audit_events() == old(self).audit_events(),
            r is Some ==> final(self).audit_events() == logged(
                old(self).audit_events(),
                final(self).audit_events().last(),
            ),
    {
        if self.abac_engine.access_checkable_for(query) {
            Some(self.enforce_security(query))
        } else {
            None
        }
    }

    /// Encrypts data before storage.
    pub fn encrypt_data(&self, data: &[u8], context: &EncryptionContext) -> (r: Result<Vec<u8>, SecurityError>)
        requires
            self.wf(),
        ensures
            r matches Ok(e) && e@ == encrypted_form(data@, self.key()),
    {
        self.encryption_engine.encrypt(data, context)
    }

    /// Decrypts data after retrieval.
    pub fn decrypt_data(&self, encrypted_data: &[u8], context: &EncryptionContext) -> (r: Result<Vec<u8>, SecurityError>)
        requires
            self.wf(),
            framed(encrypted_data@) ==> PREFIX_LEN + announced_len(encrypted_data@) <= encrypted_data@.len(),
        ensures
            match r {
                Ok(d) => framed(encrypted_data@) && d@ == decrypted_form(encrypted_data@, self.key()),
                Err(e) => !framed(encrypted_data@) && e == SecurityError::InvalidEncryptedData,
            },
    {
        self.encryption_engine.decrypt(encrypted_data, context)
    }

    /// Masks sensitive data for display.
    pub fn mask_data(&self, data: &MaskableData, policy: &MaskingPolicy) -> (r: Result<MaskableData, SecurityError>)
        ensures
            r matches Ok(out) && masking_result(out, *data, *policy),
    {
        self.data_masking.apply_masking(data, policy)
    }

    /// The compliance report of a framework.
    pub fn generate_compliance_report(&self, framework: ComplianceFramework) -> (r: Result<
        ComplianceReport,
        SecurityError,
    >)
        ensures
            has_report(framework) ==> (r matches Ok(rep) && report_of(rep, framework)),
            !has_report(framework) ==> r == Err::<ComplianceReport, SecurityError>(SecurityError::UnsupportedFramework),
    {
        self.compliance_monitor.generate_report(framework)
    }

    /// Copies of the audit events that match `query`, oldest first.
    pub fn get_audit_logs(&self, query: &AuditQuery) -> (r: Result<Vec<AuditEvent>, SecurityError>)
        ensures
            r matches Ok(v) && v@.len() == self.audit_events().filter(|e: AuditEvent| event_matches(e, *query)).len()
                && forall|i: int|
                0 <= i < v@.len() ==> same_event(
                    #[trigger] v@[i],
                    self.audit_events().filter(|e: AuditEvent| event_matches(e, *query))[i],
                ),
    {
        self.audit_logger.query_logs(query)
    }
}

} // verus!
