//! Audit logging: a bounded log of security events, oldest first, and
//! queries over it.

use vstd::prelude::*;
use std::collections::VecDeque;
use crate::ambient::{new_uuid_text, utc_now_seconds};
use crate::text::{StringMap, contains_seq, copy_opt_string, str_equal, text_contains};
use crate::security::{RLSFilters, SecurityAction, SecurityError, SecurityQuery};

verus! {

/// The number of events the log keeps; the oldest goes first when it is full.
pub const AUDIT_CAPACITY: usize = 100000;

/// Kinds of audit events.
#[derive(Debug, Clone, Copy, PartialEq, Eq, Structural)]
pub enum AuditEventType {
    AccessGranted,
    AccessDenied,
    DataModified,
    PolicyChanged,
    SecurityAlert,
}

/// What an audit event records besides who did what: the filters applied
/// (access granted) or the reason for a refusal (access denied), and the
/// attributes of the user and of the resource.
#[derive(Debug)]
pub struct AuditDetails {
    pub filters_applied: Option<String>,
    pub denial_reason: Option<String>,
    pub user_attributes: StringMap<String>,
    pub resource_attributes: StringMap<String>,
}

/// An audit event.
#[derive(Debug)]
pub struct AuditEvent {
    pub id: String,
    /// When the event was logged, in seconds since the Unix epoch (UTC).
    pub timestamp: i64,
    pub event_type: AuditEventType,
    pub user_id: String,
    pub action: SecurityAction,
    pub resource: String,
    pub details: AuditDetails,
    pub ip_address: Option<String>,
    pub user_agent: Option<String>,
}

/// A query over the audit log; each field that is set must match.  The
/// limit is carried along and not applied.
#[derive(Debug)]
pub struct AuditQuery {
    pub user_id: Option<String>,
    pub action: Option<SecurityAction>,
    /// Matches events whose resource contains this text.
    pub resource: Option<String>,
    pub start_time: Option<i64>,
    pub end_time: Option<i64>,
    pub limit: Option<usize>,
}

/// Two detail records hold the same values.
pub open spec fn same_details(a: AuditDetails, b: AuditDetails) -> bool {
    &&& a.filters_applied == b.filters_applied
    &&& a.denial_reason == b.denial_reason
    &&& a.user_attributes.entry_seq() == b.user_attributes.entry_seq()
    &&& a.resource_attributes.entry_seq() == b.resource_attributes.entry_seq()
}

/// Two events hold the same values.
pub open spec fn same_event(a: AuditEvent, b: AuditEvent) -> bool {
    &&& a.id == b.id
    &&& a.timestamp == b.timestamp
    &&& a.event_type == b.event_type
    &&& a.user_id == b.user_id
    &&& a.action == b.action
    &&& a.resource == b.resource
    &&& same_details(a.details, b.details)
    &&& a.ip_address == b.ip_address
    &&& a.user_agent == b.user_agent
}

/// Whether an event matches every filter that the query sets.
pub open spec fn event_matches(e: AuditEvent, q: AuditQuery) -> bool {
    &&& (q.user_id matches Some(u) ==> e.user_id@ == u@)
    &&& (q.action matches Some(a) ==> e.action == a)
    &&& (q.resource matches Some(r) ==> contains_seq(e.resource@, r@))
    &&& (q.start_time matches Some(s) ==> s <= e.timestamp)
    &&& (q.end_time matches Some(t) ==> e.timestamp <= t)
}

/// The log after logging `e`: the oldest event goes first when the log is
/// full.
pub open spec fn logged(events: Seq<AuditEvent>, e: AuditEvent) -> Seq<AuditEvent> {
    if events.len() >= AUDIT_CAPACITY {
        events.drop_first().push(e)
    } else {
        events.push(e)
    }
}

/// The event logged for a query: fresh id, no address or agent, and the
/// query's user, action, resource and attributes.
pub open spec fn event_for_query(e: AuditEvent, q: SecurityQuery, t: AuditEventType) -> bool {
    &&& e.id@.len() == 36
    &&& e.event_type == t
    &&& e.user_id@ == q.user_id@
    &&& e.action == q.action
    &&& e.resource@ == q.resource@
    &&& e.details.user_attributes.entry_seq() == q.user_attributes.entry_seq()
    &&& e.details.resource_attributes.entry_seq() == q.resource_attributes.entry_seq()
    &&& e.ip_address is None
    &&& e.user_agent is None
}

impl AuditDetails {
    /// A copy of the details.
    pub fn duplicate(&self) -> (r: Self)
        ensures
            same_details(r, *self),
    {
        AuditDetails {
            filters_applied: copy_opt_string(&self.filters_applied),
            denial_reason: copy_opt_string(&self.denial_reason),
            user_attributes: self.user_attributes.duplicate(),
            resource_attributes: self.resource_attributes.duplicate(),
        }
    }
}

impl AuditEvent {
    /// A copy of the event.
    pub fn duplicate(&self) -> (r: Self)
        ensures
            same_event(r, *self),
    {
        AuditEvent {
            id: self.id.clone(),
            timestamp: self.timestamp,
            event_type: self.event_type,
            user_id: self.user_id.clone(),
            action: self.action,
            resource: self.resource.clone(),
            details: self.details.duplicate(),
            ip_address: copy_opt_string(&self.ip_address),
            user_agent: copy_opt_string(&self.user_agent),
        }
    }
}

/// A bounded audit log, oldest event first.
pub struct AuditLogger {
    events: VecDeque<AuditEvent>,
}

impl AuditLogger {
    /// The events, oldest first.
    pub closed spec fn events(&self) -> Seq<AuditEvent> {
        self.events@
    }

    /// The log never holds more than `AUDIT_CAPACITY` events.
    pub closed spec fn wf(&self) -> bool {
        self.events@.len() <= AUDIT_CAPACITY
    }

    /// An empty log.
    pub fn new() -> (r: Result<Self, SecurityError>)
        ensures
            r matches Ok(l) && l.wf() && l.events() == Seq::<AuditEvent>::empty(),
    {
        Ok(AuditLogger { events: VecDeque::new() })
    }

    /// The number of events in the log.
    pub fn len(&self) -> (r: usize)
        ensures
            r == self.events().len(),
    {
        self.events.len()
    }

    /// Logs that `query` was granted with `filters`.
    pub fn log_access_granted(&mut self, query: &SecurityQuery, filters: &RLSFilters) -> (r: Result<(), SecurityError>)
        requires
            old(self).wf(),
        ensures
            r is Ok,
            final(self).wf(),
            final(self).events().len() >= 1,
            final(self).events() == logged(old(self).events(), final(self).events().last()),
            event_for_query(final(self).events().last(), *query, AuditEventType::AccessGranted),
            final(self).events().last().details.filters_applied == Some(filters.where_clause),
            final(self).events().last().details.denial_reason is None,
    {
        let event = AuditEvent {
            id: new_uuid_text(),
            timestamp: utc_now_seconds(),
            event_type: AuditEventType::AccessGranted,
            user_id: query.user_id.clone(),
            action: query.action,
            resource: query.resource.clone(),
            details: AuditDetails {
                filters_applied: Some(filters.where_clause.clone()),
                denial_reason: None,
                user_attributes: query.user_attributes.duplicate(),
                resource_attributes: query.resource_attributes.duplicate(),
            },
            ip_address: None,
            user_agent: None,
        };
        self.log_event(event)
    }

    /// Logs that `query` was refused for `reason`.
    pub fn log_access_denied(&mut self, query: &SecurityQuery, reason: &str) -> (r: Result<(), SecurityError>)
        requires
            old(self).wf(),
        ensures
            r is Ok,
            final(self).wf(),
            final(self).events().len() >= 1,
            final(self).events() == logged(old(self).events(), final(self).events().last()),
            event_for_query(final(self).events().last(), *query, AuditEventType::AccessDenied),
            final(self).events().last().details.filters_applied is None,
            final(self).events().last().details.denial_reason matches Some(d) && d@ == reason@,
    {
        let event = AuditEvent {
            id: new_uuid_text(),
            timestamp: utc_now_seconds(),
            event_type: AuditEventType::AccessDenied,
            user_id: query.user_id.clone(),
            action: query.action,
            resource: query.resource.clone(),
            details: AuditDetails {
                filters_applied: None,
                denial_reason: Some(reason.to_string()),
                user_attributes: query.user_attributes.duplicate(),
                resource_attributes: query.resource_attributes.duplicate(),
            },
            ip_address: None,
            user_agent: None,
        };
        self.log_event(event)
    }

    /// Copies of the events that match `query`, oldest first.
    pub fn query_logs(&self, query: &AuditQuery) -> (r: Result<Vec<AuditEvent>, SecurityError>)
        ensures
            r matches Ok(v) && v@.len() == self.events().filter(|e: AuditEvent| event_matches(e, *query)).len()
                && forall|i: int|
                0 <= i < v@.len() ==> same_event(
                    #[trigger] v@[i],
                    self.events().filter(|e: AuditEvent| event_matches(e, *query))[i],
                ),
    {
        let ghost pred = |e: AuditEvent| event_matches(e, *query);
        let mut out: Vec<AuditEvent> = Vec::new();
        let n = self.events.len();
        let mut i: usize = 0;
        proof {
            reveal(Seq::filter);
            assert(self.events@.subrange(0, 0).filter(pred) =~= Seq::<AuditEvent>::empty());
        }
        while i < n
            invariant
                i <= n,
                n == self.events@.len(),
                pred == (|e: AuditEvent| event_matches(e, *query)),
                out@.len() == self.events@.subrange(0, i as int).filter(pred).len(),
                forall|j: int|
                    0 <= j < out@.len() ==> same_event(
                        #[trigger] out@[j],
                        self.events@.subrange(0, i as int).filter(pred)[j],
                    ),
            decreases n - i,
        {
            let e = &self.events[i];
            let ghost pre = self.events@.subrange(0, i as int);
            let ghost next = self.events@.subrange(0, i + 1);
            proof {
                assert(next.drop_last() =~= pre);
                assert(next.last() == *e);
                reveal(Seq::filter);
            }
            if matches_query(e, query) {
                let copy = e.duplicate();
                out.push(copy);
                assert(next.filter(pred) == pre.filter(pred).push(*e));
            } else {
                assert(next.filter(pred) == pre.filter(pred));
            }
            i = i + 1;
        }
        assert(self.events@.subrange(0, n as int) =~= self.events@);
        Ok(out)
    }

    /// Appends an event, dropping the oldest when the log is full.
    fn log_event(&mut self, event: AuditEvent) -> (r: Result<(), SecurityError>)
        requires
            old(self).wf(),
        ensures
            r is Ok,
            final(self).wf(),
            final(self).events() == logged(old(self).events(), event),
    {
        if self.events.len() >= AUDIT_CAPACITY {
            let _ = self.events.pop_front();
        }
        self.events.push_back(event);
        Ok(())
    }
}

/// Whether an event matches every filter that the query sets.
fn matches_query(e: &AuditEvent, q: &AuditQuery) -> (r: bool)
    ensures
        r == event_matches(*e, *q),
{
    if let Some(u) = &q.user_id {
        if !str_equal(e.user_id.as_str(), u.as_str()) {
            return false;
        }
    }
    if let Some(a) = &q.action {
        if e.action != *a {
            return false;
        }
    }
    if let Some(res) = &q.resource {
        if !text_contains(e.resource.as_str(), res.as_str()) {
            return false;
        }
    }
    if let Some(s) = q.start_time {
        if e.timestamp < s {
            return false;
        }
    }
    if let Some(t) = q.end_time {
        if e.timestamp > t {
            return false;
        }
    }
    true
}

} // verus!
