//! Attribute-based access control: policies over the attributes of the user
//! and of the resource, the action, and the time of the query.

use vstd::prelude::*;
use crate::ambient::{regex_match, regex_outcome};
use crate::text::{StringMap, contains_text, copy_opt_strings, owned, push_text, same_strings, str_equal, strings_contain};
use crate::security::{SecurityAction, SecurityDecision, SecurityError, SecurityQuery};

verus! {

/// What an attribute's value must be.
#[derive(Debug)]
pub enum AttributeRequirement {
    Equals(String),
    In(Vec<String>),
    /// The value must match this regular expression somewhere.
    Regex(String),
}

/// A time window, in seconds since the Unix epoch, both ends included.
#[derive(Debug)]
pub struct TimeWindow {
    pub start_time: i64,
    pub end_time: i64,
}

/// Trust levels of a device.
#[derive(Debug, Clone, Copy, PartialEq, Eq, Structural)]
pub enum TrustLevel {
    High,
    Medium,
    Low,
}

/// Conditions on the environment of a query.  Only the time window is
/// checked; the address list and the device trust are carried along.
#[derive(Debug)]
pub struct EnvironmentConditions {
    pub time_window: Option<TimeWindow>,
    pub ip_whitelist: Option<Vec<String>>,
    pub device_trust: Option<TrustLevel>,
}

/// An attribute-based access control policy.
#[derive(Debug)]
pub struct ABACPolicy {
    pub name: String,
    pub subject_requirements: Option<StringMap<AttributeRequirement>>,
    pub resource_requirements: Option<StringMap<AttributeRequirement>>,
    pub allowed_actions: Vec<SecurityAction>,
    pub environment_conditions: Option<EnvironmentConditions>,
    pub masked_fields: Option<Vec<String>>,
}

/// Whether the value `v` meets a requirement.
pub open spec fn requirement_met(req: AttributeRequirement, v: Seq<char>) -> bool {
    match req {
        AttributeRequirement::Equals(x) => v == x@,
        AttributeRequirement::In(xs) => contains_text(xs@, v),
        AttributeRequirement::Regex(p) => regex_outcome(p@, v) == Some(true),
    }
}

/// Every required attribute is present and meets its requirement.
pub open spec fn attributes_satisfied(
    actual: Map<Seq<char>, String>,
    required: Map<Seq<char>, AttributeRequirement>,
) -> bool {
    forall|k: Seq<char>|
        #[trigger] required.contains_key(k) ==> actual.contains_key(k) && requirement_met(required[k], actual[k]@)
}

/// Whether the pattern of a requirement, matched against the attribute `k`
/// when present, is a valid regular expression.
pub open spec fn pattern_ok(actual: Map<Seq<char>, String>, req: AttributeRequirement, k: Seq<char>) -> bool {
    actual.contains_key(k) ==> match req {
        AttributeRequirement::Regex(p) => regex_outcome(p@, actual[k]@) is Some,
        _ => true,
    }
}

/// Every pattern that would be matched against a present attribute is a
/// valid regular expression.
pub open spec fn patterns_valid(
    actual: Map<Seq<char>, String>,
    required: Map<Seq<char>, AttributeRequirement>,
) -> bool {
    forall|k: Seq<char>| #[trigger] required.contains_key(k) ==> pattern_ok(actual, required[k], k)
}

/// Whether the optional requirements hold of the attributes.
pub open spec fn requirements_pass(
    actual: Map<Seq<char>, String>,
    required: Option<StringMap<AttributeRequirement>>,
) -> bool {
    match required {
        Some(r) => attributes_satisfied(actual, r@),
        None => true,
    }
}

/// Whether the optional requirements can be checked against the attributes.
pub open spec fn requirements_checkable(
    actual: Map<Seq<char>, String>,
    required: Option<StringMap<AttributeRequirement>>,
) -> bool {
    match required {
        Some(r) => patterns_valid(actual, r@),
        None => true,
    }
}

/// Whether the environment conditions hold at the time of the query.
pub open spec fn environment_ok(env: Option<EnvironmentConditions>, q: SecurityQuery) -> bool {
    match env {
        Some(e) => match e.time_window {
            Some(w) => w.start_time <= q.timestamp && q.timestamp <= w.end_time,
            None => true,
        },
        None => true,
    }
}

/// Why a policy refuses a query, or `None` when it allows it.  The checks
/// come in this order: subject attributes, resource attributes, action,
/// environment.
pub open spec fn policy_denial(p: ABACPolicy, q: SecurityQuery) -> Option<Seq<char>> {
    if !requirements_pass(q.user_attributes@, p.subject_requirements) {
        Some("Subject requirements not met"@)
    } else if !requirements_pass(q.resource_attributes@, p.resource_requirements) {
        Some("Resource requirements not met"@)
    } else if !p.allowed_actions@.contains(q.action) {
        Some("Action not allowed"@)
    } else if !environment_ok(p.environment_conditions, q) {
        Some("Environment conditions not met"@)
    } else {
        None
    }
}

/// Whether evaluating a policy against a query runs only valid patterns:
/// the subject's, and the resource's once the subject passes.
pub open spec fn policy_checkable(p: ABACPolicy, q: SecurityQuery) -> bool {
    &&& requirements_checkable(q.user_attributes@, p.subject_requirements)
    &&& requirements_pass(q.user_attributes@, p.subject_requirements) ==> requirements_checkable(
        q.resource_attributes@,
        p.resource_requirements,
    )
}

/// Whether evaluating the policies in order, up to the first that allows,
/// runs only valid patterns.
pub open spec fn access_checkable(ps: Seq<ABACPolicy>, q: SecurityQuery) -> bool {
    forall|i: int|
        0 <= i < ps.len() && (forall|j: int| 0 <= j < i ==> #[trigger] policy_denial(ps[j], q) is Some)
            ==> #[trigger] policy_checkable(ps[i], q)
}

/// The reason given when policy `name` allows a query.
pub open spec fn allow_reason(name: Seq<char>) -> Seq<char> {
    "ABAC policy '"@ + name + "' allows access"@
}

/// A decision without filters or masked fields.
pub open spec fn plain_decision(d: SecurityDecision, allowed: bool, reason: Seq<char>) -> bool {
    d.allowed == allowed && d.filters is None && d.masked_fields is None && d.reason@ == reason
}

/// The decision of policy `p` on query `q`.
pub open spec fn policy_decision(d: SecurityDecision, p: ABACPolicy, q: SecurityQuery) -> bool {
    match policy_denial(p, q) {
        Some(reason) => plain_decision(d, false, reason),
        None => d.allowed && d.filters is None && same_strings(d.masked_fields, p.masked_fields)
            && d.reason@ == allow_reason(p.name@),
    }
}

/// The index of the first policy that allows the query, if any.
pub open spec fn first_allowing(ps: Seq<ABACPolicy>, q: SecurityQuery, i: int) -> bool {
    &&& 0 <= i < ps.len()
    &&& policy_denial(ps[i], q) is None
    &&& forall|j: int| 0 <= j < i ==> #[trigger] policy_denial(ps[j], q) is Some
}

/// The reason given when no policy is configured.
pub open spec fn no_policies_reason() -> Seq<char> {
    "No ABAC policies configured"@
}

/// The reason given when policies exist and none allows the query.
pub open spec fn no_policy_allows_reason() -> Seq<char> {
    "No ABAC policy allows this access"@
}

/// The access decision over a list of policies: allowed when there are no
/// policies; otherwise the decision of the first policy that allows, or a
/// refusal when none does.
pub open spec fn access_decision(d: SecurityDecision, ps: Seq<ABACPolicy>, q: SecurityQuery) -> bool {
    if ps.len() == 0 {
        plain_decision(d, true, no_policies_reason())
    } else if exists|i: int| first_allowing(ps, q, i) {
        exists|i: int| #[trigger] first_allowing(ps, q, i) && policy_decision(d, ps[i], q)
    } else {
        plain_decision(d, false, no_policy_allows_reason())
    }
}

/// Attribute-based access control over a list of policies, evaluated in the
/// order they were added.
pub struct AttributeBasedAccessControl {
    policies: Vec<ABACPolicy>,
}

impl AttributeBasedAccessControl {
    /// The policies, in the order they were added.
    pub closed spec fn policies(&self) -> Seq<ABACPolicy> {
        self.policies@
    }

    /// An engine without policies.
    pub fn new() -> (r: Self)
        ensures
            r.policies() == Seq::<ABACPolicy>::empty(),
    {
        AttributeBasedAccessControl { policies: Vec::new() }
    }

    /// Adds a policy after the others.
    pub fn add_policy(&mut self, policy: ABACPolicy) -> (r: Result<(), SecurityError>)
        ensures
            r is Ok,
            final(self).policies() == old(self).policies().push(policy),
    {
        self.policies.push(policy);
        Ok(())
    }

    /// The number of policies.
    pub fn policy_count(&self) -> (r: usize)
        ensures
            r == self.policies().len(),
    {
        self.policies.len()
    }

    /// The access decision for `query` (see `access_decision`).
    pub fn evaluate_access(&self, query: &SecurityQuery) -> (r: Result<SecurityDecision, SecurityError>)
        requires
            access_checkable(self.policies(), *query),
        ensures
            r matches Ok(d) && access_decision(d, self.policies(), *query),
    {
        let n = self.policies.len();
        if n == 0 {
            return Ok(
                SecurityDecision {
                    allowed: true,
                    filters: None,
                    masked_fields: None,
                    reason: owned("No ABAC policies configured"),
                },
            );
        }
        let mut i: usize = 0;
        while i < n
            invariant
                i <= n,
                n == self.policies@.len(),
                access_checkable(self.policies@, *query),
                forall|j: int| 0 <= j < i ==> #[trigger] policy_denial(self.policies@[j], *query) is Some,
            decreases n - i,
        {
            assert(policy_checkable(self.policies@[i as int], *query));
            let decision = self.evaluate_policy(&self.policies[i], query);
            if decision.allowed {
                assert(first_allowing(self.policies@, *query, i as int));
                return Ok(decision);
            }
            i = i + 1;
        }
        assert(!exists|i: int| first_allowing(self.policies@, *query, i));
        Ok(
            SecurityDecision {
                allowed: false,
                filters: None,
                masked_fields: None,
                reason: owned("No ABAC policy allows this access"),
            },
        )
    }

    /// Whether evaluating `query` against the policies runs only valid
    /// patterns; when it does, `evaluate_access` may be called.
    pub fn access_checkable_for(&self, query: &SecurityQuery) -> (r: bool)
        ensures
            r == access_checkable(self.policies(), *query),
    {
        let n = self.policies.len();
        let mut i: usize = 0;
        while i < n
            invariant
                i <= n,
                n == self.policies@.len(),
                forall|j: int| 0 <= j < i ==> #[trigger] policy_denial(self.policies@[j], *query) is Some,
                forall|j: int| 0 <= j < i ==> #[trigger] policy_checkable(self.policies@[j], *query),
            decreases n - i,
        {
            let policy = &self.policies[i];
            let subject_ok = match &policy.subject_requirements {
                Some(req) => patterns_compile(&query.user_attributes, req),
                None => true,
            };
            if !subject_ok {
                assert(!policy_checkable(self.policies@[i as int], *query));
                return false;
            }
            let subject_pass = match &policy.subject_requirements {
                Some(req) => check_attributes(&query.user_attributes, req),
                None => true,
            };
            if subject_pass {
                let resource_ok = match &policy.resource_requirements {
                    Some(req) => patterns_compile(&query.resource_attributes, req),
                    None => true,
                };
                if !resource_ok {
                    assert(!policy_checkable(self.policies@[i as int], *query));
                    return false;
                }
            }
            let decision = self.evaluate_policy(policy, query);
            if decision.allowed {
                assert forall|k: int|
                    0 <= k < self.policies@.len() && (forall|j: int|
                        0 <= j < k ==> #[trigger] policy_denial(self.policies@[j], *query) is Some) implies #[trigger] policy_checkable(
                    self.policies@[k],
                    *query,
                ) by {
                    if k > i {
                        assert(policy_denial(self.policies@[i as int], *query) is Some);
                    }
                }
                return true;
            }
            i = i + 1;
        }
        true
    }

    /// The access decision for `query`, or `None` when evaluating it would
    /// run an invalid pattern.
    pub fn try_evaluate_access(&self, query: &SecurityQuery) -> (r: Option<SecurityDecision>)
        ensures
            match r {
                Some(d) => access_checkable(self.policies(), *query) && access_decision(
                    d,
                    self.policies(),
                    *query,
                ),
                None => !access_checkable(self.policies(), *query),
            },
    {
        if self.access_checkable_for(query) {
            match self.evaluate_access(query) {
                Ok(d) => Some(d),
                Err(_) => None,
            }
        } else {
            None
        }
    }

    /// The decision of one policy on `query`.
    pub fn evaluate_policy(&self, policy: &ABACPolicy, query: &SecurityQuery) -> (r: SecurityDecision)
        requires
            policy_checkable(*policy, *query),
        ensures
            policy_decision(r, *policy, *query),
    {
        if let Some(req) = &policy.subject_requirements {
            if !check_attributes(&query.user_attributes, req) {
                return deny("Subject requirements not met");
            }
        }
        if let Some(req) = &policy.resource_requirements {
            if !check_attributes(&query.resource_attributes, req) {
                return deny("Resource requirements not met");
            }
        }
        if !actions_contain(&policy.allowed_actions, query.action) {
            return deny("Action not allowed");
        }
        if let Some(env) = &policy.environment_conditions {
            if !check_environment_conditions(env, query) {
                return deny("Environment conditions not met");
            }
        }
        let mut reason = String::new();
        push_text(&mut reason, "ABAC policy '");
        push_text(&mut reason, policy.name.as_str());
        push_text(&mut reason, "' allows access");
        SecurityDecision {
            allowed: true,
            filters: None,
            masked_fields: copy_opt_strings(&policy.masked_fields),
            reason,
        }
    }
}

/// A refusal with the given reason.
fn deny(reason: &str) -> (r: SecurityDecision)
    ensures
        plain_decision(r, false, reason@),
{
    SecurityDecision { allowed: false, filters: None, masked_fields: None, reason: owned(reason) }
}

/// Whether `action` is among `actions`.
fn actions_contain(actions: &Vec<SecurityAction>, action: SecurityAction) -> (r: bool)
    ensures
        r == actions@.contains(action),
{
    let mut i: usize = 0;
    while i < actions.len()
        invariant
            i <= actions.len(),
            forall|j: int| 0 <= j < i ==> actions@[j] != action,
        decreases actions.len() - i,
    {
        if actions[i] == action {
            return true;
        }
        i = i + 1;
    }
    false
}

/// Whether the environment conditions hold at the time of the query.
pub fn check_environment_conditions(conditions: &EnvironmentConditions, query: &SecurityQuery) -> (r: bool)
    ensures
        r == environment_ok(Some(*conditions), *query),
{
    match &conditions.time_window {
        Some(w) => w.start_time <= query.timestamp && query.timestamp <= w.end_time,
        None => true,
    }
}

/// Whether every required attribute is present in `actual` and meets its
/// requirement.
pub fn check_attributes(actual: &StringMap<String>, required: &StringMap<AttributeRequirement>) -> (r: bool)
    requires
        patterns_valid(actual@, required@),
    ensures
        r == attributes_satisfied(actual@, required@),
{
    let n = required.len();
    let mut i: usize = 0;
    while i < n
        invariant
            i <= n,
            n == required.entry_seq().len(),
            patterns_valid(actual@, required@),
            forall|j: int|
                0 <= j < i ==> actual@.contains_key(#[trigger] required.entry_seq()[j].0@) && requirement_met(
                    required@[required.entry_seq()[j].0@],
                    actual@[required.entry_seq()[j].0@]@,
                ),
        decreases n - i,
    {
        let (key, req) = required.entry_at(i);
        match actual.get(key.as_str()) {
            None => {
                assert(required@.contains_key(key@));
                return false;
            },
            Some(v) => {
                let met = match req {
                    AttributeRequirement::Equals(x) => str_equal(v.as_str(), x.as_str()),
                    AttributeRequirement::In(xs) => strings_contain(xs, v.as_str()),
                    AttributeRequirement::Regex(p) => match regex_match(p.as_str(), v.as_str()) {
                        Some(b) => b,
                        None => {
                            assert(required@.contains_key(key@) && actual@.contains_key(key@));
                            false
                        },
                    },
                };
                if !met {
                    assert(required@.contains_key(key@));
                    return false;
                }
            },
        }
        i = i + 1;
    }
    proof {
        required.lemma_view();
        assert forall|k: Seq<char>| #[trigger] required@.contains_key(k) implies actual@.contains_key(k)
            && requirement_met(required@[k], actual@[k]@) by {
            let j = choose|j: int| 0 <= j < required.entry_seq().len() && #[trigger] required.entry_seq()[j].0@ == k;
            assert(required.entry_seq()[j].0@ == k);
        }
    }
    true
}

/// Whether every pattern that would be matched against a present attribute
/// is a valid regular expression.
pub fn patterns_compile(actual: &StringMap<String>, required: &StringMap<AttributeRequirement>) -> (r: bool)
    ensures
        r == patterns_valid(actual@, required@),
{
    let n = required.len();
    let mut i: usize = 0;
    while i < n
        invariant
            i <= n,
            n == required.entry_seq().len(),
            forall|j: int|
                0 <= j < i ==> pattern_ok(
                    actual@,
                    required@[#[trigger] required.entry_seq()[j].0@],
                    required.entry_seq()[j].0@,
                ),
        decreases n - i,
    {
        let (key, req) = required.entry_at(i);
        if let AttributeRequirement::Regex(p) = req {
            if let Some(v) = actual.get(key.as_str()) {
                if regex_match(p.as_str(), v.as_str()).is_none() {
                    assert(required@.contains_key(key@) && !pattern_ok(actual@, required@[key@], key@));
                    return false;
                }
            }
        }
        i = i + 1;
    }
    proof {
        required.lemma_view();
        assert forall|k: Seq<char>| #[trigger] required@.contains_key(k) implies pattern_ok(
            actual@,
            required@[k],
            k,
        ) by {
            let j = choose|j: int| 0 <= j < required.entry_seq().len() && #[trigger] required.entry_seq()[j].0@ == k;
            assert(required.entry_seq()[j].0@ == k);
        }
    }
    true
}


proof fn lemma_first_allowing_exists(ps: Seq<ABACPolicy>, q: SecurityQuery, k: int)
    requires
        0 <= k < ps.len(),
        policy_denial(ps[k], q) is None,
    ensures
        exists|i: int| first_allowing(ps, q, i),
    decreases k,
{
    if exists|j: int| 0 <= j < k && #[trigger] policy_denial(ps[j], q) is None {
        let j = choose|j: int| 0 <= j < k && #[trigger] policy_denial(ps[j], q) is None;
        lemma_first_allowing_exists(ps, q, j);
    } else {
        assert(first_allowing(ps, q, k));
    }
}

/// With at least one policy, access is allowed exactly when some policy's
/// subject and resource requirements, action and environment all pass; the
/// masked fields are then those of the first such policy.
pub proof fn law_access_allowed_iff_some_policy_allows(d: SecurityDecision, ps: Seq<ABACPolicy>, q: SecurityQuery)
    requires
        ps.len() > 0,
        access_decision(d, ps, q),
    ensures
        d.allowed <==> exists|i: int| 0 <= i < ps.len() && #[trigger] policy_denial(ps[i], q) is None,
        d.allowed ==> exists|i: int| #[trigger] first_allowing(ps, q, i) && same_strings(d.masked_fields, ps[i].masked_fields),
{
    if exists|i: int| 0 <= i < ps.len() && #[trigger] policy_denial(ps[i], q) is None {
        let k = choose|i: int| 0 <= i < ps.len() && #[trigger] policy_denial(ps[i], q) is None;
        lemma_first_allowing_exists(ps, q, k);
    }
}

} // verus!
