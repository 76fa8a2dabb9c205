//! Row-level security: per-table policies that add WHERE conditions to the
//! queries they apply to.

use vstd::prelude::*;
use crate::text::{
    StringMap, decimal, join, owned, push_decimal, push_signed_decimal, push_text, signed_decimal,
    str_equal, text_map, views, join_strings,
};
use crate::security::{RLSFilters, SecurityError, SecurityQuery};

verus! {

/// When a row-level security policy applies.
#[derive(Debug)]
pub enum RLSCondition {
    /// The user has attribute `attribute` with value `value`.
    UserAttribute { attribute: String, value: String },
    /// The user's `role` attribute is `role`.
    UserRole { role: String },
    /// The query was made between the two times (seconds, inclusive).
    TimeBased { start_time: i64, end_time: i64 },
    /// A named custom function; only `always_true` applies.
    Custom { function_name: String },
}

/// A row-level security policy.
#[derive(Debug)]
pub struct RLSPolicy {
    pub name: String,
    pub condition: RLSCondition,
    pub filter_expression: String,
}

/// The SQL condition that a policy condition adds, given the name of its
/// parameter.
pub open spec fn condition_text(c: RLSCondition, param_prefix: Seq<char>) -> Seq<char> {
    match c {
        RLSCondition::UserAttribute { attribute, value } => attribute@ + " = "@ + value@,
        RLSCondition::UserRole { role } => "user_role = '"@ + role@ + "'"@,
        RLSCondition::TimeBased { start_time, end_time } => "created_at BETWEEN "@ + signed_decimal(
            start_time as int,
        ) + " AND "@ + signed_decimal(end_time as int),
        RLSCondition::Custom { function_name } => function_name@ + "("@ + param_prefix + ")"@,
    }
}

/// Whether a policy applies to a query.
pub open spec fn policy_applies(p: RLSPolicy, q: SecurityQuery) -> bool {
    match p.condition {
        RLSCondition::UserAttribute { attribute, value } => q.user_attributes@.contains_key(attribute@)
            && q.user_attributes@[attribute@]@ == value@,
        RLSCondition::UserRole { role } => q.user_attributes@.contains_key("role"@)
            && q.user_attributes@["role"@]@ == role@,
        RLSCondition::TimeBased { start_time, end_time } => start_time <= q.timestamp && q.timestamp
            <= end_time,
        RLSCondition::Custom { function_name } => function_name@ == "always_true"@,
    }
}

/// The parameter name of the policy at position `i`: `rls_param_{i}`.
pub open spec fn param_name(i: nat) -> Seq<char> {
    "rls_param_"@ + decimal(i)
}

/// The conditions of the policies that apply, in policy order.
pub open spec fn applied_conditions(ps: Seq<RLSPolicy>, q: SecurityQuery) -> Seq<Seq<char>>
    decreases ps.len(),
{
    if ps.len() == 0 {
        Seq::empty()
    } else {
        let prev = applied_conditions(ps.drop_last(), q);
        if policy_applies(ps.last(), q) {
            prev.push(condition_text(ps.last().condition, param_name((ps.len() - 1) as nat)))
        } else {
            prev
        }
    }
}

/// The WHERE clause for a list of policies: their applied conditions joined
/// with ` AND `, or `1=1` (every row) when none applies.
pub open spec fn where_text(ps: Seq<RLSPolicy>, q: SecurityQuery) -> Seq<char> {
    if applied_conditions(ps, q).len() == 0 {
        "1=1"@
    } else {
        join(applied_conditions(ps, q), " AND "@)
    }
}

/// `m` with each attribute `(key, value)` of `attrs` set under
/// `{prefix}_{key}`, in order.
pub open spec fn attribute_params(
    m: Map<Seq<char>, Seq<char>>,
    prefix: Seq<char>,
    attrs: Seq<(String, String)>,
) -> Map<Seq<char>, Seq<char>>
    decreases attrs.len(),
{
    if attrs.len() == 0 {
        m
    } else {
        attribute_params(m, prefix, attrs.drop_last()).insert(
            prefix + "_"@ + attrs.last().0@,
            attrs.last().1@,
        )
    }
}

/// The filter parameters for a list of policies: for each policy that
/// applies, at position `i`, every user attribute `(key, value)` under
/// `rls_param_{i}_{key}`.
pub open spec fn param_map(ps: Seq<RLSPolicy>, q: SecurityQuery) -> Map<Seq<char>, Seq<char>>
    decreases ps.len(),
{
    if ps.len() == 0 {
        Map::empty()
    } else {
        let prev = param_map(ps.drop_last(), q);
        if policy_applies(ps.last(), q) {
            attribute_params(prev, param_name((ps.len() - 1) as nat), q.user_attributes.entry_seq())
        } else {
            prev
        }
    }
}

impl RLSPolicy {
    /// The SQL condition this policy adds, with `param_prefix` as the name of
    /// its parameter.
    pub fn generate_condition(&self, param_prefix: &str) -> (r: String)
        ensures
            r@ == condition_text(self.condition, param_prefix@),
    {
        let mut s = String::new();
        match &self.condition {
            RLSCondition::UserAttribute { attribute, value } => {
                push_text(&mut s, attribute.as_str());
                push_text(&mut s, " = ");
                push_text(&mut s, value.as_str());
            },
            RLSCondition::UserRole { role } => {
                push_text(&mut s, "user_role = '");
                push_text(&mut s, role.as_str());
                push_text(&mut s, "'");
            },
            RLSCondition::TimeBased { start_time, end_time } => {
                push_text(&mut s, "created_at BETWEEN ");
                push_signed_decimal(&mut s, *start_time);
                push_text(&mut s, " AND ");
                push_signed_decimal(&mut s, *end_time);
            },
            RLSCondition::Custom { function_name } => {
                push_text(&mut s, function_name.as_str());
                push_text(&mut s, "(");
                push_text(&mut s, param_prefix);
                push_text(&mut s, ")");
            },
        }
        s
    }
}

/// Row-level security policies, listed per table in the order they were
/// added.
pub struct RowLevelSecurityEngine {
    policies: StringMap<Vec<RLSPolicy>>,
}

impl RowLevelSecurityEngine {
    /// The policies of `table`, in the order they were added.
    pub closed spec fn policies_for(&self, table: Seq<char>) -> Seq<RLSPolicy> {
        if self.policies@.contains_key(table) {
            self.policies@[table]@
        } else {
            Seq::empty()
        }
    }

    /// The tables that have had a policy added.
    pub closed spec fn tables(&self) -> Set<Seq<char>> {
        self.policies@.dom()
    }

    /// An engine without policies.
    pub fn new() -> (r: Self)
        ensures
            r.tables() == Set::<Seq<char>>::empty(),
            forall|t: Seq<char>| #[trigger] r.policies_for(t) == Seq::<RLSPolicy>::empty(),
    {
        RowLevelSecurityEngine { policies: StringMap::new() }
    }

    /// Adds a policy after the others of `table`.
    pub fn add_policy(&mut self, table: &str, policy: RLSPolicy) -> (r: Result<(), SecurityError>)
        ensures
            r is Ok,
            final(self).tables() == old(self).tables().insert(table@),
            final(self).policies_for(table@) == old(self).policies_for(table@).push(policy),
            forall|t: Seq<char>| t != table@ ==> #[trigger] final(self).policies_for(t) == old(self).policies_for(t),
    {
        let ghost before = self.policies@;
        match self.policies.position(table) {
            Some(i) => {
                let mut list = self.policies.swap_value(i, Vec::new());
                list.push(policy);
                let _ = self.policies.swap_value(i, list);
                proof {
                    assert(self.policies@ =~= before.insert(table@, list));
                }
            },
            None => {
                let mut list: Vec<RLSPolicy> = Vec::new();
                list.push(policy);
                self.policies.insert(owned(table), list);
                assert(list@ =~= Seq::<RLSPolicy>::empty().push(policy));
            },
        }
        Ok(())
    }

    /// Whether `table` has had a policy added.
    pub fn has_table(&self, table: &str) -> (r: bool)
        ensures
            r == self.tables().contains(table@),
    {
        self.policies.contains_key(table)
    }

    /// The number of policies of `table`.
    pub fn policy_count(&self, table: &str) -> (r: usize)
        ensures
            r == self.policies_for(table@).len(),
    {
        match self.policies.get(table) {
            Some(list) => list.len(),
            None => 0,
        }
    }

    /// Whether `policy` applies to `query`.
    pub fn evaluate_policy(&self, policy: &RLSPolicy, query: &SecurityQuery) -> (r: bool)
        ensures
            r == policy_applies(*policy, *query),
    {
        match &policy.condition {
            RLSCondition::UserAttribute { attribute, value } => match query.user_attributes.get(
                attribute.as_str(),
            ) {
                Some(v) => str_equal(v.as_str(), value.as_str()),
                None => false,
            },
            RLSCondition::UserRole { role } => match query.user_attributes.get("role") {
                Some(r) => str_equal(r.as_str(), role.as_str()),
                None => false,
            },
            RLSCondition::TimeBased { start_time, end_time } => *start_time <= query.timestamp
                && query.timestamp <= *end_time,
            RLSCondition::Custom { function_name } => str_equal(function_name.as_str(), "always_true"),
        }
    }

    /// The filters for `query`: the conditions of the policies of its
    /// resource that apply, joined with ` AND ` (`1=1` when none applies),
    /// and for each such policy the user's attributes as parameters.
    pub fn generate_filters(&self, query: &SecurityQuery) -> (r: Result<RLSFilters, SecurityError>)
        ensures
            r matches Ok(f) && f.where_clause@ == where_text(self.policies_for(query.resource@), *query)
                && text_map(f.parameters@) == param_map(self.policies_for(query.resource@), *query),
    {
        let empty: Vec<RLSPolicy> = Vec::new();
        let ps: &Vec<RLSPolicy> = match self.policies.get(query.resource.as_str()) {
            Some(list) => list,
            None => &empty,
        };
        let mut conditions: Vec<String> = Vec::new();
        let mut parameters: StringMap<String> = StringMap::new();
        assert(text_map(parameters@) =~= Map::<Seq<char>, Seq<char>>::empty());
        assert(ps@.subrange(0, 0) =~= Seq::<RLSPolicy>::empty());
        let mut i: usize = 0;
        while i < ps.len()
            invariant
                i <= ps@.len(),
                ps@ == self.policies_for(query.resource@),
                views(conditions@) == applied_conditions(ps@.subrange(0, i as int), *query),
                text_map(parameters@) == param_map(ps@.subrange(0, i as int), *query),
            decreases ps@.len() - i,
        {
            let policy = &ps[i];
            let ghost pre = ps@.subrange(0, i as int);
            let ghost next = ps@.subrange(0, i + 1);
            assert(next.drop_last() =~= pre);
            assert(next.last() == *policy);
            if self.evaluate_policy(policy, query) {
                let mut name = String::new();
                push_text(&mut name, "rls_param_");
                push_decimal(&mut name, i as u64);
                assert(name@ =~= param_name(i as nat));
                let condition = policy.generate_condition(name.as_str());
                let ghost before = conditions@;
                conditions.push(condition);
                assert(views(conditions@) =~= views(before).push(condition@));
                add_attribute_params(&mut parameters, &name, &query.user_attributes);
            }
            i = i + 1;
        }
        assert(ps@.subrange(0, ps@.len() as int) =~= ps@);
        let where_clause = if conditions.len() == 0 {
            owned("1=1")
        } else {
            join_strings(&conditions, " AND ")
        };
        Ok(RLSFilters { where_clause, parameters })
    }
}

/// Sets each attribute `(key, value)` of `attrs` under `{prefix}_{key}`.
fn add_attribute_params(params: &mut StringMap<String>, prefix: &String, attrs: &StringMap<String>)
    ensures
        text_map(final(params)@) == attribute_params(text_map(old(params)@), prefix@, attrs.entry_seq()),
{
    let ghost base = text_map(params@);
    let n = attrs.len();
    assert(attrs.entry_seq().subrange(0, 0) =~= Seq::<(String, String)>::empty());
    let mut j: usize = 0;
    while j < n
        invariant
            j <= n,
            n == attrs.entry_seq().len(),
            text_map(params@) == attribute_params(base, prefix@, attrs.entry_seq().subrange(0, j as int)),
        decreases n - j,
    {
        let (k, v) = attrs.entry_at(j);
        let mut key = String::new();
        push_text(&mut key, prefix.as_str());
        push_text(&mut key, "_");
        push_text(&mut key, k.as_str());
        let ghost pre = attrs.entry_seq().subrange(0, j as int);
        let ghost next = attrs.entry_seq().subrange(0, j + 1);
        assert(next.drop_last() =~= pre);
        let ghost old_map = params@;
        let value = v.clone();
        params.insert(key, value);
        assert(text_map(params@) =~= text_map(old_map).insert(key@, value@));
        j = j + 1;
    }
    assert(attrs.entry_seq().subrange(0, n as int) =~= attrs.entry_seq());
}


/// The name of the parameter that carries attribute `k` for the policy at
/// position `i`: `rls_param_{i}_{k}`.
pub open spec fn param_key(i: nat, k: Seq<char>) -> Seq<char> {
    param_name(i) + "_"@ + k
}

proof fn lemma_attribute_params_dom(m: Map<Seq<char>, Seq<char>>, i: nat, attrs: Seq<(String, String)>)
    ensures
        forall|key: Seq<char>| #[trigger] attribute_params(m, param_name(i), attrs).contains_key(key) <==> (m.contains_key(
            key,
        ) || exists|j: int| 0 <= j < attrs.len() && key == #[trigger] param_key(i, attrs[j].0@)),
    decreases attrs.len(),
{
    if attrs.len() > 0 {
        let d = attrs.drop_last();
        lemma_attribute_params_dom(m, i, d);
        assert forall|key: Seq<char>| #[trigger] attribute_params(m, param_name(i), attrs).contains_key(key) <==> (
        m.contains_key(key) || exists|j: int| 0 <= j < attrs.len() && key == #[trigger] param_key(i, attrs[j].0@)) by {
            if exists|j: int| 0 <= j < attrs.len() && key == #[trigger] param_key(i, attrs[j].0@) {
                let j = choose|j: int| 0 <= j < attrs.len() && key == #[trigger] param_key(i, attrs[j].0@);
                if j < d.len() {
                    assert(d[j] == attrs[j]);
                    assert(key == param_key(i, d[j].0@));
                }
            }
            if exists|j: int| 0 <= j < d.len() && key == #[trigger] param_key(i, d[j].0@) {
                let j = choose|j: int| 0 <= j < d.len() && key == #[trigger] param_key(i, d[j].0@);
                assert(d[j] == attrs[j]);
                assert(key == param_key(i, attrs[j].0@));
            }
            assert(param_key(i, attrs.last().0@) == param_name(i) + "_"@ + attrs.last().0@);
            assert(attrs[attrs.len() - 1] == attrs.last());
            assert(attribute_params(m, param_name(i), attrs) == attribute_params(m, param_name(i), d).insert(
                param_name(i) + "_"@ + attrs.last().0@,
                attrs.last().1@,
            ));
            if key == param_name(i) + "_"@ + attrs.last().0@ {
                assert(key == param_key(i, attrs[attrs.len() - 1].0@));
            }
        }
    }
}

/// The filter parameters are named `rls_param_{i}_{k}`, for each policy
/// position `i` whose policy applies to the query and each user attribute
/// `k` of the query, and no others.
pub proof fn law_rls_parameter_names(ps: Seq<RLSPolicy>, q: SecurityQuery, key: Seq<char>)
    ensures
        param_map(ps, q).contains_key(key) <==> exists|i: int, j: int|
            0 <= i < ps.len() && policy_applies(ps[i], q) && 0 <= j < q.user_attributes.entry_seq().len() && key
                == #[trigger] param_key(i as nat, #[trigger] q.user_attributes.entry_seq()[j].0@),
    decreases ps.len(),
{
    let attrs = q.user_attributes.entry_seq();
    if ps.len() > 0 {
        let d = ps.drop_last();
        let n = (ps.len() - 1) as nat;
        law_rls_parameter_names(d, q, key);
        if policy_applies(ps.last(), q) {
            lemma_attribute_params_dom(param_map(d, q), n, attrs);
        }
        if exists|i: int, j: int|
            0 <= i < ps.len() && policy_applies(ps[i], q) && 0 <= j < attrs.len() && key
                == #[trigger] param_key(i as nat, #[trigger] attrs[j].0@) {
            let (i, j) = choose|i: int, j: int|
                0 <= i < ps.len() && policy_applies(ps[i], q) && 0 <= j < attrs.len() && key
                    == #[trigger] param_key(i as nat, #[trigger] attrs[j].0@);
            if i < d.len() {
                assert(d[i] == ps[i]);
                assert(key == param_key(i as nat, attrs[j].0@));
            } else {
                assert(ps[i] == ps.last());
            }
        }
        if exists|i: int, j: int|
            0 <= i < d.len() && policy_applies(d[i], q) && 0 <= j < attrs.len() && key
                == #[trigger] param_key(i as nat, #[trigger] attrs[j].0@) {
            let (i, j) = choose|i: int, j: int|
                0 <= i < d.len() && policy_applies(d[i], q) && 0 <= j < attrs.len() && key
                    == #[trigger] param_key(i as nat, #[trigger] attrs[j].0@);
            assert(d[i] == ps[i]);
            assert(key == param_key(i as nat, attrs[j].0@));
        }
    }
}

} // verus!
