//! Logical query plans, as the optimiser and the compiler see them.

use vstd::prelude::*;
use crate::text::push_text;

verus! {

/// A logical query plan: scans at the leaves, with filters, joins and
/// grouping above them.
#[derive(Debug)]
pub enum LogicalPlan {
    SeqScan { table: String },
    IndexScan { table: String, index: String },
    Filter { input: Box<LogicalPlan>, predicate: String },
    NestedLoopJoin { left: Box<LogicalPlan>, right: Box<LogicalPlan>, condition: String },
    HashJoin { left: Box<LogicalPlan>, right: Box<LogicalPlan>, condition: String },
    GroupBy { input: Box<LogicalPlan>, keys: Vec<String> },
    /// Any other operation, by name.
    Other { name: String },
}

/// A text that identifies a plan: each operation by name with its inputs
/// in brackets.
pub open spec fn plan_text(p: LogicalPlan) -> Seq<char>
    decreases p,
{
    match p {
        LogicalPlan::SeqScan { table } => "SeqScan("@ + table@ + ")"@,
        LogicalPlan::IndexScan { table, index } => "IndexScan("@ + table@ + ","@ + index@ + ")"@,
        LogicalPlan::Filter { input, predicate } => "Filter("@ + predicate@ + ","@ + plan_text(*input) + ")"@,
        LogicalPlan::NestedLoopJoin { left, right, condition } => "NestedLoopJoin("@ + condition@ + ","@
            + plan_text(*left) + ","@ + plan_text(*right) + ")"@,
        LogicalPlan::HashJoin { left, right, condition } => "HashJoin("@ + condition@ + ","@ + plan_text(*left)
            + ","@ + plan_text(*right) + ")"@,
        LogicalPlan::GroupBy { input, keys } => "GroupBy("@ + plan_text(*input) + ")"@,
        LogicalPlan::Other { name } => "Other("@ + name@ + ")"@,
    }
}

/// Whether the plan is a scan.
pub open spec fn is_scan(p: LogicalPlan) -> bool {
    p is SeqScan || p is IndexScan
}

/// Whether the plan is a join.
pub open spec fn is_join(p: LogicalPlan) -> bool {
    p is NestedLoopJoin || p is HashJoin
}

impl LogicalPlan {
    /// Appends the text that identifies the plan (see `plan_text`).
    pub fn describe(&self, out: &mut String)
        ensures
            final(out)@ == old(out)@ + plan_text(*self),
        decreases self,
    {
        let ghost start = out@;
        match self {
            LogicalPlan::SeqScan { table } => {
                push_text(out, "SeqScan(");
                push_text(out, table.as_str());
                push_text(out, ")");
            },
            LogicalPlan::IndexScan { table, index } => {
                push_text(out, "IndexScan(");
                push_text(out, table.as_str());
                push_text(out, ",");
                push_text(out, index.as_str());
                push_text(out, ")");
            },
            LogicalPlan::Filter { input, predicate } => {
                push_text(out, "Filter(");
                push_text(out, predicate.as_str());
                push_text(out, ",");
                input.describe(out);
                push_text(out, ")");
            },
            LogicalPlan::NestedLoopJoin { left, right, condition } => {
                push_text(out, "NestedLoopJoin(");
                push_text(out, condition.as_str());
                push_text(out, ",");
                left.describe(out);
                push_text(out, ",");
                right.describe(out);
                push_text(out, ")");
            },
            LogicalPlan::HashJoin { left, right, condition } => {
                push_text(out, "HashJoin(");
                push_text(out, condition.as_str());
                push_text(out, ",");
                left.describe(out);
                push_text(out, ",");
                right.describe(out);
                push_text(out, ")");
            },
            LogicalPlan::GroupBy { input, keys } => {
                push_text(out, "GroupBy(");
                input.describe(out);
                push_text(out, ")");
            },
            LogicalPlan::Other { name } => {
                push_text(out, "Other(");
                push_text(out, name.as_str());
                push_text(out, ")");
            },
        }
        assert(out@ =~= start + plan_text(*self));
    }

    /// Whether the plan is a scan.
    pub fn has_scan(&self) -> (r: bool)
        ensures
            r == is_scan(*self),
    {
        match self {
            LogicalPlan::SeqScan { .. } | LogicalPlan::IndexScan { .. } => true,
            _ => false,
        }
    }

    /// Whether the plan is a join.
    pub fn has_join(&self) -> (r: bool)
        ensures
            r == is_join(*self),
    {
        match self {
            LogicalPlan::NestedLoopJoin { .. } | LogicalPlan::HashJoin { .. } => true,
            _ => false,
        }
    }

    /// Whether the plan is a grouping.
    pub fn has_group_by(&self) -> (r: bool)
        ensures
            r == (*self is GroupBy),
    {
        match self {
            LogicalPlan::GroupBy { .. } => true,
            _ => false,
        }
    }
}

} // verus!
